//! Transverse Mercator and its UTM sugar: construction-time checks and
//! the exact derivation of UTM's defining parameters.
//!
//! The projection's arithmetic runs in the caller's kernel. UTM fixes the
//! kernel's parameters from the zone alone: a scale of 0.9996, a central
//! meridian of `(−183 + 6·zone)` degrees, a false easting of 500 000, and
//! a false northing of 0, or 10 000 000 on the southern hemisphere.

use vstd::prelude::*;

use crate::error::GeodesyError;
use crate::factory::new_builtin;
use crate::factory::spec_gamut_for;
use crate::gys::pairs_view;
use crate::gys::spec_value;
use crate::gys::GysArgs;
use crate::operator::op_wf;
use crate::operator::OpKind;
use crate::operator::Operator;
use crate::params::step_fits_gamut;
use crate::text::all_digits;
use crate::text::digits_value;
use crate::text::parse_natural;

verus! {

/// Whether a step binds `zone` to a whole number from 1 to 60.
pub open spec fn zone_ok(
    locals: Seq<(Seq<char>, Seq<char>)>,
    globals: Seq<(Seq<char>, Seq<char>)>,
) -> bool {
    match spec_value(locals, globals, "zone"@) {
        Some(v) => v.len() > 0 && all_digits(v) && 1 <= digits_value(v) <= 60,
        None => false,
    }
}

/// The UTM parameters a zone determines. The scale is carried times
/// 10 000, since it is the one non-integer among them.
pub struct UtmParams {
    /// Central meridian, in degrees.
    pub lon_0_deg: i64,
    /// False easting, in metres.
    pub x_0: u64,
    /// False northing, in metres.
    pub y_0: u64,
    /// Scale at the central meridian, times 10 000.
    pub k_0_times_10000: u64,
}

/// The Transverse Mercator projection.
pub struct Tmerc;

impl Tmerc {
    /// Accept a Transverse Mercator step: its parameters must fit the
    /// gamut.
    pub fn new(args: &GysArgs) -> (r: Result<Operator, GeodesyError>)
        ensures
            r is Ok <==> step_fits_gamut(
                pairs_view(args.locals@),
                pairs_view(args.globals@),
                spec_gamut_for("tmerc"@),
            ),
            r is Ok ==> {
                let op = r->Ok_0;
                &&& op_wf(op)
                &&& op.name@ == "tmerc"@
                &&& op.kind == OpKind::Builtin
                &&& pairs_view(op.params@) =~= pairs_view(args.locals@)
                &&& op.steps@.len() == 0
                &&& op.inverted == (spec_value(
                    pairs_view(args.locals@),
                    pairs_view(args.globals@),
                    "inv"@,
                ) == Some("true"@))
            },
    {
        proof {
            reveal_strlit("tmerc");
            reveal_strlit("noop");
            assert(("tmerc"@).len() != ("noop"@).len());
        }
        new_builtin("tmerc", args)
    }

    /// Accept a UTM step: its parameters must fit the gamut, and `zone`
    /// must be a whole number from 1 to 60.
    pub fn utm(args: &GysArgs) -> (r: Result<Operator, GeodesyError>)
        ensures
            r is Ok <==> step_fits_gamut(
                pairs_view(args.locals@),
                pairs_view(args.globals@),
                spec_gamut_for("utm"@),
            ) && zone_ok(pairs_view(args.locals@), pairs_view(args.globals@)),
            r is Ok ==> {
                let op = r->Ok_0;
                &&& op_wf(op)
                &&& op.name@ == "utm"@
                &&& op.kind == OpKind::Builtin
                &&& pairs_view(op.params@) =~= pairs_view(args.locals@)
                &&& op.steps@.len() == 0
                &&& op.inverted == (spec_value(
                    pairs_view(args.locals@),
                    pairs_view(args.globals@),
                    "inv"@,
                ) == Some("true"@))
            },
    {
        proof {
            reveal_strlit("utm");
            reveal_strlit("noop");
            assert(("utm"@).len() != ("noop"@).len());
        }
        let op = match new_builtin("utm", args) {
            Ok(op) => op,
            Err(e) => {
                return Err(e);
            },
        };
        let zone_text = match args.value("zone") {
            Some(v) => v,
            None => {
                return Err(GeodesyError::Operator("utm", "zone must be given"));
            },
        };
        let zone = match parse_natural(zone_text.as_str()) {
            Some(z) => z,
            None => {
                return Err(GeodesyError::Operator("utm", "zone must be a whole number"));
            },
        };
        if zone < 1 || zone > 60 {
            return Err(GeodesyError::Operator("utm", "zone must be between 1 and 60"));
        }
        Ok(op)
    }

    /// The kernel parameters a UTM zone determines.
    pub fn utm_zone_params(zone: u64, south: bool) -> (r: UtmParams)
        requires
            1 <= zone <= 60,
        ensures
            r.lon_0_deg == -183 + 6 * zone,
            r.x_0 == 500_000,
            r.y_0 == if south {
                10_000_000u64
            } else {
                0u64
            },
            r.k_0_times_10000 == 9_996,
    {
        UtmParams {
            lon_0_deg: -183 + 6 * (zone as i64),
            x_0: 500_000,
            y_0: if south {
                10_000_000
            } else {
                0
            },
            k_0_times_10000: 9_996,
        }
    }
}

} // verus!
