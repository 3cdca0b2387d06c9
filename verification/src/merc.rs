//! The Mercator projection's construction-time checks.
//!
//! The projection's arithmetic runs in the caller's kernel; what is
//! decided here, exactly, is which parameter sets are accepted: the gamut,
//! and the rule that a latitude of true scale must not exceed 90 degrees
//! in magnitude. When `lat_ts` is given it selects the scale, and `k_0`
//! is ignored.

use vstd::prelude::*;

use crate::error::GeodesyError;
use crate::factory::new_builtin;
use crate::factory::spec_gamut_for;
use crate::gys::pairs_view;
use crate::gys::spec_value;
use crate::gys::GysArgs;
use crate::operator::op_wf;
use crate::operator::OpKind;
use crate::operator::Operator;
use crate::params::abs_exceeds_90;
use crate::params::exceeds_90;
use crate::params::is_plain_decimal;
use crate::params::step_fits_gamut;

verus! {

/// Whether a step's `lat_ts`, if bound, is a plain decimal of magnitude
/// at most 90.
pub open spec fn lat_ts_ok(
    locals: Seq<(Seq<char>, Seq<char>)>,
    globals: Seq<(Seq<char>, Seq<char>)>,
) -> bool {
    match spec_value(locals, globals, "lat_ts"@) {
        Some(v) => is_plain_decimal(v) && !abs_exceeds_90(v),
        None => true,
    }
}

/// The Mercator projection.
pub struct Merc;

impl Merc {
    /// Accept a Mercator step: its parameters must fit the gamut, and a
    /// given `lat_ts` must be a plain decimal no greater than 90 degrees
    /// in magnitude.
    pub fn new(args: &GysArgs) -> (r: Result<Operator, GeodesyError>)
        ensures
            r is Ok <==> step_fits_gamut(
                pairs_view(args.locals@),
                pairs_view(args.globals@),
                spec_gamut_for("merc"@),
            ) && lat_ts_ok(pairs_view(args.locals@), pairs_view(args.globals@)),
            r is Ok ==> {
                let op = r->Ok_0;
                &&& op_wf(op)
                &&& op.name@ == "merc"@
                &&& op.kind == OpKind::Builtin
                &&& pairs_view(op.params@) =~= pairs_view(args.locals@)
                &&& op.steps@.len() == 0
                &&& op.inverted == (spec_value(
                    pairs_view(args.locals@),
                    pairs_view(args.globals@),
                    "inv"@,
                ) == Some("true"@))
            },
    {
        proof {
            reveal_strlit("merc");
            reveal_strlit("noop");
            assert("merc"@ != "noop"@) by {
                assert(("merc"@)[0] == 'm');
                assert(("noop"@)[0] == 'n');
            }
        }
        let op = match new_builtin("merc", args) {
            Ok(op) => op,
            Err(e) => {
                return Err(e);
            },
        };
        match args.value("lat_ts") {
            Some(v) => {
                match exceeds_90(v.as_str()) {
                    Some(true) => Err(
                        GeodesyError::Operator(
                            "merc",
                            "invalid lat_ts: |lat_ts| must be <= 90 degrees",
                        ),
                    ),
                    Some(false) => Ok(op),
                    None => Err(GeodesyError::Syntax(v)),
                }
            },
            None => Ok(op),
        }
    }
}

} // verus!
