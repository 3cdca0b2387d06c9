//! Datum shift by grid interpolation: construction-time checks.
//!
//! The operator names an ordered list of grids. A name ending in `@null`
//! names no grid: it sets the null-grid flag, under which a point no grid
//! covers passes through unchanged instead of being invalidated. Every
//! other name must be resolvable in the context when the operator is
//! built.

use vstd::prelude::*;

use crate::error::GeodesyError;
use crate::factory::new_builtin;
use crate::factory::spec_gamut_for;
use crate::gys::pairs_view;
use crate::gys::spec_value;
use crate::gys::GysArgs;
use crate::operator::op_wf;
use crate::operator::Context;
use crate::operator::OpKind;
use crate::operator::Operator;
use crate::params::step_fits_gamut;
use crate::text::spec_split;
use crate::text::split_on;

verus! {

/// Whether a grid name ends in the `@null` sentinel.
pub open spec fn is_null_name(n: Seq<char>) -> bool {
    n.len() >= 5 && n.skip(n.len() - 5) == "@null"@
}

/// Whether a grid blob is registered under `n`.
pub open spec fn grid_known(grids: Seq<(String, Vec<u8>)>, n: Seq<char>) -> bool {
    exists|j: int| 0 <= j < grids.len() && (#[trigger] grids[j]).0@ == n
}

/// Whether every name in a comma-separated grid list is the `@null`
/// sentinel or registered.
pub open spec fn grid_list_ok(grids: Seq<(String, Vec<u8>)>, list: Seq<char>) -> bool {
    forall|i: int|
        0 <= i < spec_split(list, ',').len() ==> is_null_name(
            #[trigger] spec_split(list, ',')[i],
        ) || grid_known(grids, spec_split(list, ',')[i])
}

/// What a gridshift step must satisfy: the gamut, a `grids` binding, and
/// every listed grid available or `@null`.
pub open spec fn gridshift_ok(
    locals: Seq<(Seq<char>, Seq<char>)>,
    globals: Seq<(Seq<char>, Seq<char>)>,
    grids: Seq<(String, Vec<u8>)>,
) -> bool {
    &&& step_fits_gamut(locals, globals, spec_gamut_for("gridshift"@))
    &&& match spec_value(locals, globals, "grids"@) {
        Some(v) => grid_list_ok(grids, v),
        None => false,
    }
}

/// Whether `n` ends in `@null`.
pub fn ends_in_null(n: &str) -> (r: bool)
    ensures
        r == is_null_name(n@),
{
    let len = n.unicode_len();
    if len < 5 {
        return false;
    }
    let tail = n.substring_char(len - 5, len);
    proof {
        assert(n@.subrange(len - 5, len as int) =~= n@.skip(len - 5));
    }
    crate::text::str_eq(tail, "@null")
}

/// Partition a comma-separated grid list for execution: the names of the
/// grids to load, in order, and whether the `@null` sentinel was named.
#[verifier::loop_isolation(false)]
pub fn grid_names(list: &str) -> (r: (Vec<String>, bool))
    ensures
        r.0@.map_values(|t: String| t@) =~= spec_split(list@, ',').filter(
            |n: Seq<char>| !is_null_name(n),
        ),
        r.1 == exists|i: int|
            0 <= i < spec_split(list@, ',').len() && is_null_name(
                #[trigger] spec_split(list@, ',')[i],
            ),
{
    proof {
        reveal(Seq::filter);
    }
    let pieces = split_on(list, ',');
    let mut names: Vec<String> = Vec::new();
    let mut use_null = false;
    let mut i: usize = 0;
    proof {
        assert(spec_split(list@, ',').take(0) =~= Seq::<Seq<char>>::empty());
    }
    while i < pieces.len()
        invariant
            0 <= i <= pieces@.len(),
            names@.map_values(|t: String| t@) =~= spec_split(list@, ',').take(i as int).filter(
                |n: Seq<char>| !is_null_name(n),
            ),
            use_null == exists|j: int|
                0 <= j < i && is_null_name(#[trigger] spec_split(list@, ',')[j]),
        decreases pieces@.len() - i,
    {
        let piece = &pieces[i];
        let ghost sv = spec_split(list@, ',');
        proof {
            assert(sv.take(i + 1).drop_last() =~= sv.take(i as int));
            assert(sv.take(i + 1).last() == sv[i as int]);
        }
        if ends_in_null(piece.as_str()) {
            use_null = true;
        } else {
            let ghost prev = names@;
            names.push(piece.clone());
            assert(names@.map_values(|t: String| t@) =~= prev.map_values(|t: String| t@).push(
                sv[i as int],
            )) by {
                assert(names@ =~= prev.push(names@.last()));
            }
        }
        i = i + 1;
    }
    proof {
        assert(spec_split(list@, ',').take(pieces@.len() as int) =~= spec_split(list@, ','));
    }
    (names, use_null)
}

/// Accept a gridshift step: parameters fitting the gamut, a `grids` list
/// given, and each listed grid registered or marked `@null`.
#[verifier::loop_isolation(false)]
pub fn new(args: &GysArgs, ctx: &Context) -> (r: Result<Operator, GeodesyError>)
    ensures
        r is Ok <==> gridshift_ok(
            pairs_view(args.locals@),
            pairs_view(args.globals@),
            ctx.grids@,
        ),
        r is Ok ==> {
            let op = r->Ok_0;
            &&& op_wf(op)
            &&& op.name@ == "gridshift"@
            &&& op.kind == OpKind::Builtin
            &&& pairs_view(op.params@) =~= pairs_view(args.locals@)
            &&& op.steps@.len() == 0
            &&& op.inverted == (spec_value(
                pairs_view(args.locals@),
                pairs_view(args.globals@),
                "inv"@,
            ) == Some("true"@))
        },
{
    proof {
        reveal_strlit("gridshift");
        reveal_strlit("noop");
        assert(("gridshift"@).len() != ("noop"@).len());
    }
    let op = match new_builtin("gridshift", args) {
        Ok(op) => op,
        Err(e) => {
            return Err(e);
        },
    };
    let list = match args.value("grids") {
        Some(v) => v,
        None => {
            return Err(GeodesyError::Operator("gridshift", "grids must be given"));
        },
    };
    let names = split_on(list.as_str(), ',');
    let mut i: usize = 0;
    while i < names.len()
        invariant
            0 <= i <= names@.len(),
            names@.map_values(|t: String| t@) =~= spec_split(list@, ','),
            forall|j: int|
                0 <= j < i ==> is_null_name(#[trigger] spec_split(list@, ',')[j]) || grid_known(
                    ctx.grids@,
                    spec_split(list@, ',')[j],
                ),
        decreases names@.len() - i,
    {
        let name = &names[i];
        if !ends_in_null(name.as_str()) {
            if !ctx.has_grid(name.as_str()) {
                assert(!is_null_name(spec_split(list@, ',')[i as int]));
                assert(!grid_known(ctx.grids@, spec_split(list@, ',')[i as int]));
                assert(!grid_list_ok(ctx.grids@, list@));
                return Err(GeodesyError::NotFound(name.clone()));
            }
        }
        assert(is_null_name(spec_split(list@, ',')[i as int]) || grid_known(
            ctx.grids@,
            spec_split(list@, ',')[i as int],
        ));
        i = i + 1;
    }
    Ok(op)
}

} // verus!
