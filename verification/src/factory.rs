//! Resolution of one step to an operator: registered macros first (with
//! argument substitution), then user-registered operators, then built-ins,
//! with a depth guard against cyclic macros.

use vstd::prelude::*;

use crate::block::contains_char;
use crate::block::parse_block;
use crate::error::GeodesyError;
use crate::gys::clone_pairs;
use crate::gys::lookup;
use crate::gys::pairs_view;
use crate::gys::spec_locals;
use crate::gys::spec_value;
use crate::gys::GysArgs;
use crate::gys::GysResource;
use crate::gridshift::gridshift_ok;
use crate::merc::lat_ts_ok;
use crate::operator::builtins;
use crate::operator::is_builtin;
use crate::operator::spec_canonical;
use crate::tmerc::zone_ok;
use crate::operator::names_view;
use crate::operator::op_wf;
use crate::operator::strip_builtin_prefix;
use crate::operator::Context;
use crate::operator::OpKind;
use crate::operator::Operator;
use crate::params::gamut_view;
use crate::params::step_fits_gamut;
use crate::params::validate_step;
use crate::params::OpParameter;
use crate::text::spec_replace_all;

verus! {

/// The keys that are not forwarded into a macro body's `ARGS` slot.
pub open spec fn args_key_skipped(k: Seq<char>) -> bool {
    k == "name"@ || k == "ellps"@ || k == "_definition"@
}

/// The textual rendering of forwarded arguments: ` key:value` for each
/// pair, in order.
pub open spec fn rendered_args(ps: Seq<(Seq<char>, Seq<char>)>) -> Seq<char>
    decreases ps.len(),
{
    if ps.len() == 0 {
        Seq::empty()
    } else {
        rendered_args(ps.drop_last()) + (if args_key_skipped(ps.last().0) {
            Seq::<char>::empty()
        } else {
            " "@ + ps.last().0 + ":"@ + ps.last().1
        })
    }
}

/// Render the forwarded arguments of a step.
fn render_args(pairs: &Vec<(String, String)>) -> (r: String)
    ensures
        r@ == rendered_args(pairs_view(pairs@)),
{
    let mut out = String::new();
    let mut i: usize = 0;
    while i < pairs.len()
        invariant
            0 <= i <= pairs@.len(),
            out@ == rendered_args(pairs_view(pairs@).take(i as int)),
        decreases pairs@.len() - i,
    {
        let key = &pairs[i].0;
        let skipped = crate::text::str_eq(key.as_str(), "name") || crate::text::str_eq(
            key.as_str(),
            "ellps",
        ) || crate::text::str_eq(key.as_str(), "_definition");
        if !skipped {
            out.append(" ");
            out.append(key.as_str());
            out.append(":");
            out.append(pairs[i].1.as_str());
        }
        proof {
            let pv = pairs_view(pairs@);
            assert(pv.take(i + 1).drop_last() =~= pv.take(i as int));
            assert(pv.take(i + 1).last() == pv[i as int]);
        }
        i = i + 1;
    }
    proof {
        assert(pairs_view(pairs@).take(pairs@.len() as int) =~= pairs_view(pairs@));
    }
    out
}

/// Substitute a step's arguments into a macro body: every `ARGS` in the
/// body is replaced by the rendered ` key:value` pairs of the call.
pub fn expand_gys(definition: &str, args: &GysArgs) -> (r: String)
    ensures
        r@ == spec_replace_all(
            definition@,
            "ARGS"@,
            rendered_args(pairs_view(args.locals@)),
        ),
{
    let rendered = render_args(&args.locals);
    crate::text::replace_all(definition, "ARGS", rendered.as_str())
}

/// The declared parameters of each built-in operator.
pub open spec fn spec_gamut_for(n: Seq<char>) -> Seq<(Seq<char>, OpParameter)> {
    if n == "adapt"@ {
        seq![("inv"@, OpParameter::Flag), ("from"@, OpParameter::Text), ("to"@, OpParameter::Text)]
    } else if n == "cart"@ {
        seq![("inv"@, OpParameter::Flag), ("ellps"@, OpParameter::Text)]
    } else if n == "gridshift"@ {
        seq![
            ("inv"@, OpParameter::Flag),
            ("grids"@, OpParameter::Grids),
            ("padding"@, OpParameter::Real),
        ]
    } else if n == "helmert"@ {
        seq![
            ("inv"@, OpParameter::Flag),
            ("x"@, OpParameter::Real),
            ("y"@, OpParameter::Real),
            ("z"@, OpParameter::Real),
            ("rx"@, OpParameter::Real),
            ("ry"@, OpParameter::Real),
            ("rz"@, OpParameter::Real),
            ("s"@, OpParameter::Real),
            ("dx"@, OpParameter::Real),
            ("dy"@, OpParameter::Real),
            ("dz"@, OpParameter::Real),
            ("drx"@, OpParameter::Real),
            ("dry"@, OpParameter::Real),
            ("drz"@, OpParameter::Real),
            ("ds"@, OpParameter::Real),
            ("t_epoch"@, OpParameter::Real),
            ("exact"@, OpParameter::Flag),
            ("position_vector"@, OpParameter::Flag),
        ]
    } else if n == "lcc"@ {
        seq![
            ("inv"@, OpParameter::Flag),
            ("ellps"@, OpParameter::Text),
            ("lat_0"@, OpParameter::Real),
            ("lat_1"@, OpParameter::Real),
            ("lat_2"@, OpParameter::Real),
            ("lon_0"@, OpParameter::Real),
            ("k_0"@, OpParameter::Real),
            ("x_0"@, OpParameter::Real),
            ("y_0"@, OpParameter::Real),
        ]
    } else if n == "merc"@ {
        seq![
            ("inv"@, OpParameter::Flag),
            ("ellps"@, OpParameter::Text),
            ("lat_ts"@, OpParameter::Real),
            ("k_0"@, OpParameter::Real),
            ("lon_0"@, OpParameter::Real),
            ("lat_0"@, OpParameter::Real),
            ("x_0"@, OpParameter::Real),
            ("y_0"@, OpParameter::Real),
        ]
    } else if n == "molodensky"@ {
        seq![
            ("inv"@, OpParameter::Flag),
            ("ellps"@, OpParameter::Text),
            ("left_ellps"@, OpParameter::Text),
            ("right_ellps"@, OpParameter::Text),
            ("dx"@, OpParameter::Real),
            ("dy"@, OpParameter::Real),
            ("dz"@, OpParameter::Real),
            ("abridged"@, OpParameter::Flag),
        ]
    } else if n == "tmerc"@ {
        seq![
            ("inv"@, OpParameter::Flag),
            ("ellps"@, OpParameter::Text),
            ("k_0"@, OpParameter::Real),
            ("lon_0"@, OpParameter::Real),
            ("lat_0"@, OpParameter::Real),
            ("x_0"@, OpParameter::Real),
            ("y_0"@, OpParameter::Real),
        ]
    } else if n == "utm"@ {
        seq![
            ("inv"@, OpParameter::Flag),
            ("ellps"@, OpParameter::Text),
            ("zone"@, OpParameter::Natural),
            ("south"@, OpParameter::Flag),
        ]
    } else {
        // noop, dm, nmea, dms, nmeass
        seq![("inv"@, OpParameter::Flag)]
    }
}

/// Build the declared parameter table of one built-in.
pub fn gamut_for(name: &'static str) -> (g: Vec<(&'static str, OpParameter)>)
    ensures
        gamut_view(g@) =~= spec_gamut_for(name@),
{
    let mut g: Vec<(&'static str, OpParameter)> = Vec::new();
    g.push(("inv", OpParameter::Flag));
    if crate::text::str_eq(name, "adapt") {
        g.push(("from", OpParameter::Text));
        g.push(("to", OpParameter::Text));
    } else if crate::text::str_eq(name, "cart") {
        g.push(("ellps", OpParameter::Text));
    } else if crate::text::str_eq(name, "gridshift") {
        g.push(("grids", OpParameter::Grids));
        g.push(("padding", OpParameter::Real));
    } else if crate::text::str_eq(name, "helmert") {
        g.push(("x", OpParameter::Real));
        g.push(("y", OpParameter::Real));
        g.push(("z", OpParameter::Real));
        g.push(("rx", OpParameter::Real));
        g.push(("ry", OpParameter::Real));
        g.push(("rz", OpParameter::Real));
        g.push(("s", OpParameter::Real));
        g.push(("dx", OpParameter::Real));
        g.push(("dy", OpParameter::Real));
        g.push(("dz", OpParameter::Real));
        g.push(("drx", OpParameter::Real));
        g.push(("dry", OpParameter::Real));
        g.push(("drz", OpParameter::Real));
        g.push(("ds", OpParameter::Real));
        g.push(("t_epoch", OpParameter::Real));
        g.push(("exact", OpParameter::Flag));
        g.push(("position_vector", OpParameter::Flag));
    } else if crate::text::str_eq(name, "lcc") {
        g.push(("ellps", OpParameter::Text));
        g.push(("lat_0", OpParameter::Real));
        g.push(("lat_1", OpParameter::Real));
        g.push(("lat_2", OpParameter::Real));
        g.push(("lon_0", OpParameter::Real));
        g.push(("k_0", OpParameter::Real));
        g.push(("x_0", OpParameter::Real));
        g.push(("y_0", OpParameter::Real));
    } else if crate::text::str_eq(name, "merc") {
        g.push(("ellps", OpParameter::Text));
        g.push(("lat_ts", OpParameter::Real));
        g.push(("k_0", OpParameter::Real));
        g.push(("lon_0", OpParameter::Real));
        g.push(("lat_0", OpParameter::Real));
        g.push(("x_0", OpParameter::Real));
        g.push(("y_0", OpParameter::Real));
    } else if crate::text::str_eq(name, "molodensky") {
        g.push(("ellps", OpParameter::Text));
        g.push(("left_ellps", OpParameter::Text));
        g.push(("right_ellps", OpParameter::Text));
        g.push(("dx", OpParameter::Real));
        g.push(("dy", OpParameter::Real));
        g.push(("dz", OpParameter::Real));
        g.push(("abridged", OpParameter::Flag));
    } else if crate::text::str_eq(name, "tmerc") {
        g.push(("ellps", OpParameter::Text));
        g.push(("k_0", OpParameter::Real));
        g.push(("lon_0", OpParameter::Real));
        g.push(("lat_0", OpParameter::Real));
        g.push(("x_0", OpParameter::Real));
        g.push(("y_0", OpParameter::Real));
    } else if crate::text::str_eq(name, "utm") {
        g.push(("ellps", OpParameter::Text));
        g.push(("zone", OpParameter::Natural));
        g.push(("south", OpParameter::Flag));
    }
    assert(gamut_view(g@) =~= spec_gamut_for(name@));
    g
}

/// Whether a built-in accepts a step's bindings: its gamut, and the
/// operator-specific rules — Mercator's latitude of true scale, UTM's
/// zone, and the grid shift's grid availability. The branch order follows
/// the resolver's.
pub open spec fn builtin_accepts(
    canon: Seq<char>,
    locals: Seq<(Seq<char>, Seq<char>)>,
    globals: Seq<(Seq<char>, Seq<char>)>,
    grids: Seq<(String, Vec<u8>)>,
) -> bool {
    if canon == "merc"@ {
        step_fits_gamut(locals, globals, spec_gamut_for("merc"@)) && lat_ts_ok(locals, globals)
    } else if canon == "utm"@ {
        step_fits_gamut(locals, globals, spec_gamut_for("utm"@)) && zone_ok(locals, globals)
    } else if canon == "gridshift"@ {
        gridshift_ok(locals, globals, grids)
    } else if canon == "noop"@ {
        true
    } else {
        step_fits_gamut(locals, globals, spec_gamut_for(canon))
    }
}

/// What every successful built-in construction pins down: the canonical
/// name, the step's own bindings, no children, and the inversion flag.
pub open spec fn builtin_result_pinned(
    op: Operator,
    canon: Seq<char>,
    locals: Seq<(Seq<char>, Seq<char>)>,
    globals: Seq<(Seq<char>, Seq<char>)>,
) -> bool {
    &&& op.name@ == canon
    &&& op.steps@.len() == 0
    &&& (op.kind == OpKind::Noop <==> canon == "noop"@)
    &&& (op.kind == OpKind::Noop || op.kind == OpKind::Builtin)
    &&& pairs_view(op.params@) =~= locals
    &&& op.inverted == (spec_value(locals, globals, "inv"@) == Some("true"@))
}

/// The head name a step resolves to, or the empty name when the step is
/// empty or the name binding dangles.
pub open spec fn step_name(step: Seq<char>, globals: Seq<(Seq<char>, Seq<char>)>) -> Seq<char> {
    match spec_value(spec_locals(step), globals, "name"@) {
        Some(v) => v,
        None => Seq::empty(),
    }
}

/// Whether a step's "inv" binding resolves to "true".
pub open spec fn step_inverted(step: Seq<char>, globals: Seq<(Seq<char>, Seq<char>)>) -> bool {
    spec_value(spec_locals(step), globals, "inv"@) == Some("true"@)
}

/// Whether a step's head can be resolved at all: a registered macro, a
/// user-registered operator, or a built-in.
pub open spec fn step_may_resolve(
    step: Seq<char>,
    globals: Seq<(Seq<char>, Seq<char>)>,
    macros: Seq<(String, String)>,
    user_ops: Seq<String>,
) -> bool {
    let nm = step_name(step, globals);
    ||| lookup(pairs_view(macros), nm) is Some
    ||| names_view(user_ops).contains(nm)
    ||| is_builtin(strip_builtin_prefix(nm))
}

/// Whether a step resolves without macro expansion: a user operator, or a
/// built-in that accepts the bindings. Such a step is guaranteed to
/// compile.
pub open spec fn step_resolves_simply(
    step: Seq<char>,
    globals: Seq<(Seq<char>, Seq<char>)>,
    macros: Seq<(String, String)>,
    user_ops: Seq<String>,
    grids: Seq<(String, Vec<u8>)>,
) -> bool {
    let nm = step_name(step, globals);
    &&& lookup(pairs_view(macros), nm) is None
    &&& (names_view(user_ops).contains(nm) || (is_builtin(strip_builtin_prefix(nm))
        && builtin_accepts(
        spec_canonical(strip_builtin_prefix(nm)),
        spec_locals(step),
        globals,
        grids,
    )))
}

/// What a macro call expands to: the body with the call's arguments in
/// the `ARGS` slot.
pub open spec fn macro_expansion(body: Seq<char>, step: Seq<char>) -> Seq<char> {
    spec_replace_all(body, "ARGS"@, rendered_args(spec_locals(step)))
}

/// The scope a macro expansion compiles under: the caller's globals with
/// the call's own bindings pushed, the pipeline bookkeeping redacted.
pub open spec fn macro_scope(
    step: Seq<char>,
    globals: Seq<(Seq<char>, Seq<char>)>,
) -> Seq<(Seq<char>, Seq<char>)> {
    crate::pipeline::spec_redact(globals + spec_locals(step))
}

/// What any successful resolution pins down one level deep: a macro's
/// result is only well-formed here; a user operator's plan and a
/// built-in's acceptance and plan are exact.
pub open spec fn step_resolution_pinned_flat(
    step: Seq<char>,
    globals: Seq<(Seq<char>, Seq<char>)>,
    macros: Seq<(String, String)>,
    user_ops: Seq<String>,
    grids: Seq<(String, Vec<u8>)>,
    op: Operator,
) -> bool {
    let nm = step_name(step, globals);
    if lookup(pairs_view(macros), nm) is Some {
        op_wf(op)
    } else if names_view(user_ops).contains(nm) {
        &&& op.kind == OpKind::User
        &&& op.name@ == nm
        &&& pairs_view(op.params@) =~= spec_locals(step)
        &&& op.steps@.len() == 0
        &&& op.inverted == step_inverted(step, globals)
    } else {
        &&& is_builtin(strip_builtin_prefix(nm))
        &&& builtin_accepts(
            spec_canonical(strip_builtin_prefix(nm)),
            spec_locals(step),
            globals,
            grids,
        )
        &&& builtin_result_pinned(
            op,
            spec_canonical(strip_builtin_prefix(nm)),
            spec_locals(step),
            globals,
        )
    }
}

/// What any successful resolution of a step pins down, by the route the
/// resolver takes: a macro whose expansion is a single shorthand step or
/// a primitive block builds exactly what that step builds under the
/// merged scope; a user operator's plan and a built-in's plan are exact.
pub open spec fn step_resolution_pinned(
    step: Seq<char>,
    globals: Seq<(Seq<char>, Seq<char>)>,
    macros: Seq<(String, String)>,
    user_ops: Seq<String>,
    grids: Seq<(String, Vec<u8>)>,
    op: Operator,
) -> bool {
    let nm = step_name(step, globals);
    if lookup(pairs_view(macros), nm) is Some {
        let exp = macro_expansion(lookup(pairs_view(macros), nm).unwrap(), step);
        let mg = macro_scope(step, globals);
        &&& op_wf(op)
        &&& (crate::text::find_char(exp, '{') < 0 && crate::gys::spec_steps(exp).len() == 1)
            ==> step_resolution_pinned_flat(
            crate::gys::spec_steps(exp)[0],
            mg,
            macros,
            user_ops,
            grids,
            op,
        )
        &&& (crate::text::find_char(exp, '{') >= 0 && crate::block::block_shape_ok(
            crate::text::spec_trim(exp),
        ) && crate::block::is_primitive_block(crate::text::spec_trim(exp)))
            ==> step_resolution_pinned_flat(
            crate::block::rendered_primitive(crate::text::spec_trim(exp)),
            mg,
            macros,
            user_ops,
            grids,
            op,
        )
    } else if names_view(user_ops).contains(nm) {
        &&& op.kind == OpKind::User
        &&& op.name@ == nm
        &&& pairs_view(op.params@) =~= spec_locals(step)
        &&& op.steps@.len() == 0
        &&& op.inverted == step_inverted(step, globals)
    } else {
        &&& is_builtin(strip_builtin_prefix(nm))
        &&& builtin_accepts(
            spec_canonical(strip_builtin_prefix(nm)),
            spec_locals(step),
            globals,
            grids,
        )
        &&& builtin_result_pinned(
            op,
            spec_canonical(strip_builtin_prefix(nm)),
            spec_locals(step),
            globals,
        )
    }
}

/// Whether a step resolves through one macro level whose expansion is a
/// shorthand of simply-resolving steps, or a primitive block whose
/// rendered step resolves simply. Such a call is guaranteed to compile,
/// given a level of recursion headroom.
pub open spec fn step_resolves_via_simple_macro(
    step: Seq<char>,
    globals: Seq<(Seq<char>, Seq<char>)>,
    macros: Seq<(String, String)>,
    user_ops: Seq<String>,
    grids: Seq<(String, Vec<u8>)>,
) -> bool {
    let nm = step_name(step, globals);
    let body = lookup(pairs_view(macros), nm);
    &&& body is Some
    &&& ({
        let exp = macro_expansion(body.unwrap(), step);
        let mg = macro_scope(step, globals);
        ||| (crate::text::find_char(exp, '{') < 0 && crate::gys::spec_steps(exp).len() >= 1
            && forall|i: int|
            0 <= i < crate::gys::spec_steps(exp).len() ==> step_resolves_simply(
                #[trigger] crate::gys::spec_steps(exp)[i],
                mg,
                macros,
                user_ops,
                grids,
            ))
        ||| (crate::text::find_char(exp, '{') >= 0 && crate::block::block_shape_ok(
            crate::text::spec_trim(exp),
        ) && crate::block::is_primitive_block(crate::text::spec_trim(exp))
            && step_resolves_simply(
            crate::block::rendered_primitive(crate::text::spec_trim(exp)),
            mg,
            macros,
            user_ops,
            grids,
        ))
    })
}

/// Construct a built-in primitive from a validated step: the canonical
/// name, the step's bindings, the scope, and the inversion flag.
pub fn new_builtin(canonical: &'static str, args: &GysArgs) -> (r: Result<
    Operator,
    GeodesyError,
>)
    ensures
        r is Ok <==> step_fits_gamut(
            pairs_view(args.locals@),
            pairs_view(args.globals@),
            spec_gamut_for(canonical@),
        ),
        r is Ok ==> {
            let op = r->Ok_0;
            &&& op_wf(op)
            &&& op.name@ == canonical@
            &&& (op.kind == OpKind::Noop <==> canonical@ == "noop"@)
            &&& (op.kind == OpKind::Noop || op.kind == OpKind::Builtin)
            &&& pairs_view(op.params@) =~= pairs_view(args.locals@)
            &&& pairs_view(op.globals@) =~= pairs_view(args.globals@)
            &&& op.steps@.len() == 0
            &&& op.inverted == (spec_value(
                pairs_view(args.locals@),
                pairs_view(args.globals@),
                "inv"@,
            ) == Some("true"@))
        },
{
    let g = gamut_for(canonical);
    match validate_step(args, &g) {
        Ok(_) => {},
        Err(e) => {
            return Err(e);
        },
    }
    let inverted = args.flag("inv");
    let kind = if crate::text::str_eq(canonical, "noop") {
        OpKind::Noop
    } else {
        OpKind::Builtin
    };
    Ok(
        Operator {
            name: String::from_str(canonical),
            kind,
            params: clone_pairs(&args.locals),
            globals: clone_pairs(&args.globals),
            steps: Vec::new(),
            inverted,
        },
    )
}

/// Resolve one step against the context and build its operator.
///
/// The order is the factory's contract: a registered macro wins (its body
/// expanded with the step's arguments and compiled one level deeper),
/// then a user-registered operator, then a built-in; otherwise the name
/// is unknown. More than 100 levels of expansion is a cycle.
#[verifier::loop_isolation(false)]
pub fn operator_factory(
    step: &str,
    globals: &Vec<(String, String)>,
    ctx: &mut Context,
    recursions: usize,
) -> (r: Result<Operator, GeodesyError>)
    ensures
        recursions > 100 ==> {
            &&& r is Err
            &&& r->Err_0 is Recursion
            &&& final(ctx).messages@.len() == old(ctx).messages@.len() + 1
            &&& final(ctx).messages@.last()@ == "Unknown"@ + ": "@
                + "Operator definition too deeply nested"@
        },
        r is Ok ==> op_wf(r->Ok_0),
        final(ctx).macros@ == old(ctx).macros@,
        final(ctx).user_ops@ == old(ctx).user_ops@,
        final(ctx).grids@ == old(ctx).grids@,
        ({
            let nm = step_name(step@, pairs_view(globals@));
            (recursions <= 100 && lookup(pairs_view(old(ctx).macros@), nm) is None
                && names_view(old(ctx).user_ops@).contains(nm)) ==> {
                &&& r is Ok
                &&& r->Ok_0.kind == OpKind::User
                &&& r->Ok_0.name@ == nm
                &&& pairs_view(r->Ok_0.params@) =~= spec_locals(step@)
                &&& r->Ok_0.steps@.len() == 0
                &&& r->Ok_0.inverted == step_inverted(step@, pairs_view(globals@))
            }
        }),
        ({
            let nm = step_name(step@, pairs_view(globals@));
            (recursions <= 100 && !names_view(old(ctx).user_ops@).contains(nm) && lookup(
                pairs_view(old(ctx).macros@),
                nm,
            ) is None && !is_builtin(strip_builtin_prefix(nm))) ==> r is Err
        }),
        ({
            let nm = step_name(step@, pairs_view(globals@));
            (recursions <= 100 && !names_view(old(ctx).user_ops@).contains(nm) && lookup(
                pairs_view(old(ctx).macros@),
                nm,
            ) is None && is_builtin(strip_builtin_prefix(nm))) ==> {
                &&& (r is Ok <==> builtin_accepts(
                    spec_canonical(strip_builtin_prefix(nm)),
                    spec_locals(step@),
                    pairs_view(globals@),
                    old(ctx).grids@,
                ))
                &&& (r is Ok ==> builtin_result_pinned(
                    r->Ok_0,
                    spec_canonical(strip_builtin_prefix(nm)),
                    spec_locals(step@),
                    pairs_view(globals@),
                ))
            }
        }),
        (recursions <= 100 && step_resolves_simply(
            step@,
            pairs_view(globals@),
            old(ctx).macros@,
            old(ctx).user_ops@,
            old(ctx).grids@,
        )) ==> r is Ok,
        (recursions < 100 && step_resolves_via_simple_macro(
            step@,
            pairs_view(globals@),
            old(ctx).macros@,
            old(ctx).user_ops@,
            old(ctx).grids@,
        )) ==> r is Ok,
        r is Ok ==> step_resolution_pinned(
            step@,
            pairs_view(globals@),
            old(ctx).macros@,
            old(ctx).user_ops@,
            old(ctx).grids@,
            r->Ok_0,
        ),
        r is Ok ==> step_may_resolve(
            step@,
            pairs_view(globals@),
            old(ctx).macros@,
            old(ctx).user_ops@,
        ),
    decreases 101 - recursions as int, 0int,
{
    if recursions > 100 {
        ctx.error("Unknown", "Operator definition too deeply nested");
        return Err(GeodesyError::Recursion(String::from_str("(unknown)")));
    }
    let args = GysArgs::new(globals, step);
    let name = match args.value("name") {
        Some(v) => v,
        None => String::new(),
    };

    // A registered macro shadows everything else: substitute the call's
    // arguments into the body and compile it one level deeper, the call's
    // bindings in scope.
    if let Some(mac) = ctx.locate_macro(name.as_str()) {
        let expanded = expand_gys(mac.as_str(), &args);
        let ghost exp = macro_expansion(mac@, step@);
        let ghost mg = macro_scope(step@, pairs_view(globals@));
        assert(expanded@ == exp);
        let mut merged = clone_pairs(globals);
        let mut i: usize = 0;
        while i < args.locals.len()
            invariant
                0 <= i <= args.locals@.len(),
                pairs_view(merged@) =~= pairs_view(globals@) + pairs_view(
                    args.locals@.take(i as int),
                ),
            decreases args.locals@.len() - i,
        {
            let ghost prevm = pairs_view(merged@);
            merged.push((args.locals[i].0.clone(), args.locals[i].1.clone()));
            proof {
                assert(pairs_view(merged@) =~= prevm.push(
                    (args.locals@[i as int].0@, args.locals@[i as int].1@),
                )) by {
                    assert(merged@ =~= merged@.drop_last().push(merged@.last()));
                }
                assert(pairs_view(args.locals@.take(i + 1)) =~= pairs_view(
                    args.locals@.take(i as int),
                ).push((args.locals@[i as int].0@, args.locals@[i as int].1@)));
            }
            i = i + 1;
        }
        proof {
            assert(args.locals@.take(args.locals@.len() as int) =~= args.locals@);
            assert(pairs_view(merged@) =~= pairs_view(globals@) + spec_locals(step@));
        }
        if contains_char(expanded.as_str(), '{') {
            let mut parsed = match parse_block(expanded.as_str()) {
                Ok(p) => p,
                Err(e) => {
                    proof {
                        if crate::block::block_shape_ok(crate::text::spec_trim(exp))
                            && crate::block::is_primitive_block(crate::text::spec_trim(exp)) {
                            assert(false);
                        }
                    }
                    return Err(e);
                },
            };
            let ghost pg = pairs_view(parsed.globals@);
            let mut all = merged;
            let mut j: usize = 0;
            while j < parsed.globals.len()
                invariant
                    0 <= j <= parsed.globals@.len(),
                    pairs_view(all@) =~= pairs_view(globals@) + spec_locals(step@) + pg.take(
                        j as int,
                    ),
                decreases parsed.globals@.len() - j,
            {
                let ghost preva = pairs_view(all@);
                all.push((parsed.globals[j].0.clone(), parsed.globals[j].1.clone()));
                proof {
                    assert(pairs_view(all@) =~= preva.push(
                        (parsed.globals@[j as int].0@, parsed.globals@[j as int].1@),
                    )) by {
                        assert(all@ =~= all@.drop_last().push(all@.last()));
                    }
                    assert(pg.take(j + 1) =~= pg.take(j as int).push(pg[j as int]));
                    assert(pg[j as int] == (
                        parsed.globals@[j as int].0@,
                        parsed.globals@[j as int].1@,
                    ));
                }
                j = j + 1;
            }
            proof {
                assert(pg.take(parsed.globals@.len() as int) =~= pg);
            }
            let res = GysResource { id: parsed.id, globals: all, steps: parsed.steps };
            let r = crate::pipeline::Pipeline::new(&res, ctx, recursions + 1);
            proof {
                let tv = crate::text::spec_trim(exp);
                if crate::block::block_shape_ok(tv) && crate::block::is_primitive_block(tv) {
                    assert(pg =~= Seq::<(Seq<char>, Seq<char>)>::empty());
                    assert(pairs_view(res.globals@) =~= pairs_view(globals@) + spec_locals(
                        step@,
                    ));
                    assert(res.steps@.len() == 1);
                    assert(res.steps@.map_values(|x: String| x@)[0] == res.steps@[0]@);
                    assert(res.steps@[0]@ == crate::block::rendered_primitive(tv));
                    assert(crate::pipeline::spec_redact(pairs_view(res.globals@)) == mg);
                    if r is Ok {
                        assert(step_resolution_pinned_flat(
                            crate::block::rendered_primitive(tv),
                            mg,
                            old(ctx).macros@,
                            old(ctx).user_ops@,
                            old(ctx).grids@,
                            r->Ok_0,
                        ));
                    }
                }
            }
            return r;
        }
        let res = GysResource::new(expanded.as_str(), &merged);
        let ghost ss = crate::gys::spec_steps(exp);
        let r = crate::pipeline::Pipeline::new(&res, ctx, recursions + 1);
        proof {
            assert(crate::pipeline::spec_redact(pairs_view(res.globals@)) == mg);
            assert(forall|k: int|
                0 <= k < res.steps@.len() ==> (#[trigger] res.steps@[k])@ == ss[k]);
            assert(ss.len() == res.steps@.len());
            if r is Ok && ss.len() == 1 {
                assert(step_resolution_pinned_flat(
                    ss[0],
                    mg,
                    old(ctx).macros@,
                    old(ctx).user_ops@,
                    old(ctx).grids@,
                    r->Ok_0,
                ));
            }
        }
        return r;
    }

    // A user-registered operator.
    if ctx.is_user_operator(name.as_str()) {
        let inverted = args.flag("inv");
        return Ok(
            Operator {
                name,
                kind: OpKind::User,
                params: clone_pairs(&args.locals),
                globals: clone_pairs(&args.globals),
                steps: Vec::new(),
                inverted,
            },
        );
    }

    // A built-in, or nothing.
    let canonical = match builtins(name.as_str()) {
        Ok(c) => c,
        Err(e) => {
            return Err(e);
        },
    };
    proof {
        assert(pairs_view(args.locals@) =~= spec_locals(step@));
        assert(pairs_view(args.globals@) =~= pairs_view(globals@));
        assert(name@ == step_name(step@, pairs_view(globals@)));
        assert(canonical@ == spec_canonical(strip_builtin_prefix(name@)));
    }
    if crate::text::str_eq(canonical, "merc") {
        proof {
            reveal_strlit("merc");
            reveal_strlit("noop");
            assert(("merc"@)[0] == 'm');
            assert(("noop"@)[0] == 'n');
            assert("merc"@ != "noop"@);
        }
        return crate::merc::Merc::new(&args);
    }
    if crate::text::str_eq(canonical, "utm") {
        proof {
            reveal_strlit("utm");
            reveal_strlit("noop");
            assert(("utm"@).len() != ("noop"@).len());
            assert("utm"@ != "noop"@);
        }
        return crate::tmerc::Tmerc::utm(&args);
    }
    if crate::text::str_eq(canonical, "gridshift") {
        proof {
            reveal_strlit("gridshift");
            reveal_strlit("noop");
            assert(("gridshift"@).len() != ("noop"@).len());
            assert("gridshift"@ != "noop"@);
        }
        return crate::gridshift::new(&args, ctx);
    }
    if crate::text::str_eq(canonical, "noop") {
        return Ok(new_noop(&args));
    }
    if crate::text::str_eq(canonical, "tmerc") {
        return crate::tmerc::Tmerc::new(&args);
    }
    new_builtin(canonical, &args)
}

/// Construct the identity operator. It validates nothing: whatever it is
/// handed, it does nothing with it.
pub fn new_noop(args: &GysArgs) -> (r: Operator)
    ensures
        r.kind == OpKind::Noop,
        r.name@ == "noop"@,
        pairs_view(r.params@) =~= pairs_view(args.locals@),
        r.steps@.len() == 0,
        r.inverted == (spec_value(
            pairs_view(args.locals@),
            pairs_view(args.globals@),
            "inv"@,
        ) == Some("true"@)),
        op_wf(r),
{
    Operator {
        name: String::from_str("noop"),
        kind: OpKind::Noop,
        params: clone_pairs(&args.locals),
        globals: clone_pairs(&args.globals),
        steps: Vec::new(),
        inverted: args.flag("inv"),
    }
}

} // verus!
