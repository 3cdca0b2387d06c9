//! Pipelines: sequential composition of operators, and the execution
//! trace model that pins down what running an operator means.
//!
//! A trace is the sequence of primitive activations an operator performs:
//! each entry is a primitive (its inversion flag stripped) paired with the
//! direction its kernel runs. A pipeline's forward role runs its children
//! in order; its inverse role runs them in reverse order, each in its
//! inverse role. Inverting an operator exchanges the roles. Identity
//! steps are skipped, so they contribute nothing to a trace.

use vstd::prelude::*;

use crate::error::GeodesyError;
use crate::factory::operator_factory;
use crate::factory::step_may_resolve;
use crate::factory::step_resolution_pinned;
use crate::factory::step_resolves_simply;
use crate::factory::step_resolves_via_simple_macro;
use crate::gys::clone_pairs;
use crate::gys::pairs_view;
use crate::gys::spec_value;
use crate::gys::GysArgs;
use crate::gys::GysResource;
use crate::operator::op_wf;
use crate::operator::Context;
use crate::operator::OpKind;
use crate::operator::Operator;

verus! {

broadcast use vstd::std_specs::vec::group_vec_axioms;

/// The same operator with its inversion flag cleared: the identity of the
/// primitive, independent of the direction it is mounted in.
pub open spec fn strip_flag(op: Operator) -> Operator {
    Operator {
        name: op.name,
        kind: op.kind,
        params: op.params,
        globals: op.globals,
        steps: op.steps,
        inverted: false,
    }
}

/// The same operator mounted the other way round.
pub open spec fn invert(op: Operator) -> Operator {
    Operator {
        name: op.name,
        kind: op.kind,
        params: op.params,
        globals: op.globals,
        steps: op.steps,
        inverted: !op.inverted,
    }
}

/// The primitive activations of running `op` with `forward`: an identity
/// step contributes nothing; another primitive contributes itself with the
/// direction its kernel runs, which is forward exactly when the flag and
/// the call disagree; a pipeline runs its children in order when its
/// effective role is forward, in reverse order and inverse role otherwise.
pub open spec fn trace(op: Operator, forward: bool) -> Seq<(Operator, bool)>
    decreases op, 0int,
{
    if op.steps@.len() == 0 {
        if op.kind == OpKind::Noop {
            Seq::empty()
        } else {
            seq![(strip_flag(op), op.inverted != forward)]
        }
    } else {
        if op.inverted != forward {
            traces(op.steps@, true)
        } else {
            traces_rev(op.steps@, false)
        }
    }
}

/// The concatenated traces of a list of children, in order.
pub open spec fn traces(steps: Seq<Operator>, forward: bool) -> Seq<(Operator, bool)>
    decreases steps, 1int,
{
    if steps.len() == 0 {
        Seq::empty()
    } else {
        traces(steps.drop_last(), forward) + trace(steps.last(), forward)
    }
}

/// The concatenated traces of a list of children, in reverse order.
pub open spec fn traces_rev(steps: Seq<Operator>, forward: bool) -> Seq<(Operator, bool)>
    decreases steps, 1int,
{
    if steps.len() == 0 {
        Seq::empty()
    } else {
        trace(steps.last(), forward) + traces_rev(steps.drop_last(), forward)
    }
}

/// Inverting an operator exchanges its two roles: its trace under one
/// call direction is its original trace under the other.
pub proof fn lemma_trace_invert(op: Operator, forward: bool)
    ensures
        trace(invert(op), forward) == trace(op, !forward),
{
    assert(strip_flag(invert(op)) == strip_flag(op));
}

/// Child-wise inversion, in-order traces.
proof fn lemma_traces_invert(steps: Seq<Operator>, forward: bool)
    ensures
        traces(steps.map_values(|s: Operator| invert(s)), forward) == traces(steps, !forward),
    decreases steps.len(),
{
    let mapped = steps.map_values(|s: Operator| invert(s));
    if steps.len() == 0 {
        assert(mapped =~= Seq::<Operator>::empty());
    } else {
        assert(mapped.drop_last() =~= steps.drop_last().map_values(|s: Operator| invert(s)));
        assert(mapped.last() == invert(steps.last()));
        lemma_traces_invert(steps.drop_last(), forward);
        lemma_trace_invert(steps.last(), forward);
    }
}

/// Child-wise inversion, reversed traces.
proof fn lemma_traces_rev_invert(steps: Seq<Operator>, forward: bool)
    ensures
        traces_rev(steps.map_values(|s: Operator| invert(s)), forward) == traces_rev(
            steps,
            !forward,
        ),
    decreases steps.len(),
{
    let mapped = steps.map_values(|s: Operator| invert(s));
    if steps.len() == 0 {
        assert(mapped =~= Seq::<Operator>::empty());
    } else {
        assert(mapped.drop_last() =~= steps.drop_last().map_values(|s: Operator| invert(s)));
        assert(mapped.last() == invert(steps.last()));
        lemma_traces_rev_invert(steps.drop_last(), forward);
        lemma_trace_invert(steps.last(), forward);
    }
}

/// Prepending one child to an in-order trace.
proof fn lemma_traces_cons(x: Operator, steps: Seq<Operator>, forward: bool)
    ensures
        traces(seq![x] + steps, forward) == trace(x, forward) + traces(steps, forward),
    decreases steps.len(),
{
    let whole = seq![x] + steps;
    if steps.len() == 0 {
        assert(whole.drop_last() =~= Seq::<Operator>::empty());
        assert(whole.last() == x);
        assert(traces(Seq::<Operator>::empty(), forward) == Seq::<(Operator, bool)>::empty());
        assert(traces(whole, forward) == traces(whole.drop_last(), forward) + trace(
            whole.last(),
            forward,
        ));
        assert(traces(whole, forward) =~= trace(x, forward) + traces(steps, forward));
    } else {
        assert(whole.drop_last() =~= seq![x] + steps.drop_last());
        assert(whole.last() == steps.last());
        lemma_traces_cons(x, steps.drop_last(), forward);
        assert((trace(x, forward) + traces(steps.drop_last(), forward)) + trace(
            steps.last(),
            forward,
        ) =~= trace(x, forward) + (traces(steps.drop_last(), forward) + trace(
            steps.last(),
            forward,
        )));
    }
}

/// Appending one child at the front of the list appends its trace at the
/// back of the reversed trace.
proof fn lemma_traces_rev_snoc(x: Operator, steps: Seq<Operator>, forward: bool)
    ensures
        traces_rev(seq![x] + steps, forward) == traces_rev(steps, forward) + trace(x, forward),
    decreases steps.len(),
{
    let whole = seq![x] + steps;
    if steps.len() == 0 {
        assert(whole.drop_last() =~= Seq::<Operator>::empty());
        assert(whole.last() == x);
        assert(traces_rev(Seq::<Operator>::empty(), forward) == Seq::<(Operator, bool)>::empty());
        assert(traces_rev(whole, forward) == trace(whole.last(), forward) + traces_rev(
            whole.drop_last(),
            forward,
        ));
        assert(traces_rev(whole, forward) =~= traces_rev(steps, forward) + trace(x, forward));
    } else {
        assert(whole.drop_last() =~= seq![x] + steps.drop_last());
        assert(whole.last() == steps.last());
        lemma_traces_rev_snoc(x, steps.drop_last(), forward);
        assert(trace(steps.last(), forward) + (traces_rev(steps.drop_last(), forward) + trace(
            x,
            forward,
        )) =~= (trace(steps.last(), forward) + traces_rev(steps.drop_last(), forward)) + trace(
            x,
            forward,
        ));
    }
}

/// A reversed trace is the in-order trace of the reversed list.
proof fn lemma_traces_rev_is_reverse(steps: Seq<Operator>, forward: bool)
    ensures
        traces_rev(steps, forward) == traces(steps.reverse(), forward),
    decreases steps.len(),
{
    if steps.len() == 0 {
        assert(steps.reverse() =~= Seq::<Operator>::empty());
    } else {
        assert(steps.reverse() =~= seq![steps.last()] + steps.drop_last().reverse());
        lemma_traces_rev_is_reverse(steps.drop_last(), forward);
        lemma_traces_cons(steps.last(), steps.drop_last().reverse(), forward);
    }
}

/// Pipeline inversion commutes with step inversion: an inverted pipeline
/// of children `steps` performs, call for call, what an uninverted
/// pipeline of the individually inverted children in reverse order
/// performs. `‖inv(pipe(A, B, C))‖ ≡ ‖pipe(inv(C), inv(B), inv(A))‖`
/// point-wise, since equal activation sequences act equally on any point.
pub proof fn lemma_pipeline_inversion(p1: Operator, p2: Operator, forward: bool)
    requires
        p1.steps@.len() > 0,
        p1.inverted == true,
        p2.inverted == false,
        p2.steps@ == p1.steps@.map_values(|s: Operator| invert(s)).reverse(),
    ensures
        trace(p1, forward) == trace(p2, forward),
{
    let s = p1.steps@;
    let mapped = s.map_values(|s2: Operator| invert(s2));
    assert(p2.steps@.len() == s.len());
    if forward {
        // p1 runs its children reversed, inverse role; p2 runs the
        // reversed inverted children in order, forward role.
        assert(trace(p1, true) == traces_rev(s, false));
        assert(trace(p2, true) == traces(mapped.reverse(), true));
        lemma_traces_rev_is_reverse(mapped, true);
        assert(traces(mapped.reverse(), true) == traces_rev(mapped, true));
        lemma_traces_rev_invert(s, true);
    } else {
        assert(trace(p1, false) == traces(s, true));
        assert(trace(p2, false) == traces_rev(mapped.reverse(), false));
        lemma_traces_rev_is_reverse(mapped.reverse(), false);
        assert(mapped.reverse().reverse() =~= mapped);
        assert(traces_rev(mapped.reverse(), false) == traces(mapped, false));
        lemma_traces_invert(s, false);
    }
}

/// A trace run backwards, every activation in its opposite direction.
pub open spec fn flipped(t: Seq<(Operator, bool)>) -> Seq<(Operator, bool)> {
    t.map_values(|e: (Operator, bool)| (e.0, !e.1)).reverse()
}

proof fn lemma_flipped_add(a: Seq<(Operator, bool)>, b: Seq<(Operator, bool)>)
    ensures
        flipped(a + b) == flipped(b) + flipped(a),
{
    assert(flipped(a + b) =~= flipped(b) + flipped(a));
}

/// A round trip cancels step by step: the trace of the inverse run is the
/// forward trace backwards, every kernel in its opposite direction. So
/// `inv(fwd(p))` applies, innermost first, each kernel directly followed
/// by the same kernel the other way; how nearly each such pair cancels on
/// numbers is the kernel's own tolerance.
pub proof fn lemma_trace_roundtrip(op: Operator, forward: bool)
    ensures
        trace(op, !forward) == flipped(trace(op, forward)),
    decreases op, 0int,
{
    if op.steps@.len() == 0 {
        assert(trace(op, !forward) =~= flipped(trace(op, forward)));
    } else {
        if op.inverted != forward {
            // Forward role here, inverse role there.
            assert(trace(op, forward) == traces(op.steps@, true));
            assert(trace(op, !forward) == traces_rev(op.steps@, false));
            lemma_traces_flip(op.steps@, true);
        } else {
            assert(trace(op, forward) == traces_rev(op.steps@, false));
            assert(trace(op, !forward) == traces(op.steps@, true));
            lemma_traces_flip(op.steps@, true);
            lemma_flipped_involution(traces(op.steps@, true));
        }
    }
}

/// Reversing and flipping twice is the identity.
proof fn lemma_flipped_involution(t: Seq<(Operator, bool)>)
    ensures
        flipped(flipped(t)) == t,
{
    assert(flipped(flipped(t)) =~= t);
}

/// The reversed inverse-role traces are the flipped in-order forward-role
/// traces.
proof fn lemma_traces_flip(steps: Seq<Operator>, forward: bool)
    ensures
        traces_rev(steps, !forward) == flipped(traces(steps, forward)),
    decreases steps, 1int,
{
    if steps.len() == 0 {
        assert(traces_rev(steps, !forward) =~= flipped(traces(steps, forward)));
    } else {
        lemma_traces_flip(steps.drop_last(), forward);
        lemma_trace_roundtrip(steps.last(), forward);
        lemma_flipped_add(
            traces(steps.drop_last(), forward),
            trace(steps.last(), forward),
        );
    }
}

/// One primitive activation, flattened for a caller: the primitive's
/// name, its bindings, the scope they resolve in, and the direction its
/// kernel runs.
#[derive(Debug)]
pub struct Directive {
    pub name: String,
    pub params: Vec<(String, String)>,
    pub globals: Vec<(String, String)>,
    pub forward: bool,
}

impl Directive {
    /// The value a key resolves to under this activation's scope: its
    /// own bindings shadow the globals, and `^` indirection is followed
    /// through the globals, exactly as at compile time.
    pub fn resolve(&self, key: &str) -> (r: Option<String>)
        ensures
            match r {
                Some(v) => spec_value(
                    pairs_view(self.params@),
                    pairs_view(self.globals@),
                    key@,
                ) == Some(v@),
                None => spec_value(
                    pairs_view(self.params@),
                    pairs_view(self.globals@),
                    key@,
                ) is None,
            },
    {
        crate::gys::resolve_value(&self.params, &self.globals, key)
    }
}

/// The caller-facing view of a trace.
pub open spec fn trace_view(t: Seq<(Operator, bool)>) -> Seq<
    (Seq<char>, Seq<(Seq<char>, Seq<char>)>, Seq<(Seq<char>, Seq<char>)>, bool),
> {
    t.map_values(
        |e: (Operator, bool)|
            (e.0.name@, pairs_view(e.0.params@), pairs_view(e.0.globals@), e.1),
    )
}

/// The view of a directive list.
pub open spec fn directives_view(d: Seq<Directive>) -> Seq<
    (Seq<char>, Seq<(Seq<char>, Seq<char>)>, Seq<(Seq<char>, Seq<char>)>, bool),
> {
    d.map_values(
        |e: Directive| (e.name@, pairs_view(e.params@), pairs_view(e.globals@), e.forward),
    )
}

impl Operator {
    /// The flat list of primitive activations that running this operator
    /// in the given direction performs, in order.
    pub fn schedule(&self, forward: bool) -> (r: Vec<Directive>)
        ensures
            directives_view(r@) =~= trace_view(trace(*self, forward)),
    {
        let mut out: Vec<Directive> = Vec::new();
        self.collect(forward, &mut out);
        proof {
            assert(directives_view(Seq::<Directive>::empty()) =~= Seq::<
                (Seq<char>, Seq<(Seq<char>, Seq<char>)>, Seq<(Seq<char>, Seq<char>)>, bool),
            >::empty());
        }
        out
    }

    /// Append this operator's activations to `out`.
    fn collect(&self, forward: bool, out: &mut Vec<Directive>)
        ensures
            directives_view(final(out)@) =~= directives_view(old(out)@) + trace_view(
                trace(*self, forward),
            ),
        decreases *self, 0int,
    {
        if self.steps.len() == 0 {
            if self.kind == OpKind::Noop {
                assert(trace_view(trace(*self, forward)) =~= Seq::<
                    (Seq<char>, Seq<(Seq<char>, Seq<char>)>, Seq<(Seq<char>, Seq<char>)>, bool),
                >::empty());
                return;
            }
            let d = Directive {
                name: self.name.clone(),
                params: clone_pairs(&self.params),
                globals: clone_pairs(&self.globals),
                forward: self.inverted != forward,
            };
            let ghost prev = out@;
            out.push(d);
            assert(directives_view(out@) =~= directives_view(prev).push(
                (
                    self.name@,
                    pairs_view(self.params@),
                    pairs_view(self.globals@),
                    self.inverted != forward,
                ),
            )) by {
                assert(out@ =~= prev.push(out@.last()));
            }
            assert(trace_view(trace(*self, forward)) =~= seq![
                (
                    self.name@,
                    pairs_view(self.params@),
                    pairs_view(self.globals@),
                    self.inverted != forward,
                ),
            ]);
            return;
        }
        let n = self.steps.len();
        if self.is_inverted() != forward {
            let mut i: usize = 0;
            assert(self.steps@.take(0) =~= Seq::<Operator>::empty());
            while i < n
                invariant
                    n == self.steps@.len(),
                    n > 0,
                    0 <= i <= n,
                    directives_view(out@) =~= directives_view(old(out)@) + trace_view(
                        traces(self.steps@.take(i as int), true),
                    ),
                decreases n - i,
            {
                let ghost mid = out@;
                self.steps[i].collect(true, out);
                proof {
                    assert(self.steps@.take(i + 1).drop_last() =~= self.steps@.take(i as int));
                    assert(self.steps@.take(i + 1).last() == self.steps@[i as int]);
                    assert(trace_view(
                        traces(self.steps@.take(i as int), true) + trace(
                            self.steps@[i as int],
                            true,
                        ),
                    ) =~= trace_view(traces(self.steps@.take(i as int), true)) + trace_view(
                        trace(self.steps@[i as int], true),
                    ));
                }
                i = i + 1;
            }
            proof {
                assert(self.steps@.take(n as int) =~= self.steps@);
                assert(trace(*self, forward) == traces(self.steps@, true));
            }
        } else {
            let mut i: usize = n;
            assert(self.steps@.skip(n as int) =~= Seq::<Operator>::empty());
            while i > 0
                invariant
                    n == self.steps@.len(),
                    n > 0,
                    0 <= i <= n,
                    directives_view(out@) =~= directives_view(old(out)@) + trace_view(
                        traces_rev(self.steps@.skip(i as int), false),
                    ),
                decreases i,
            {
                self.steps[i - 1].collect(false, out);
                proof {
                    assert(self.steps@.skip(i - 1) =~= seq![self.steps@[i - 1]] + self.steps@.skip(
                        i as int,
                    ));
                    lemma_traces_rev_snoc(self.steps@[i - 1], self.steps@.skip(i as int), false);
                    assert(trace_view(
                        traces_rev(self.steps@.skip(i as int), false) + trace(
                            self.steps@[i - 1],
                            false,
                        ),
                    ) =~= trace_view(traces_rev(self.steps@.skip(i as int), false)) + trace_view(
                        trace(self.steps@[i - 1], false),
                    ));
                }
                i = i - 1;
            }
            proof {
                assert(self.steps@.skip(0) =~= self.steps@);
                assert(trace(*self, forward) == traces_rev(self.steps@, false));
            }
        }
    }
}

/// One step of running a batch through a schedule: a kernel that could
/// not proceed aborts the whole run; one that went through carries the
/// smallest per-step success count forward, so the run reports how many
/// points every step transformed.
pub fn fold_successes(so_far: usize, step_result: Option<usize>) -> (r: Option<usize>)
    ensures
        match step_result {
            None => r is None,
            Some(n) => r == Some(
                if n < so_far {
                    n
                } else {
                    so_far
                },
            ),
        },
{
    match step_result {
        None => None,
        Some(n) => Some(
            if n < so_far {
                n
            } else {
                so_far
            },
        ),
    }
}

/// A pipeline under construction: its clear-text description, its child
/// operators, and whether the whole pipeline is inverted.
#[derive(Debug)]
pub struct Pipeline {
    pub args: Vec<(String, String)>,
    pub steps: Vec<Operator>,
    pub inverted: bool,
}

/// Whether a resource's globals set the pipeline-level inversion flag.
pub open spec fn resource_inverted(globals: Seq<(Seq<char>, Seq<char>)>) -> bool {
    spec_value(Seq::empty(), globals, "inv"@) == Some("true"@)
}

/// The globals a pipeline hands its steps: its own bookkeeping — the
/// "inv" and "name" bindings — removed.
pub open spec fn spec_redact(globals: Seq<(Seq<char>, Seq<char>)>) -> Seq<(Seq<char>, Seq<char>)> {
    globals.filter(|p: (Seq<char>, Seq<char>)| p.0 != "inv"@ && p.0 != "name"@)
}

impl Pipeline {
    /// Compile a resource: each step resolved by the factory against the
    /// redacted globals; a single step stands alone, several compose.
    #[verifier::loop_isolation(false)]
    pub fn new(args: &GysResource, ctx: &mut Context, recursion_level: usize) -> (r: Result<
        Operator,
        GeodesyError,
    >)
        ensures
            recursion_level > 100 ==> {
                &&& r is Err
                &&& r->Err_0 is Recursion
                &&& final(ctx).messages@.len() == old(ctx).messages@.len() + 1
                &&& final(ctx).messages@.last()@ == "Unknown"@ + ": "@
                    + "Operator definition too deeply nested"@
            },
            r is Ok ==> op_wf(r->Ok_0),
            final(ctx).macros@ == old(ctx).macros@,
            final(ctx).user_ops@ == old(ctx).user_ops@,
            final(ctx).grids@ == old(ctx).grids@,
            (r is Ok && args.steps@.len() > 1) ==> {
                let op = r->Ok_0;
                &&& op.kind == OpKind::Pipeline
                &&& op.steps@.len() == args.steps@.len()
                &&& op.name@ == "pipeline"@
                &&& op.inverted == resource_inverted(pairs_view(args.globals@))
                &&& forall|i: int|
                    0 <= i < args.steps@.len() ==> step_resolution_pinned(
                        args.steps@[i]@,
                        spec_redact(pairs_view(args.globals@)),
                        old(ctx).macros@,
                        old(ctx).user_ops@,
                        old(ctx).grids@,
                        #[trigger] op.steps@[i],
                    )
            },
            (r is Ok && args.steps@.len() == 1) ==> step_resolution_pinned(
                args.steps@[0]@,
                spec_redact(pairs_view(args.globals@)),
                old(ctx).macros@,
                old(ctx).user_ops@,
                old(ctx).grids@,
                r->Ok_0,
            ),
            r is Ok ==> forall|i: int|
                0 <= i < args.steps@.len() ==> step_may_resolve(
                    #[trigger] args.steps@[i]@,
                    spec_redact(pairs_view(args.globals@)),
                    old(ctx).macros@,
                    old(ctx).user_ops@,
                ),
            (recursion_level <= 100 && args.steps@.len() >= 1 && forall|i: int|
                0 <= i < args.steps@.len() ==> step_resolves_simply(
                    #[trigger] args.steps@[i]@,
                    spec_redact(pairs_view(args.globals@)),
                    old(ctx).macros@,
                    old(ctx).user_ops@,
                    old(ctx).grids@,
                )) ==> r is Ok,
            (recursion_level < 100 && args.steps@.len() >= 1 && forall|i: int|
                0 <= i < args.steps@.len() ==> (step_resolves_simply(
                    #[trigger] args.steps@[i]@,
                    spec_redact(pairs_view(args.globals@)),
                    old(ctx).macros@,
                    old(ctx).user_ops@,
                    old(ctx).grids@,
                ) || step_resolves_via_simple_macro(
                    args.steps@[i]@,
                    spec_redact(pairs_view(args.globals@)),
                    old(ctx).macros@,
                    old(ctx).user_ops@,
                    old(ctx).grids@,
                ))) ==> r is Ok,
        decreases 101 - recursion_level as int, 1int,
    {
        if recursion_level > 100 {
            ctx.error("Unknown", "Operator definition too deeply nested");
            return Err(GeodesyError::Recursion(args.id.clone()));
        }
        let ga = GysArgs::new(&args.globals, "");
        let inverted = ga.flag("inv");
        proof {
            assert(crate::gys::spec_tokens(""@) =~= Seq::<Seq<char>>::empty()) by {
                reveal_strlit("");
            }
            assert(crate::gys::spec_locals(""@) =~= Seq::<(Seq<char>, Seq<char>)>::empty());
        }

        // Redact the pipeline's own bookkeeping from what the steps see.
        proof {
            reveal(Seq::filter);
            assert(pairs_view(args.globals@).take(0) =~= Seq::<(Seq<char>, Seq<char>)>::empty());
        }
        let mut nextglobals: Vec<(String, String)> = Vec::new();
        let mut gi: usize = 0;
        while gi < args.globals.len()
            invariant
                0 <= gi <= args.globals@.len(),
                pairs_view(nextglobals@) =~= spec_redact(
                    pairs_view(args.globals@).take(gi as int),
                ),
            decreases args.globals@.len() - gi,
        {
            let p = &args.globals[gi];
            let ghost gv = pairs_view(args.globals@);
            proof {
                reveal(Seq::filter);
                assert(gv.take(gi + 1).drop_last() =~= gv.take(gi as int));
                assert(gv.take(gi + 1).last() == gv[gi as int]);
            }
            if !crate::text::str_eq(p.0.as_str(), "inv") && !crate::text::str_eq(
                p.0.as_str(),
                "name",
            ) {
                let ghost prev = nextglobals@;
                nextglobals.push((p.0.clone(), p.1.clone()));
                proof {
                    assert(nextglobals@ =~= prev.push(nextglobals@.last()));
                }
            }
            gi = gi + 1;
        }
        proof {
            assert(pairs_view(args.globals@).take(args.globals@.len() as int) =~= pairs_view(
                args.globals@,
            ));
            assert(pairs_view(nextglobals@) =~= spec_redact(pairs_view(args.globals@)));
        }

        let n = args.steps.len();
        let ghost red = spec_redact(pairs_view(args.globals@));

        // A single step stands alone: the compiled child is the operator.
        if n == 1 {
            let step = &args.steps[0];
            proof {
                assert(step@ == args.steps@[0]@);
            }
            match operator_factory(step.as_str(), &nextglobals, ctx, recursion_level) {
                Ok(op) => {
                    assert(forall|j: int|
                        0 <= j < args.steps@.len() ==> step_may_resolve(
                            #[trigger] args.steps@[j]@,
                            red,
                            old(ctx).macros@,
                            old(ctx).user_ops@,
                        ));
                    return Ok(op);
                },
                Err(e) => {
                    assert(!step_resolves_simply(
                        args.steps@[0]@,
                        red,
                        old(ctx).macros@,
                        old(ctx).user_ops@,
                        old(ctx).grids@,
                    ));
                    return Err(e);
                },
            }
        }

        let mut steps: Vec<Operator> = Vec::new();
        let mut i: usize = 0;
        while i < n
            invariant
                0 <= i <= n,
                steps@.len() == i,
                forall|j: int| 0 <= j < i ==> op_wf(#[trigger] steps@[j]),
                forall|j: int|
                    0 <= j < i ==> step_resolution_pinned(
                        args.steps@[j]@,
                        red,
                        old(ctx).macros@,
                        old(ctx).user_ops@,
                        old(ctx).grids@,
                        #[trigger] steps@[j],
                    ),
                forall|j: int|
                    0 <= j < i ==> step_may_resolve(
                        #[trigger] args.steps@[j]@,
                        red,
                        old(ctx).macros@,
                        old(ctx).user_ops@,
                    ),
                ctx.macros@ == old(ctx).macros@,
                ctx.user_ops@ == old(ctx).user_ops@,
                ctx.grids@ == old(ctx).grids@,
            decreases n - i,
        {
            let step = &args.steps[i];
            proof {
                assert(step@ == args.steps@[i as int]@);
            }
            let next = match operator_factory(step.as_str(), &nextglobals, ctx, recursion_level)
                {
                Ok(op) => op,
                Err(e) => {
                    // A step that resolves without expansion cannot have
                    // failed, so the success clause holds vacuously.
                    assert(!step_resolves_simply(
                        args.steps@[i as int]@,
                        red,
                        old(ctx).macros@,
                        old(ctx).user_ops@,
                        old(ctx).grids@,
                    ));
                    return Err(e);
                },
            };
            steps.push(next);
            i = i + 1;
        }

        // A pipeline's clear-text description: its steps, one by one.
        let mut desc: Vec<(String, String)> = Vec::new();
        let mut di: usize = 0;
        while di < args.steps.len()
            invariant
                0 <= di <= args.steps@.len(),
            decreases args.steps@.len() - di,
        {
            desc.push((String::from_str("step"), args.steps[di].clone()));
            di = di + 1;
        }

        let p = Pipeline { args: desc, steps, inverted };
        let op = Operator {
            name: String::from_str("pipeline"),
            kind: OpKind::Pipeline,
            params: p.args,
            globals: nextglobals,
            steps: p.steps,
            inverted: p.inverted,
        };
        if n == 0 {
            // An empty resource has nothing to run.
            return Err(GeodesyError::NotFound(String::new()));
        }
        assert(op.steps@.len() == n);
        Ok(op)
    }
}

} // verus!
