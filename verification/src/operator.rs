//! The compiled operator and its factory.
//!
//! A definition in either surface syntax is resolved against the context —
//! user-registered operators first, then macros, then built-ins — into an
//! immutable operator plan: the head name, its parameters in scope, its
//! child steps for a pipeline, and its inversion flag.

use vstd::prelude::*;

use crate::block::contains_char;
use crate::block::parse_block;
use crate::error::GeodesyError;
use crate::gys::clone_pairs;
use crate::gys::lookup;
use crate::gys::lookup_pairs;
use crate::gys::pairs_view;
use crate::gys::spec_locals;
use crate::gys::spec_value;
use crate::gys::GysArgs;
use crate::gys::GysResource;
use crate::params::OpParameter;
use crate::text::str_eq;

verus! {

/// An upper-case ASCII code folded to lower case; anything else unchanged.
pub open spec fn lower_code(x: int) -> int {
    if 65 <= x <= 90 {
        x + 32
    } else {
        x
    }
}

/// Character-wise equality up to ASCII case.
pub open spec fn nocase_eq(s: Seq<char>, t: Seq<char>) -> bool {
    s.len() == t.len() && forall|j: int|
        0 <= j < s.len() ==> lower_code(#[trigger] s[j] as int) == lower_code(t[j] as int)
}

/// Compare two strings, folding ASCII case.
pub fn str_eq_nocase(a: &str, b: &str) -> (r: bool)
    ensures
        r == nocase_eq(a@, b@),
{
    let na = a.unicode_len();
    let nb = b.unicode_len();
    if na != nb {
        return false;
    }
    let mut i: usize = 0;
    while i < na
        invariant
            na == a@.len(),
            na == b@.len(),
            0 <= i <= na,
            forall|j: int|
                0 <= j < i ==> lower_code(#[trigger] a@[j] as int) == lower_code(b@[j] as int),
        decreases na - i,
    {
        let ca = a.get_char(i);
        let cb = b.get_char(i);
        let xa = ca as u32;
        let xb = cb as u32;
        let la: u32 = if 65 <= xa && xa <= 90 {
            xa + 32
        } else {
            xa
        };
        let lb: u32 = if 65 <= xb && xb <= 90 {
            xb + 32
        } else {
            xb
        };
        if la != lb {
            return false;
        }
        i = i + 1;
    }
    true
}

/// The names that may carry a definition: macros and registered operators.
pub open spec fn names_view(v: Seq<String>) -> Seq<Seq<char>> {
    v.map_values(|s: String| s@)
}

/// The runtime service: registered macros, registered operator names, grid
/// blobs, and an error log.
#[derive(Debug)]
pub struct Context {
    pub macros: Vec<(String, String)>,
    pub user_ops: Vec<String>,
    pub grids: Vec<(String, Vec<u8>)>,
    pub messages: Vec<String>,
}

impl Context {
    /// A context with nothing registered.
    pub fn new() -> (r: Context)
        ensures
            r.macros@.len() == 0,
            r.user_ops@.len() == 0,
            r.grids@.len() == 0,
            r.messages@.len() == 0,
    {
        Context { macros: Vec::new(), user_ops: Vec::new(), grids: Vec::new(), messages: Vec::new() }
    }

    /// Register a macro definition under a name. A later registration of
    /// the same name shadows the earlier one.
    pub fn register_macro(&mut self, name: &str, definition: &str) -> (r: bool)
        ensures
            r == true,
            pairs_view(final(self).macros@) =~= pairs_view(old(self).macros@).push(
                (name@, definition@),
            ),
            final(self).user_ops@ == old(self).user_ops@,
            final(self).grids@ == old(self).grids@,
            final(self).messages@ == old(self).messages@,
    {
        let ghost prev = self.macros@;
        self.macros.push((String::from_str(name), String::from_str(definition)));
        proof {
            assert(self.macros@ =~= prev.push(self.macros@.last()));
        }
        true
    }

    /// Register an operator name whose construction and behaviour the
    /// caller provides.
    pub fn register_operator(&mut self, name: &str) -> (r: bool)
        ensures
            r == true,
            names_view(final(self).user_ops@) =~= names_view(old(self).user_ops@).push(name@),
            final(self).macros@ == old(self).macros@,
            final(self).grids@ == old(self).grids@,
            final(self).messages@ == old(self).messages@,
    {
        let ghost prev = self.user_ops@;
        self.user_ops.push(String::from_str(name));
        proof {
            assert(self.user_ops@ =~= prev.push(self.user_ops@.last()));
        }
        true
    }

    /// Register a grid blob under a name.
    pub fn register_grid(&mut self, name: &str, blob: Vec<u8>)
        ensures
            final(self).grids@.len() == old(self).grids@.len() + 1,
            final(self).grids@.last().0@ == name@,
            final(self).grids@.last().1@ == blob@,
            final(self).macros@ == old(self).macros@,
            final(self).user_ops@ == old(self).user_ops@,
            final(self).messages@ == old(self).messages@,
    {
        self.grids.push((String::from_str(name), blob));
    }

    /// The macro body registered under `name`, if any; the last
    /// registration wins.
    pub fn locate_macro(&self, name: &str) -> (r: Option<String>)
        ensures
            match r {
                Some(v) => lookup(pairs_view(self.macros@), name@) == Some(v@),
                None => lookup(pairs_view(self.macros@), name@) is None,
            },
    {
        lookup_pairs(&self.macros, name)
    }

    /// Whether `name` was registered as a user-defined operator.
    pub fn is_user_operator(&self, name: &str) -> (r: bool)
        ensures
            r == names_view(self.user_ops@).contains(name@),
    {
        let mut i: usize = 0;
        while i < self.user_ops.len()
            invariant
                0 <= i <= self.user_ops@.len(),
                forall|j: int| 0 <= j < i ==> names_view(self.user_ops@)[j] != name@,
            decreases self.user_ops@.len() - i,
        {
            if str_eq(self.user_ops[i].as_str(), name) {
                assert(names_view(self.user_ops@)[i as int] == name@);
                return true;
            }
            i = i + 1;
        }
        false
    }

    /// Whether a grid blob is registered under `name`.
    pub fn has_grid(&self, name: &str) -> (r: bool)
        ensures
            r == exists|j: int|
                0 <= j < self.grids@.len() && (#[trigger] self.grids@[j]).0@ == name@,
    {
        let mut i: usize = 0;
        while i < self.grids.len()
            invariant
                0 <= i <= self.grids@.len(),
                forall|j: int| 0 <= j < i ==> (#[trigger] self.grids@[j]).0@ != name@,
            decreases self.grids@.len() - i,
        {
            if str_eq(self.grids[i].0.as_str(), name) {
                assert((self.grids@[i as int]).0@ == name@);
                return true;
            }
            i = i + 1;
        }
        false
    }

    /// The grid blob registered under `name`, if any; the last
    /// registration wins.
    pub fn get_grid(&self, name: &str) -> (r: Option<&Vec<u8>>)
        ensures
            match r {
                Some(b) => exists|j: int|
                    0 <= j < self.grids@.len() && (#[trigger] self.grids@[j]).0@ == name@
                        && self.grids@[j].1@ == b@,
                None => forall|j: int|
                    0 <= j < self.grids@.len() ==> (#[trigger] self.grids@[j]).0@ != name@,
            },
    {
        let n = self.grids.len();
        let mut i: usize = n;
        while i > 0
            invariant
                0 <= i <= n,
                n == self.grids@.len(),
                forall|j: int| i <= j < n ==> (#[trigger] self.grids@[j]).0@ != name@,
            decreases i,
        {
            if str_eq(self.grids[i - 1].0.as_str(), name) {
                assert((self.grids@[i - 1]).0@ == name@);
                return Some(&self.grids[i - 1].1);
            }
            i = i - 1;
        }
        None
    }

    /// Log an error under the name of what raised it.
    pub fn error(&mut self, who: &str, message: &str)
        ensures
            final(self).messages@.len() == old(self).messages@.len() + 1,
            final(self).messages@.last()@ == who@ + ": "@ + message@,
            forall|j: int|
                0 <= j < old(self).messages@.len() ==> final(self).messages@[j]
                    == old(self).messages@[j],
            final(self).macros@ == old(self).macros@,
            final(self).user_ops@ == old(self).user_ops@,
            final(self).grids@ == old(self).grids@,
    {
        let mut line = String::from_str(who);
        line.append(": ");
        line.append(message);
        self.messages.push(line);
    }

    /// Every logged error, one line each.
    pub fn report(&self) -> (r: String)
        ensures
            r@ == joined_lines(self.messages@),
    {
        let mut out = String::new();
        let mut i: usize = 0;
        while i < self.messages.len()
            invariant
                0 <= i <= self.messages@.len(),
                out@ == joined_lines(self.messages@.take(i as int)),
            decreases self.messages@.len() - i,
        {
            out.append(self.messages[i].as_str());
            out.append("\n");
            proof {
                assert(self.messages@.take(i + 1).drop_last() =~= self.messages@.take(i as int));
            }
            i = i + 1;
        }
        proof {
            assert(self.messages@.take(self.messages@.len() as int) =~= self.messages@);
        }
        out
    }

    /// Compile a definition into an operator against this context: see
    /// [`Operator::new`], whose contract this carries unchanged.
    pub fn operation(&mut self, definition: &str) -> (r: Result<Operator, GeodesyError>)
        ensures
            r is Ok ==> op_wf(r->Ok_0),
            final(self).macros@ == old(self).macros@,
            final(self).user_ops@ == old(self).user_ops@,
            final(self).grids@ == old(self).grids@,
            (r is Ok && crate::text::find_char(definition@, '{') < 0) ==> forall|i: int|
                0 <= i < crate::gys::spec_steps(definition@).len()
                    ==> crate::factory::step_may_resolve(
                    #[trigger] crate::gys::spec_steps(definition@)[i],
                    Seq::empty(),
                    old(self).macros@,
                    old(self).user_ops@,
                ),
            (r is Ok && crate::text::find_char(definition@, '{') < 0 && crate::gys::spec_steps(
                definition@,
            ).len() == 1) ==> crate::factory::step_resolution_pinned(
                crate::gys::spec_steps(definition@)[0],
                Seq::empty(),
                old(self).macros@,
                old(self).user_ops@,
                old(self).grids@,
                r->Ok_0,
            ),
            (crate::text::find_char(definition@, '{') < 0 && forall|i: int|
                0 <= i < crate::gys::spec_steps(definition@).len()
                    ==> crate::factory::step_resolves_simply(
                    #[trigger] crate::gys::spec_steps(definition@)[i],
                    Seq::empty(),
                    old(self).macros@,
                    old(self).user_ops@,
                    old(self).grids@,
                )) ==> r is Ok,
            (crate::text::find_char(definition@, '{') < 0 && forall|i: int|
                0 <= i < crate::gys::spec_steps(definition@).len()
                    ==> (crate::factory::step_resolves_simply(
                    #[trigger] crate::gys::spec_steps(definition@)[i],
                    Seq::empty(),
                    old(self).macros@,
                    old(self).user_ops@,
                    old(self).grids@,
                ) || crate::factory::step_resolves_via_simple_macro(
                    crate::gys::spec_steps(definition@)[i],
                    Seq::empty(),
                    old(self).macros@,
                    old(self).user_ops@,
                    old(self).grids@,
                ))) ==> r is Ok,
            (crate::text::find_char(definition@, '{') >= 0 && !crate::block::block_shape_ok(
                crate::text::spec_trim(definition@),
            )) ==> r is Err,
            (r is Ok && crate::text::find_char(definition@, '{') >= 0
                && crate::block::block_shape_ok(crate::text::spec_trim(definition@))
                && crate::block::is_primitive_block(crate::text::spec_trim(definition@)))
                ==> crate::factory::step_resolution_pinned(
                crate::block::rendered_primitive(crate::text::spec_trim(definition@)),
                Seq::empty(),
                old(self).macros@,
                old(self).user_ops@,
                old(self).grids@,
                r->Ok_0,
            ),
            (crate::text::find_char(definition@, '{') >= 0 && crate::block::block_shape_ok(
                crate::text::spec_trim(definition@),
            ) && crate::block::is_primitive_block(crate::text::spec_trim(definition@))
                && crate::factory::step_resolves_simply(
                crate::block::rendered_primitive(crate::text::spec_trim(definition@)),
                Seq::empty(),
                old(self).macros@,
                old(self).user_ops@,
                old(self).grids@,
            )) ==> r is Ok,
    {
        Operator::new(definition, self)
    }
}

/// Each message followed by a newline.
pub open spec fn joined_lines(msgs: Seq<String>) -> Seq<char>
    decreases msgs.len(),
{
    if msgs.len() == 0 {
        Seq::empty()
    } else {
        joined_lines(msgs.drop_last()) + msgs.last()@ + "\n"@
    }
}

/// What dispatches an operator's action.
#[derive(Clone, Copy, Debug, PartialEq, Eq, Structural)]
pub enum OpKind {
    /// The identity operator.
    Noop,
    /// A built-in primitive, named by its canonical name.
    Builtin,
    /// An operator the caller registered and executes.
    User,
    /// A sequential composition of the child steps.
    Pipeline,
}

/// A compiled operator plan: immutable after construction.
#[derive(Debug)]
pub struct Operator {
    /// The resolved head name; "pipeline" for a composition.
    pub name: String,
    /// How the operator's action dispatches.
    pub kind: OpKind,
    /// The step's own bindings, the binding of "name" included.
    pub params: Vec<(String, String)>,
    /// The scope the bindings resolve against.
    pub globals: Vec<(String, String)>,
    /// Child operators; non-empty exactly for a pipeline.
    pub steps: Vec<Operator>,
    /// Whether forward and inverse exchange roles.
    pub inverted: bool,
}

/// A structurally sound plan: children exactly for pipelines, and sound
/// all the way down.
pub open spec fn op_wf(op: Operator) -> bool
    decreases op,
{
    &&& (op.kind == OpKind::Pipeline <==> op.steps@.len() > 0)
    &&& forall|i: int| 0 <= i < op.steps@.len() ==> op_wf(#[trigger] op.steps@[i])
}

impl Operator {
    /// Compile a definition, in either surface syntax, against a context.
    /// A definition that mentions a brace is read as a block; anything
    /// else is read as shorthand. A shorthand definition resolves step by
    /// step: a single step compiles to that step's operator itself, and
    /// several steps compile to a pipeline of exactly those children; a
    /// step whose head resolves nowhere fails the compilation, and a
    /// definition of macro-free resolvable steps is guaranteed to compile.
    pub fn new(definition: &str, ctx: &mut Context) -> (r: Result<Operator, GeodesyError>)
        ensures
            r is Ok ==> op_wf(r->Ok_0),
            final(ctx).macros@ == old(ctx).macros@,
            final(ctx).user_ops@ == old(ctx).user_ops@,
            final(ctx).grids@ == old(ctx).grids@,
            (r is Ok && crate::text::find_char(definition@, '{') < 0) ==> forall|i: int|
                0 <= i < crate::gys::spec_steps(definition@).len()
                    ==> crate::factory::step_may_resolve(
                    #[trigger] crate::gys::spec_steps(definition@)[i],
                    Seq::empty(),
                    old(ctx).macros@,
                    old(ctx).user_ops@,
                ),
            (r is Ok && crate::text::find_char(definition@, '{') < 0 && crate::gys::spec_steps(
                definition@,
            ).len() == 1) ==> crate::factory::step_resolution_pinned(
                crate::gys::spec_steps(definition@)[0],
                Seq::empty(),
                old(ctx).macros@,
                old(ctx).user_ops@,
                old(ctx).grids@,
                r->Ok_0,
            ),
            (r is Ok && crate::text::find_char(definition@, '{') < 0 && crate::gys::spec_steps(
                definition@,
            ).len() > 1) ==> {
                let op = r->Ok_0;
                &&& op.kind == OpKind::Pipeline
                &&& op.steps@.len() == crate::gys::spec_steps(definition@).len()
                &&& op.name@ == "pipeline"@
                &&& op.inverted == false
                &&& forall|i: int|
                    0 <= i < crate::gys::spec_steps(definition@).len()
                        ==> crate::factory::step_resolution_pinned(
                        crate::gys::spec_steps(definition@)[i],
                        Seq::empty(),
                        old(ctx).macros@,
                        old(ctx).user_ops@,
                        old(ctx).grids@,
                        #[trigger] op.steps@[i],
                    )
            },
            (crate::text::find_char(definition@, '{') < 0 && forall|i: int|
                0 <= i < crate::gys::spec_steps(definition@).len()
                    ==> crate::factory::step_resolves_simply(
                    #[trigger] crate::gys::spec_steps(definition@)[i],
                    Seq::empty(),
                    old(ctx).macros@,
                    old(ctx).user_ops@,
                    old(ctx).grids@,
                )) ==> r is Ok,
            (crate::text::find_char(definition@, '{') < 0 && forall|i: int|
                0 <= i < crate::gys::spec_steps(definition@).len()
                    ==> (crate::factory::step_resolves_simply(
                    #[trigger] crate::gys::spec_steps(definition@)[i],
                    Seq::empty(),
                    old(ctx).macros@,
                    old(ctx).user_ops@,
                    old(ctx).grids@,
                ) || crate::factory::step_resolves_via_simple_macro(
                    crate::gys::spec_steps(definition@)[i],
                    Seq::empty(),
                    old(ctx).macros@,
                    old(ctx).user_ops@,
                    old(ctx).grids@,
                ))) ==> r is Ok,
            (crate::text::find_char(definition@, '{') >= 0 && !crate::block::block_shape_ok(
                crate::text::spec_trim(definition@),
            )) ==> r is Err,
            (r is Ok && crate::text::find_char(definition@, '{') >= 0
                && crate::block::block_shape_ok(crate::text::spec_trim(definition@))
                && crate::block::is_primitive_block(crate::text::spec_trim(definition@)))
                ==> crate::factory::step_resolution_pinned(
                crate::block::rendered_primitive(crate::text::spec_trim(definition@)),
                Seq::empty(),
                old(ctx).macros@,
                old(ctx).user_ops@,
                old(ctx).grids@,
                r->Ok_0,
            ),
            (crate::text::find_char(definition@, '{') >= 0 && crate::block::block_shape_ok(
                crate::text::spec_trim(definition@),
            ) && crate::block::is_primitive_block(crate::text::spec_trim(definition@))
                && crate::factory::step_resolves_simply(
                crate::block::rendered_primitive(crate::text::spec_trim(definition@)),
                Seq::empty(),
                old(ctx).macros@,
                old(ctx).user_ops@,
                old(ctx).grids@,
            )) ==> r is Ok,
            (r is Ok && crate::text::find_char(definition@, '{') >= 0
                && crate::block::block_shape_ok(crate::text::spec_trim(definition@))
                && crate::block::single_steps_block(crate::text::spec_trim(definition@))
                && crate::block::steps_of_value(
                crate::block::entry_pair(
                    crate::block::block_entries(crate::text::spec_trim(definition@))[0],
                ).1,
            ).len() > 1) ==> {
                let subs = crate::block::steps_of_value(
                    crate::block::entry_pair(
                        crate::block::block_entries(crate::text::spec_trim(definition@))[0],
                    ).1,
                );
                let op = r->Ok_0;
                &&& op.kind == OpKind::Pipeline
                &&& op.steps@.len() == subs.len()
                &&& op.name@ == "pipeline"@
                &&& op.inverted == false
                &&& forall|i: int|
                    0 <= i < subs.len() ==> crate::factory::step_resolution_pinned(
                        crate::block::rendered_sub(subs[i]),
                        Seq::empty(),
                        old(ctx).macros@,
                        old(ctx).user_ops@,
                        old(ctx).grids@,
                        #[trigger] op.steps@[i],
                    )
            },
    {
        if contains_char(definition, '{') {
            let res = match parse_block(definition) {
                Ok(r) => r,
                Err(e) => {
                    return Err(e);
                },
            };
            let ghost tv = crate::text::spec_trim(definition@);
            let r = crate::pipeline::Pipeline::new(&res, ctx, 0);
            proof {
                if crate::block::block_shape_ok(tv) && crate::block::is_primitive_block(tv) {
                    reveal(Seq::filter);
                    assert(crate::pipeline::spec_redact(pairs_view(res.globals@)) =~= Seq::<
                        (Seq<char>, Seq<char>),
                    >::empty());
                    assert(res.steps@.len() == 1);
                    assert(res.steps@.map_values(|x: String| x@)[0] == res.steps@[0]@);
                    assert(res.steps@[0]@ == crate::block::rendered_primitive(tv));
                }
                if crate::block::block_shape_ok(tv) && crate::block::single_steps_block(tv) {
                    reveal(Seq::filter);
                    let subs = crate::block::steps_of_value(
                        crate::block::entry_pair(crate::block::block_entries(tv)[0]).1,
                    );
                    assert(crate::pipeline::spec_redact(pairs_view(res.globals@)) =~= Seq::<
                        (Seq<char>, Seq<char>),
                    >::empty());
                    assert(res.steps@.len() == subs.len());
                    assert(forall|i: int|
                        0 <= i < subs.len() ==> (#[trigger] res.steps@[i])@
                            == res.steps@.map_values(|x: String| x@)[i]);
                    assert(!crate::pipeline::resource_inverted(pairs_view(res.globals@)));
                }
            }
            return r;
        }
        let res = GysResource::from(definition);
        let ghost ss = crate::gys::spec_steps(definition@);
        let r = crate::pipeline::Pipeline::new(&res, ctx, 0);
        proof {
            reveal(Seq::filter);
            assert(crate::pipeline::spec_redact(pairs_view(res.globals@)) =~= Seq::<
                (Seq<char>, Seq<char>),
            >::empty());
            assert(forall|i: int|
                0 <= i < res.steps@.len() ==> (#[trigger] res.steps@[i])@ == ss[i]);
            assert(ss.len() == res.steps@.len());
        }
        r
    }

    /// The resolved head name.
    pub fn name(&self) -> (r: &str)
        ensures
            r@ == self.name@,
    {
        self.name.as_str()
    }

    /// Number of steps: 0 unless the operator is a pipeline.
    pub fn len(&self) -> (r: usize)
        ensures
            r == self.steps@.len(),
    {
        self.steps.len()
    }

    /// Whether there are no steps.
    pub fn is_empty(&self) -> (r: bool)
        ensures
            r == (self.steps@.len() == 0),
    {
        self.steps.len() == 0
    }

    /// Whether forward and inverse exchange roles.
    pub fn is_inverted(&self) -> (r: bool)
        ensures
            r == self.inverted,
    {
        self.inverted
    }

    /// Whether the operator does nothing.
    pub fn is_noop(&self) -> (r: bool)
        ensures
            r == (self.kind == OpKind::Noop),
    {
        self.kind == OpKind::Noop
    }

    /// Every operator this engine compiles exposes an inverse action.
    pub fn invertible(&self) -> (r: bool)
        ensures
            r == true,
    {
        true
    }

    /// The bindings of one step of a pipeline, or the operator's own
    /// bindings for an out-of-range step or a primitive.
    pub fn args(&self, step: usize) -> (r: &Vec<(String, String)>)
        ensures
            step < self.steps@.len() ==> r == &self.steps@[step as int].params,
            step >= self.steps@.len() ==> r == &self.params,
    {
        if step < self.steps.len() {
            &self.steps[step].params
        } else {
            &self.params
        }
    }
}

/// The operator capability: the engine's own plans describe their action
/// for a caller to run, and a caller may implement this capability to
/// register operators of its own.
pub trait OperatorCore {
    /// Apply the forward action; report whether the batch went through.
    fn fwd(&self, operands: &mut Vec<crate::coord::Coor4D>) -> bool;

    /// Apply the inverse action; report whether the batch went through.
    /// Implementations override at least one of `inv` and `invertible`:
    /// by default there is no inverse action, and a call fails the batch.
    fn inv(&self, operands: &mut Vec<crate::coord::Coor4D>) -> bool {
        let _ = operands;
        false
    }

    /// Whether an inverse action exists.
    fn invertible(&self) -> bool {
        true
    }

    /// Whether the operator does nothing and may be skipped.
    fn is_noop(&self) -> bool {
        false
    }

    /// The operator's name.
    fn name(&self) -> &'static str {
        "UNKNOWN"
    }

    /// Number of steps: 0 unless the operator is a pipeline.
    fn len(&self) -> usize {
        0
    }

    /// Whether there are no steps.
    fn is_empty(&self) -> bool {
        self.len() == 0
    }

    /// Whether forward and inverse exchange roles.
    fn is_inverted(&self) -> bool;

    /// Run forward or inverse, honouring the inversion flag: an inverted
    /// operator runs its inverse action for a forward call, and the other
    /// way round.
    fn operate(&self, operands: &mut Vec<crate::coord::Coor4D>, forward: bool) -> bool {
        if self.is_inverted() != forward {
            self.fwd(operands)
        } else {
            self.inv(operands)
        }
    }
}

/// The canonical names of the built-in operators.
pub open spec fn builtin_names() -> Seq<Seq<char>> {
    seq![
        "adapt"@,
        "cart"@,
        "gridshift"@,
        "helmert"@,
        "lcc"@,
        "merc"@,
        "molodensky"@,
        "dm"@,
        "nmea"@,
        "dms"@,
        "nmeass"@,
        "noop"@,
        "tmerc"@,
        "utm"@,
    ]
}

/// A name names a built-in when it matches one canonically, up to ASCII
/// case.
pub open spec fn is_builtin(n: Seq<char>) -> bool {
    exists|i: int| 0 <= i < builtin_names().len() && nocase_eq(n, #[trigger] builtin_names()[i])
}

/// The canonical spelling a head name resolves to, following the same
/// order the resolver checks in; the empty name when it is no built-in.
pub open spec fn spec_canonical(n: Seq<char>) -> Seq<char> {
    if nocase_eq(n, "adapt"@) {
        "adapt"@
    } else if nocase_eq(n, "cart"@) {
        "cart"@
    } else if nocase_eq(n, "gridshift"@) {
        "gridshift"@
    } else if nocase_eq(n, "helmert"@) {
        "helmert"@
    } else if nocase_eq(n, "lcc"@) {
        "lcc"@
    } else if nocase_eq(n, "merc"@) {
        "merc"@
    } else if nocase_eq(n, "molodensky"@) {
        "molodensky"@
    } else if nocase_eq(n, "dm"@) {
        "dm"@
    } else if nocase_eq(n, "nmea"@) {
        "nmea"@
    } else if nocase_eq(n, "dms"@) {
        "dms"@
    } else if nocase_eq(n, "nmeass"@) {
        "nmeass"@
    } else if nocase_eq(n, "noop"@) {
        "noop"@
    } else if nocase_eq(n, "tmerc"@) {
        "tmerc"@
    } else if nocase_eq(n, "utm"@) {
        "utm"@
    } else {
        Seq::empty()
    }
}

/// A head name may shadow a built-in through a macro of the same name; the
/// prefix "builtin_" reaches the built-in anyway.
pub open spec fn strip_builtin_prefix(n: Seq<char>) -> Seq<char> {
    if n.len() >= 8 && nocase_eq(n.take(8), "builtin_"@) {
        n.skip(8)
    } else {
        n
    }
}

/// Resolve a head name, the "builtin_" escape prefix stripped, to the
/// canonical name of a built-in operator.
pub fn builtins(name: &str) -> (r: Result<&'static str, GeodesyError>)
    ensures
        match r {
            Ok(c) => is_builtin(strip_builtin_prefix(name@)) && nocase_eq(
                strip_builtin_prefix(name@),
                c@,
            ) && c@ == spec_canonical(strip_builtin_prefix(name@)),
            Err(_) => !is_builtin(strip_builtin_prefix(name@)),
        },
{
    let n = name.unicode_len();
    let stripped: &str = if n >= 8 && str_eq_nocase(name.substring_char(0, 8), "builtin_") {
        proof {
            assert(name@.subrange(0, 8) =~= name@.take(8));
            assert(name@.subrange(8, n as int) =~= name@.skip(8));
        }
        name.substring_char(8, n)
    } else {
        proof {
            assert(name@.subrange(0, 8) =~= name@.take(8));
        }
        name
    };
    assert(stripped@ == strip_builtin_prefix(name@));
    if str_eq_nocase(stripped, "adapt") {
        assert(nocase_eq(stripped@, builtin_names()[0]));
        return Ok("adapt");
    }
    if str_eq_nocase(stripped, "cart") {
        assert(nocase_eq(stripped@, builtin_names()[1]));
        return Ok("cart");
    }
    if str_eq_nocase(stripped, "gridshift") {
        assert(nocase_eq(stripped@, builtin_names()[2]));
        return Ok("gridshift");
    }
    if str_eq_nocase(stripped, "helmert") {
        assert(nocase_eq(stripped@, builtin_names()[3]));
        return Ok("helmert");
    }
    if str_eq_nocase(stripped, "lcc") {
        assert(nocase_eq(stripped@, builtin_names()[4]));
        return Ok("lcc");
    }
    if str_eq_nocase(stripped, "merc") {
        assert(nocase_eq(stripped@, builtin_names()[5]));
        return Ok("merc");
    }
    if str_eq_nocase(stripped, "molodensky") {
        assert(nocase_eq(stripped@, builtin_names()[6]));
        return Ok("molodensky");
    }
    if str_eq_nocase(stripped, "dm") {
        assert(nocase_eq(stripped@, builtin_names()[7]));
        return Ok("dm");
    }
    if str_eq_nocase(stripped, "nmea") {
        assert(nocase_eq(stripped@, builtin_names()[8]));
        return Ok("nmea");
    }
    if str_eq_nocase(stripped, "dms") {
        assert(nocase_eq(stripped@, builtin_names()[9]));
        return Ok("dms");
    }
    if str_eq_nocase(stripped, "nmeass") {
        assert(nocase_eq(stripped@, builtin_names()[10]));
        return Ok("nmeass");
    }
    if str_eq_nocase(stripped, "noop") {
        assert(nocase_eq(stripped@, builtin_names()[11]));
        return Ok("noop");
    }
    if str_eq_nocase(stripped, "tmerc") {
        assert(nocase_eq(stripped@, builtin_names()[12]));
        return Ok("tmerc");
    }
    if str_eq_nocase(stripped, "utm") {
        assert(nocase_eq(stripped@, builtin_names()[13]));
        return Ok("utm");
    }
    proof {
        assert forall|i: int|
            0 <= i < builtin_names().len() implies !nocase_eq(
            stripped@,
            builtin_names()[i],
        ) by {
        }
    }
    Err(GeodesyError::NotFound(String::from_str(name)))
}

} // verus!
