//! The terse operator shorthand: pipe-separated steps, each a head name
//! followed by `key:value` pairs and bare flags, with `^key` indirection
//! into the enclosing scope.

use vstd::prelude::*;

use crate::text::find_char;
use crate::text::is_blank;
use crate::text::lemma_find_char;
use crate::text::lemma_find_char_none;
use crate::text::lemma_find_char_props;
use crate::text::spec_split;
use crate::text::spec_trim;
use crate::text::split_on;
use crate::text::trim;

verus! {

/// Index just past the first run of non-blank characters, i.e. the first
/// blank position, or the length if no blank follows.
pub open spec fn first_blank(s: Seq<char>) -> int
    decreases s.len(),
{
    if s.len() == 0 {
        0
    } else if is_blank(s[0]) {
        0
    } else {
        1 + first_blank(s.skip(1))
    }
}

pub proof fn lemma_first_blank_exact(s: Seq<char>, k: int)
    requires
        0 <= k <= s.len(),
        forall|j: int| 0 <= j < k ==> !is_blank(s[j]),
        k < s.len() ==> is_blank(s[k]),
    ensures
        first_blank(s) == k,
    decreases s.len(),
{
    if s.len() > 0 && !is_blank(s[0]) {
        lemma_first_blank_exact(s.skip(1), k - 1);
    }
}

/// The blank-separated tokens of `s`, in order, each non-empty and free of
/// blanks.
pub open spec fn spec_tokens(s: Seq<char>) -> Seq<Seq<char>>
    decreases s.len(),
{
    if s.len() == 0 {
        Seq::empty()
    } else if is_blank(s[0]) {
        spec_tokens(s.skip(1))
    } else {
        let k = first_blank(s);
        if 1 <= k <= s.len() {
            seq![s.take(k)] + spec_tokens(s.skip(k))
        } else {
            seq![s]
        }
    }
}

/// Blank-separated tokens of `s`.
pub fn tokens(s: &str) -> (r: Vec<String>)
    ensures
        r@.map_values(|t: String| t@) =~= spec_tokens(s@),
{
    let n = s.unicode_len();
    let mut r: Vec<String> = Vec::new();
    let mut i: usize = 0;
    assert(s@.skip(0) =~= s@);
    while i < n
        invariant
            n == s@.len(),
            0 <= i <= n,
            spec_tokens(s@) =~= r@.map_values(|t: String| t@) + spec_tokens(s@.skip(i as int)),
        decreases n - i,
    {
        let c = s.get_char(i);
        if crate::text::blank(c) {
            proof {
                assert(s@.skip(i as int)[0] == c);
                assert(s@.skip(i as int).skip(1) =~= s@.skip(i + 1));
            }
            i = i + 1;
        } else {
            let start = i;
            let mut j = i + 1;
            while j < n && !crate::text::blank(s.get_char(j))
                invariant
                    n == s@.len(),
                    start < j <= n,
                    forall|p: int| start <= p < j ==> !is_blank(s@[p]),
                decreases n - j,
            {
                j = j + 1;
            }
            let piece = s.substring_char(start, j);
            let piece = String::from_str(piece);
            proof {
                let tail = s@.skip(start as int);
                lemma_first_blank_exact(tail, j - start);
                assert(tail.take(j - start) =~= s@.subrange(start as int, j as int));
                assert(tail.skip(j - start) =~= s@.skip(j as int));
                assert(spec_tokens(tail) =~= seq![s@.subrange(start as int, j as int)]
                    + spec_tokens(s@.skip(j as int)));
            }
            let ghost prev = r@;
            r.push(piece);
            assert(r@.map_values(|t: String| t@) =~= prev.map_values(|t: String| t@).push(
                s@.subrange(start as int, j as int),
            )) by {
                assert(r@ =~= prev.push(piece));
            }
            i = j;
        }
    }
    assert(s@.skip(n as int) =~= Seq::<char>::empty());
    r
}

/// Index of the first `:` or `=` in a token, or -1 if neither occurs:
/// both spellings separate a key from its value.
pub open spec fn kv_sep(t: Seq<char>) -> int {
    let kc = find_char(t, ':');
    let ke = find_char(t, '=');
    if kc < 0 {
        ke
    } else if ke < 0 {
        kc
    } else if kc <= ke {
        kc
    } else {
        ke
    }
}

/// How one token is read as a parameter: `key:value` or `key=value`
/// splits at the first separator; a bare word is a flag bound to "true".
pub open spec fn kv_of(t: Seq<char>) -> (Seq<char>, Seq<char>) {
    let k = kv_sep(t);
    if k < 0 {
        (t, "true"@)
    } else {
        (t.take(k), t.skip(k + 1))
    }
}

/// Split one token at its first separator, or bind a bare word to "true".
pub fn token_to_pair(t: &str) -> (r: (String, String))
    ensures
        r.0@ == kv_of(t@).0,
        r.1@ == kv_of(t@).1,
{
    let n = t.unicode_len();
    let mut i: usize = 0;
    while i < n && t.get_char(i) != ':' && t.get_char(i) != '='
        invariant
            n == t@.len(),
            0 <= i <= n,
            forall|j: int| 0 <= j < i ==> t@[j] != ':' && t@[j] != '=',
        decreases n - i,
    {
        i = i + 1;
    }
    if i == n {
        proof {
            lemma_find_char_none(t@, ':');
            lemma_find_char_none(t@, '=');
        }
        (String::from_str(t), String::from_str("true"))
    } else {
        proof {
            let c = t@[i as int];
            if c == ':' {
                lemma_find_char(t@, ':', i as int);
                lemma_find_char_props(t@, '=');
            } else {
                lemma_find_char(t@, '=', i as int);
                lemma_find_char_props(t@, ':');
            }
            assert(kv_sep(t@) == i);
            assert(t@.subrange(0, i as int) =~= t@.take(i as int));
            assert(t@.subrange(i + 1, n as int) =~= t@.skip(i + 1));
        }
        let key = String::from_str(t.substring_char(0, i));
        let val = String::from_str(t.substring_char(i + 1, n));
        (key, val)
    }
}

/// The view of a list of owned pairs as a list of character-sequence pairs.
pub open spec fn pairs_view(v: Seq<(String, String)>) -> Seq<(Seq<char>, Seq<char>)> {
    v.map_values(|p: (String, String)| (p.0@, p.1@))
}

/// The value bound to `key`, where the *last* binding wins.
pub open spec fn lookup(pairs: Seq<(Seq<char>, Seq<char>)>, key: Seq<char>) -> Option<Seq<char>>
    decreases pairs.len(),
{
    if pairs.len() == 0 {
        None
    } else if pairs[pairs.len() - 1].0 == key {
        Some(pairs[pairs.len() - 1].1)
    } else {
        lookup(pairs.drop_last(), key)
    }
}

/// Exec lookup over owned pairs, last binding first.
pub fn lookup_pairs(pairs: &Vec<(String, String)>, key: &str) -> (r: Option<String>)
    ensures
        match r {
            Some(v) => lookup(pairs_view(pairs@), key@) == Some(v@),
            None => lookup(pairs_view(pairs@), key@) is None,
        },
{
    let n = pairs.len();
    let mut i: usize = n;
    assert(pairs_view(pairs@).take(n as int) =~= pairs_view(pairs@));
    while i > 0
        invariant
            n == pairs@.len(),
            0 <= i <= n,
            lookup(pairs_view(pairs@), key@) == lookup(
                pairs_view(pairs@).take(i as int),
                key@,
            ),
        decreases i,
    {
        let p = &pairs[i - 1];
        if crate::text::str_eq(p.0.as_str(), key) {
            proof {
                let pv = pairs_view(pairs@);
                assert(pv.take(i as int).last() == (p.0@, p.1@));
            }
            return Some(p.1.clone());
        }
        proof {
            let pv = pairs_view(pairs@);
            assert(pv.take(i as int).drop_last() =~= pv.take(i - 1));
        }
        i = i - 1;
    }
    proof {
        assert(pairs_view(pairs@).take(0) =~= Seq::<(Seq<char>, Seq<char>)>::empty());
    }
    None
}

/// Copy a pair list.
pub fn clone_pairs(pairs: &Vec<(String, String)>) -> (r: Vec<(String, String)>)
    ensures
        pairs_view(r@) =~= pairs_view(pairs@),
{
    let mut r: Vec<(String, String)> = Vec::new();
    let mut i: usize = 0;
    while i < pairs.len()
        invariant
            0 <= i <= pairs@.len(),
            r@.len() == i,
            forall|j: int|
                0 <= j < i ==> #[trigger] r@[j].0@ == pairs@[j].0@ && r@[j].1@ == pairs@[j].1@,
        decreases pairs@.len() - i,
    {
        let p = &pairs[i];
        r.push((p.0.clone(), p.1.clone()));
        i = i + 1;
    }
    r
}

/// Resolve `^`-indirection: while the value begins with `^`, replace it by
/// the binding of the rest of the word in `scope`. `fuel` bounds the chain,
/// so a cycle resolves to `None`. A chain through distinct keys is at most
/// as long as the scope, so a fuel of the scope's length resolves every
/// acyclic chain.
pub open spec fn chase(
    scope: Seq<(Seq<char>, Seq<char>)>,
    v: Seq<char>,
    fuel: nat,
) -> Option<Seq<char>>
    decreases fuel,
{
    if v.len() > 0 && v[0] == '^' {
        if fuel == 0 {
            None
        } else {
            match lookup(scope, v.skip(1)) {
                Some(w) => chase(scope, w, (fuel - 1) as nat),
                None => None,
            }
        }
    } else {
        Some(v)
    }
}

/// What `GysArgs::value` returns: the local binding if there is one, else
/// the global one, with `^` indirection resolved against the globals.
pub open spec fn spec_value(
    locals: Seq<(Seq<char>, Seq<char>)>,
    globals: Seq<(Seq<char>, Seq<char>)>,
    key: Seq<char>,
) -> Option<Seq<char>> {
    match lookup(locals, key) {
        Some(v) => chase(globals, v, globals.len()),
        None => match lookup(globals, key) {
            Some(v) => chase(globals, v, globals.len()),
            None => None,
        },
    }
}

/// The arguments in scope for one step: the enclosing pipeline's globals and
/// the step's own locals, the locals shadowing.
#[derive(Debug)]
pub struct GysArgs {
    pub globals: Vec<(String, String)>,
    pub locals: Vec<(String, String)>,
}

impl GysArgs {
    /// Parse one step against the given globals. The step's first token
    /// becomes the binding of "name"; every further token is a `key:value`
    /// pair or a bare flag bound to "true".
    pub fn new(globals: &Vec<(String, String)>, step: &str) -> (r: GysArgs)
        ensures
            pairs_view(r.globals@) =~= pairs_view(globals@),
            pairs_view(r.locals@) =~= spec_locals(step@),
    {
        let toks = tokens(step);
        let mut locals: Vec<(String, String)> = Vec::new();
        let mut i: usize = 0;
        while i < toks.len()
            invariant
                0 <= i <= toks@.len(),
                toks@.map_values(|t: String| t@) =~= spec_tokens(step@),
                pairs_view(locals@) =~= spec_locals_of(
                    spec_tokens(step@).take(i as int),
                ),
            decreases toks@.len() - i,
        {
            let t = &toks[i];
            let ghost prevl = locals@;
            if i == 0 {
                locals.push((String::from_str("name"), t.clone()));
            } else {
                let p = token_to_pair(t.as_str());
                locals.push(p);
            }
            proof {
                let tv = spec_tokens(step@);
                assert(tv.take(i + 1).drop_last() =~= tv.take(i as int));
                assert(tv.take(i + 1).last() == tv[i as int]);
                assert(pairs_view(locals@) =~= pairs_view(prevl).push(
                    (locals@.last().0@, locals@.last().1@),
                )) by {
                    assert(locals@ =~= prevl.push(locals@.last()));
                }
            }
            i = i + 1;
        }
        proof {
            assert(spec_tokens(step@).take(spec_tokens(step@).len() as int) =~= spec_tokens(
                step@,
            ));
        }
        GysArgs { globals: clone_pairs(globals), locals }
    }

    /// The value bound to `key`, locals shadowing globals, `^` indirection
    /// resolved against the globals.
    pub fn value(&self, key: &str) -> (r: Option<String>)
        ensures
            match r {
                Some(v) => spec_value(
                    pairs_view(self.locals@),
                    pairs_view(self.globals@),
                    key@,
                ) == Some(v@),
                None => spec_value(
                    pairs_view(self.locals@),
                    pairs_view(self.globals@),
                    key@,
                ) is None,
            },
    {
        resolve_value(&self.locals, &self.globals, key)
    }

    /// Whether `key` is set to exactly "true".
    pub fn flag(&self, key: &str) -> (r: bool)
        ensures
            r == (spec_value(pairs_view(self.locals@), pairs_view(self.globals@), key@)
                == Some("true"@)),
    {
        match self.value(key) {
            Some(v) => {
                let r = crate::text::str_eq(v.as_str(), "true");
                r
            },
            None => false,
        }
    }
}

/// Resolve a binding against a scope of locals shadowing globals, with
/// `^` indirection followed through the globals.
pub fn resolve_value(
    locals: &Vec<(String, String)>,
    globals: &Vec<(String, String)>,
    key: &str,
) -> (r: Option<String>)
    ensures
        match r {
            Some(v) => spec_value(pairs_view(locals@), pairs_view(globals@), key@) == Some(v@),
            None => spec_value(pairs_view(locals@), pairs_view(globals@), key@) is None,
        },
{
    let first = match lookup_pairs(locals, key) {
        Some(v) => v,
        None => match lookup_pairs(globals, key) {
            Some(v) => v,
            None => {
                return None;
            },
        },
    };
    chase_value(globals, first)
}

/// Follow `^` indirection through a scope, at most one step per binding.
fn chase_value(globals: &Vec<(String, String)>, start: String) -> (r: Option<String>)
    ensures
        match r {
            Some(v) => chase(pairs_view(globals@), start@, pairs_view(globals@).len()) == Some(
                v@,
            ),
            None => chase(pairs_view(globals@), start@, pairs_view(globals@).len()) is None,
        },
{
    let mut v = start;
    let mut fuel: usize = globals.len();
    while v.as_str().unicode_len() > 0 && v.as_str().get_char(0) == '^' && fuel > 0
        invariant
            fuel <= globals@.len(),
            chase(pairs_view(globals@), start@, pairs_view(globals@).len()) == chase(
                pairs_view(globals@),
                v@,
                fuel as nat,
            ),
        decreases fuel,
    {
        let n = v.as_str().unicode_len();
        let rest = v.as_str().substring_char(1, n);
        proof {
            assert(v@.subrange(1, n as int) =~= v@.skip(1));
        }
        match lookup_pairs(globals, rest) {
            Some(w) => {
                v = w;
            },
            None => {
                return None;
            },
        }
        fuel = fuel - 1;
    }
    if fuel == 0 && v.as_str().unicode_len() > 0 && v.as_str().get_char(0) == '^' {
        return None;
    }
    Some(v)
}

/// The locals a step parses to.
pub open spec fn spec_locals(step: Seq<char>) -> Seq<(Seq<char>, Seq<char>)> {
    spec_locals_of(spec_tokens(step))
}

/// The pair list a token list parses to: the first token bound to "name",
/// the rest read as `key:value` or flags.
pub open spec fn spec_locals_of(toks: Seq<Seq<char>>) -> Seq<(Seq<char>, Seq<char>)> {
    toks.map(
        |i: int, t: Seq<char>|
            if i == 0 {
                ("name"@, t)
            } else {
                kv_of(t)
            },
    )
}

/// A parsed resource: an identifier, the globals of the enclosing scope, and
/// the pipe-separated steps, each trimmed.
#[derive(Debug)]
pub struct GysResource {
    pub id: String,
    pub globals: Vec<(String, String)>,
    pub steps: Vec<String>,
}

/// The steps a shorthand definition splits into: pipe-separated, trimmed.
pub open spec fn spec_steps(definition: Seq<char>) -> Seq<Seq<char>> {
    spec_split(definition, '|').map_values(|p: Seq<char>| spec_trim(p))
}

impl GysResource {
    /// Split a shorthand definition into steps on `|`, trimming each, and
    /// attach the given globals.
    pub fn new(definition: &str, globals: &Vec<(String, String)>) -> (r: GysResource)
        ensures
            r.steps@.map_values(|t: String| t@) =~= spec_steps(definition@),
            pairs_view(r.globals@) =~= pairs_view(globals@),
            r.id@ == Seq::<char>::empty(),
    {
        let pieces = split_on(definition, '|');
        let mut steps: Vec<String> = Vec::new();
        let mut i: usize = 0;
        while i < pieces.len()
            invariant
                0 <= i <= pieces@.len(),
                pieces@.map_values(|t: String| t@) =~= spec_split(definition@, '|'),
                steps@.map_values(|t: String| t@) =~= spec_split(definition@, '|').take(
                    i as int,
                ).map_values(|p: Seq<char>| spec_trim(p)),
            decreases pieces@.len() - i,
        {
            let t = trim(pieces[i].as_str());
            let ghost prev = steps@;
            steps.push(t);
            proof {
                let sv = spec_split(definition@, '|');
                assert(steps@ =~= prev.push(steps@.last()));
                assert(steps@.map_values(|t: String| t@) =~= prev.map_values(|t: String| t@)
                    .push(spec_trim(sv[i as int])));
                assert(sv.take(i + 1).map_values(|p: Seq<char>| spec_trim(p)) =~= sv.take(
                    i as int,
                ).map_values(|p: Seq<char>| spec_trim(p)).push(spec_trim(sv[i as int])));
            }
            i = i + 1;
        }
        proof {
            let sv = spec_split(definition@, '|');
            assert(sv.take(sv.len() as int) =~= sv);
        }
        GysResource { id: String::new(), globals: clone_pairs(globals), steps }
    }

    /// A resource with no enclosing globals.
    pub fn from(definition: &str) -> (r: GysResource)
        ensures
            r.steps@.map_values(|t: String| t@) =~= spec_steps(definition@),
            pairs_view(r.globals@) =~= Seq::<(Seq<char>, Seq<char>)>::empty(),
            r.id@ == Seq::<char>::empty(),
    {
        let globals: Vec<(String, String)> = Vec::new();
        GysResource::new(definition, &globals)
    }
}

} // verus!
