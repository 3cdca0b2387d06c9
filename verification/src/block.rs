//! The long-form block syntax: `name: { key: value, steps: [ ... ], ... }`.
//! A definition in this form is normalized into the same step strings the
//! shorthand parses to, so one factory serves both surfaces.

use vstd::prelude::*;

use crate::error::GeodesyError;
use crate::gys::pairs_view;
use crate::gys::GysResource;
use crate::text::find_char;
use crate::text::spec_trim;
use crate::text::trim;

verus! {

/// How one character changes the brace depth.
pub open spec fn delta(c: char) -> int {
    if c == '{' || c == '[' {
        1
    } else if c == '}' || c == ']' {
        -1
    } else {
        0
    }
}

/// The brace depth after reading all of `s`, starting from depth 0.
pub open spec fn depth_after(s: Seq<char>) -> int
    decreases s.len(),
{
    if s.len() == 0 {
        0
    } else {
        delta(s[0]) + depth_after(s.skip(1))
    }
}

proof fn lemma_depth_after_step(s: Seq<char>, j: int)
    requires
        0 <= j < s.len(),
    ensures
        depth_after(s.take(j + 1)) == depth_after(s.take(j)) + delta(s[j]),
    decreases j,
{
    if j == 0 {
        assert(s.take(1).skip(1) =~= Seq::<char>::empty());
        assert(s.take(0) =~= Seq::<char>::empty());
        assert(s.take(1)[0] == s[0]);
    } else {
        assert(s.take(j + 1)[0] == s[0]);
        assert(s.take(j)[0] == s[0]);
        assert(s.take(j + 1).skip(1) =~= s.skip(1).take(j));
        assert(s.take(j).skip(1) =~= s.skip(1).take(j - 1));
        lemma_depth_after_step(s.skip(1), j - 1);
        assert(s.skip(1)[j - 1] == s[j]);
    }
}

/// Index of the first occurrence of `sep` at brace depth 0, starting from
/// depth `d`, or -1 if there is none.
pub open spec fn find_top(s: Seq<char>, sep: char, d: int) -> int
    decreases s.len(),
{
    if s.len() == 0 {
        -1
    } else if d == 0 && s[0] == sep {
        0
    } else {
        let r = find_top(s.skip(1), sep, d + delta(s[0]));
        if r < 0 {
            -1
        } else {
            r + 1
        }
    }
}

proof fn lemma_find_top_exact(s: Seq<char>, sep: char, d: int, k: int)
    requires
        0 <= k < s.len(),
        s[k] == sep,
        d + depth_after(s.take(k)) == 0,
        forall|j: int| 0 <= j < k ==> !(s[j] == sep && d + depth_after(s.take(j)) == 0),
    ensures
        find_top(s, sep, d) == k,
    decreases s.len(),
{
    assert(s.take(0) =~= Seq::<char>::empty());
    if k == 0 {
    } else {
        assert(!(s[0] == sep && d == 0));
        let s2 = s.skip(1);
        let d2 = d + delta(s[0]);
        assert(s2[k - 1] == s[k]);
        assert forall|j: int| 0 <= j <= k - 1 implies d2 + depth_after(s2.take(j)) == d
            + depth_after(s.take(j + 1)) by {
            assert(s.take(j + 1)[0] == s[0]);
            assert(s.take(j + 1).skip(1) =~= s2.take(j));
        }
        assert forall|j: int| 0 <= j < k - 1 implies !(s2[j] == sep && d2 + depth_after(
            s2.take(j),
        ) == 0) by {
            assert(s2[j] == s[j + 1]);
        }
        lemma_find_top_exact(s2, sep, d2, k - 1);
    }
}

proof fn lemma_find_top_none(s: Seq<char>, sep: char, d: int)
    requires
        forall|j: int| 0 <= j < s.len() ==> !(s[j] == sep && d + depth_after(s.take(j)) == 0),
    ensures
        find_top(s, sep, d) == -1,
    decreases s.len(),
{
    assert(s.take(0) =~= Seq::<char>::empty());
    if s.len() > 0 {
        let s2 = s.skip(1);
        let d2 = d + delta(s[0]);
        assert forall|j: int| 0 <= j < s2.len() implies !(s2[j] == sep && d2 + depth_after(
            s2.take(j),
        ) == 0) by {
            assert(s2[j] == s[j + 1]);
            assert(s.take(j + 1)[0] == s[0]);
            assert(s.take(j + 1).skip(1) =~= s2.take(j));
        }
        lemma_find_top_none(s2, sep, d2);
    }
}

/// Split at every occurrence of `sep` that stands at brace depth 0.
pub open spec fn spec_split_top(s: Seq<char>, sep: char) -> Seq<Seq<char>>
    decreases s.len(),
{
    let k = find_top(s, sep, 0);
    if k < 0 || k >= s.len() {
        seq![s]
    } else {
        seq![s.take(k)] + spec_split_top(s.skip(k + 1), sep)
    }
}

/// Split `s` at every `sep` that is not enclosed in braces or brackets.
pub fn split_top(s: &str, sep: char) -> (r: Vec<String>)
    ensures
        r@.map_values(|t: String| t@) =~= spec_split_top(s@, sep),
{
    let n = s.unicode_len();
    let mut r: Vec<String> = Vec::new();
    let mut start: usize = 0;
    let mut i: usize = 0;
    let mut d: i128 = 0;
    assert(s@.skip(0) =~= s@);
    assert(s@.take(0) =~= Seq::<char>::empty());
    while i < n
        invariant
            n == s@.len(),
            0 <= start <= i <= n,
            d == depth_after(s@.skip(start as int).take(i - start)),
            -(i - start) <= d <= i - start,
            forall|j: int|
                start <= j < i ==> !(s@[j] == sep && depth_after(
                    s@.skip(start as int).take(j - start),
                ) == 0),
            spec_split_top(s@, sep) =~= r@.map_values(|t: String| t@) + spec_split_top(
                s@.skip(start as int),
                sep,
            ),
        decreases n - i,
    {
        let c = s.get_char(i);
        proof {
            lemma_depth_after_step(s@.skip(start as int), i - start);
            assert(s@.skip(start as int)[i - start] == s@[i as int]);
        }
        if d == 0 && c == sep {
            let piece = s.substring_char(start, i);
            let piece = String::from_str(piece);
            proof {
                let tail = s@.skip(start as int);
                lemma_find_top_exact(tail, sep, 0, i - start);
                assert(tail.take(i - start) =~= s@.subrange(start as int, i as int));
                assert(tail.skip(i - start + 1) =~= s@.skip(i + 1));
                assert(spec_split_top(tail, sep) =~= seq![
                    s@.subrange(start as int, i as int),
                ] + spec_split_top(s@.skip(i + 1), sep));
                assert(s@.skip(i + 1).take(0) =~= Seq::<char>::empty());
            }
            let ghost prev = r@;
            r.push(piece);
            assert(r@.map_values(|t: String| t@) =~= prev.map_values(|t: String| t@).push(
                s@.subrange(start as int, i as int),
            )) by {
                assert(r@ =~= prev.push(piece));
            }
            start = i + 1;
            d = 0;
        } else {
            if c == '{' || c == '[' {
                d = d + 1;
            } else if c == '}' || c == ']' {
                d = d - 1;
            }
        }
        i = i + 1;
    }
    let piece = s.substring_char(start, n);
    let piece = String::from_str(piece);
    proof {
        let tail = s@.skip(start as int);
        assert forall|j: int| 0 <= j < tail.len() implies !(tail[j] == sep && 0 + depth_after(
            tail.take(j),
        ) == 0) by {
            assert(tail[j] == s@[start + j]);
        }
        lemma_find_top_none(tail, sep, 0);
        assert(tail =~= s@.subrange(start as int, n as int));
    }
    let ghost prev = r@;
    r.push(piece);
    assert(r@.map_values(|t: String| t@) =~= prev.map_values(|t: String| t@).push(
        s@.subrange(start as int, n as int),
    )) by {
        assert(r@ =~= prev.push(piece));
    }
    r
}

/// The head of a block definition: what stands before its first colon,
/// trimmed.
pub open spec fn block_head(t: Seq<char>) -> Seq<char> {
    spec_trim(t.take(find_char(t, ':')))
}

/// The body of a block definition: what stands after its first colon,
/// trimmed.
pub open spec fn block_body(t: Seq<char>) -> Seq<char> {
    spec_trim(t.skip(find_char(t, ':') + 1))
}

/// Whether a trimmed definition has block shape: a colon, then a braced
/// body.
pub open spec fn block_shape_ok(t: Seq<char>) -> bool {
    &&& find_char(t, ':') >= 0
    &&& block_body(t).len() >= 2
    &&& block_body(t)[0] == '{'
    &&& block_body(t)[block_body(t).len() - 1] == '}'
}

/// The entries of a block's braced body: split at top-level commas,
/// trimmed, empty pieces dropped.
pub open spec fn block_entries(t: Seq<char>) -> Seq<Seq<char>> {
    spec_split_top(block_body(t).subrange(1, block_body(t).len() - 1), ',').map_values(
        |e: Seq<char>| spec_trim(e),
    ).filter(|e: Seq<char>| e.len() > 0)
}

/// An entry's key and value, trimmed.
pub open spec fn entry_pair(e: Seq<char>) -> (Seq<char>, Seq<char>) {
    (spec_trim(crate::gys::kv_of(e).0), spec_trim(crate::gys::kv_of(e).1))
}

/// A primitive block: no entry is a steps list or a globals table.
pub open spec fn is_primitive_block(t: Seq<char>) -> bool {
    forall|i: int|
        0 <= i < block_entries(t).len() ==> entry_pair(#[trigger] block_entries(t)[i]).0
            != "steps"@ && entry_pair(block_entries(t)[i]).0 != "globals"@
}

/// One ` key:value` token appended for each pair, in order.
pub open spec fn rendered_pairs(ps: Seq<(Seq<char>, Seq<char>)>) -> Seq<char>
    decreases ps.len(),
{
    if ps.len() == 0 {
        Seq::empty()
    } else {
        rendered_pairs(ps.drop_last()) + " "@ + ps.last().0 + ":"@ + ps.last().1
    }
}

/// The single step a primitive block renders to: its head followed by its
/// entries as tokens.
pub open spec fn rendered_primitive(t: Seq<char>) -> Seq<char> {
    block_head(t) + rendered_pairs(block_entries(t).map_values(|e: Seq<char>| entry_pair(e)))
}

/// What one list element renders to: itself if already shorthand, else
/// its nested block rendered.
pub open spec fn rendered_sub(sv: Seq<char>) -> Seq<char> {
    if find_char(sv, '{') < 0 {
        sv
    } else {
        rendered_primitive(sv)
    }
}

/// Whether a list element can be rendered: it is already shorthand, or a
/// nested block of simple scalar entries.
pub open spec fn sub_renders(sv: Seq<char>) -> bool {
    find_char(sv, '{') < 0 || (block_shape_ok(sv) && entries_simple(sv))
}

/// Whether a value has list shape: brackets around it.
pub open spec fn list_shape_ok(v: Seq<char>) -> bool {
    v.len() >= 2 && v[0] == '[' && v[v.len() - 1] == ']'
}

/// The steps a list value yields: split at top-level commas, trimmed,
/// empties dropped.
pub open spec fn steps_of_value(v: Seq<char>) -> Seq<Seq<char>> {
    spec_split_top(v.subrange(1, v.len() - 1), ',').map_values(|e: Seq<char>| spec_trim(e))
        .filter(|e: Seq<char>| e.len() > 0)
}

/// Whether an entry is bookkeeping rather than a scalar binding.
pub open spec fn is_compound_key(e: Seq<char>) -> bool {
    entry_pair(e).0 == "steps"@ || entry_pair(e).0 == "globals"@
}

/// Whether some entry of a block is a steps list.
pub open spec fn has_steps_entry(t: Seq<char>) -> bool {
    exists|i: int|
        0 <= i < block_entries(t).len() && entry_pair(#[trigger] block_entries(t)[i]).0
            == "steps"@
}

/// Whether no entry of a block is a globals table.
pub open spec fn no_globals_table(t: Seq<char>) -> bool {
    forall|i: int|
        0 <= i < block_entries(t).len() ==> entry_pair(#[trigger] block_entries(t)[i]).0
            != "globals"@
}

/// The scalar bindings of a block: its entries that are neither a steps
/// list nor a globals table, as pairs, in order.
pub open spec fn scalar_pairs(t: Seq<char>) -> Seq<(Seq<char>, Seq<char>)> {
    block_entries(t).filter(|e: Seq<char>| !is_compound_key(e)).map_values(
        |e: Seq<char>| entry_pair(e),
    )
}

/// A pipeline block of the plain form: its one entry is a steps list, not
/// empty, whose every element renders.
pub open spec fn single_steps_block(t: Seq<char>) -> bool {
    &&& block_entries(t).len() == 1
    &&& entry_pair(block_entries(t)[0]).0 == "steps"@
    &&& list_shape_ok(entry_pair(block_entries(t)[0]).1)
    &&& steps_of_value(entry_pair(block_entries(t)[0]).1).len() >= 1
    &&& forall|i: int|
        0 <= i < steps_of_value(entry_pair(block_entries(t)[0]).1).len() ==> sub_renders(
            #[trigger] steps_of_value(entry_pair(block_entries(t)[0]).1)[i],
        )
}

/// What a filter of a prefix yields is a prefix of the whole filter.
proof fn lemma_filter_take_prefix<A>(s: Seq<A>, p: spec_fn(A) -> bool, j: int)
    requires
        0 <= j <= s.len(),
    ensures
        s.take(j).filter(p).len() <= s.filter(p).len(),
        s.take(j).filter(p) == s.filter(p).take(s.take(j).filter(p).len() as int),
    decreases s.len() - j,
{
    reveal(Seq::filter);
    if j == s.len() {
        assert(s.take(j) =~= s);
        assert(s.filter(p).take(s.filter(p).len() as int) =~= s.filter(p));
    } else {
        lemma_filter_take_prefix(s, p, j + 1);
        assert(s.take(j + 1).drop_last() =~= s.take(j));
        assert(s.take(j + 1).last() == s[j]);
        let fj = s.take(j).filter(p);
        let fj1 = s.take(j + 1).filter(p);
        if p(s[j]) {
            assert(fj1 == fj.push(s[j]));
            assert(fj =~= fj1.take(fj.len() as int));
        } else {
            assert(fj1 == fj);
        }
        assert(fj =~= s.filter(p).take(fj.len() as int));
    }
}

/// Whether `s` contains `c` at all.
pub fn contains_char(s: &str, c: char) -> (r: bool)
    ensures
        r == (find_char(s@, c) >= 0),
{
    let n = s.unicode_len();
    let mut i: usize = 0;
    while i < n
        invariant
            n == s@.len(),
            0 <= i <= n,
            forall|j: int| 0 <= j < i ==> s@[j] != c,
        decreases n - i,
    {
        if s.get_char(i) == c {
            proof {
                crate::text::lemma_find_char(s@, c, i as int);
            }
            return true;
        }
        i = i + 1;
    }
    proof {
        crate::text::lemma_find_char_none(s@, c);
    }
    false
}

/// Split an entry `key: value` at its first colon; a bare word is a flag
/// set to "true". Key and value are trimmed.
fn entry_to_pair(e: &str) -> (r: (String, String))
    ensures
        r.0@ == spec_trim(crate::gys::kv_of(e@).0),
        r.1@ == spec_trim(crate::gys::kv_of(e@).1),
{
    let (k, v) = crate::gys::token_to_pair(e);
    (trim(k.as_str()), trim(v.as_str()))
}

/// Strip one leading and one trailing bracket from a trimmed value, or
/// report what was found instead.
fn strip_brackets(v: &str, open: char, close: char) -> (r: Result<String, GeodesyError>)
    ensures
        r is Ok ==> v@.len() >= 2 && v@[0] == open && v@[v@.len() - 1] == close
            && r->Ok_0@ == v@.subrange(1, v@.len() - 1),
        r is Err ==> v@.len() < 2 || v@[0] != open || v@[v@.len() - 1] != close,
{
    let n = v.unicode_len();
    if n < 2 || v.get_char(0) != open || v.get_char(n - 1) != close {
        return Err(GeodesyError::Syntax(String::from_str(v)));
    }
    Ok(String::from_str(v.substring_char(1, n - 1)))
}

/// Whether every entry of a block is a simple scalar, free of nested
/// braces and brackets.
pub open spec fn entries_simple(t: Seq<char>) -> bool {
    forall|i: int|
        0 <= i < block_entries(t).len() ==> find_char(#[trigger] block_entries(t)[i], '{') < 0
            && find_char(block_entries(t)[i], '[') < 0
}

/// Render one step of a block definition as a shorthand step. A step that
/// is already shorthand passes through trimmed; a nested block of simple
/// scalar entries renders to its head followed by its entries as
/// `key:value` tokens; anything deeper is refused.
#[verifier::loop_isolation(false)]
pub fn render_step(sub: &str) -> (r: Result<String, GeodesyError>)
    ensures
        find_char(spec_trim(sub@), '{') < 0 ==> r is Ok && r->Ok_0@ == spec_trim(sub@),
        find_char(spec_trim(sub@), '{') >= 0 ==> {
            let tv = spec_trim(sub@);
            &&& (r is Ok <==> block_shape_ok(tv) && entries_simple(tv))
            &&& (r is Ok ==> r->Ok_0@ == rendered_primitive(tv))
        },
{
    let t = trim(sub);
    let ghost tv = spec_trim(sub@);
    if !contains_char(t.as_str(), '{') {
        return Ok(t);
    }
    let n = t.as_str().unicode_len();
    let mut i: usize = 0;
    while i < n && t.as_str().get_char(i) != ':'
        invariant
            0 <= i <= n,
            forall|j: int| 0 <= j < i ==> tv[j] != ':',
        decreases n - i,
    {
        i = i + 1;
    }
    if i == n {
        proof {
            crate::text::lemma_find_char_none(tv, ':');
        }
        return Err(GeodesyError::Syntax(t));
    }
    proof {
        crate::text::lemma_find_char(tv, ':', i as int);
        assert(tv.subrange(0, i as int) =~= tv.take(i as int));
        assert(tv.subrange(i + 1, n as int) =~= tv.skip(i + 1));
    }
    let name = trim(t.as_str().substring_char(0, i));
    let rest = trim(t.as_str().substring_char(i + 1, n));
    assert(name@ == block_head(tv));
    assert(rest@ == block_body(tv));
    let inner = match strip_brackets(rest.as_str(), '{', '}') {
        Ok(x) => x,
        Err(e) => {
            return Err(e);
        },
    };
    assert(block_shape_ok(tv));
    let ghost iv = block_body(tv).subrange(1, block_body(tv).len() - 1);
    assert(inner@ == iv);
    let entries = split_top(inner.as_str(), ',');
    let ghost mapped = spec_split_top(iv, ',').map_values(|e: Seq<char>| spec_trim(e));
    let ghost be = block_entries(tv);
    let ghost nh = name@;
    let mut out = name;
    let mut j: usize = 0;
    proof {
        reveal(Seq::filter);
        assert(mapped.take(0) =~= Seq::<Seq<char>>::empty());
    }
    while j < entries.len()
        invariant
            0 <= j <= entries@.len(),
            out@ == nh + rendered_pairs(
                mapped.take(j as int).filter(|e2: Seq<char>| e2.len() > 0).map_values(
                    |e2: Seq<char>| entry_pair(e2),
                ),
            ),
            forall|idx: int|
                0 <= idx < mapped.take(j as int).filter(|e2: Seq<char>| e2.len() > 0).len()
                    ==> find_char(#[trigger] be[idx], '{') < 0 && find_char(be[idx], '[') < 0,
        decreases entries@.len() - j,
    {
        let e = trim(entries[j].as_str());
        proof {
            reveal(Seq::filter);
            assert(e@ == mapped[j as int]);
            assert(mapped.take(j + 1).drop_last() =~= mapped.take(j as int));
            assert(mapped.take(j + 1).last() == mapped[j as int]);
        }
        if e.as_str().unicode_len() > 0 {
            proof {
                lemma_filter_take_prefix(mapped, |e2: Seq<char>| e2.len() > 0, j + 1);
                assert(mapped.take(mapped.len() as int) =~= mapped);
                lemma_filter_take_prefix(
                    mapped,
                    |e2: Seq<char>| e2.len() > 0,
                    mapped.len() as int,
                );
            }
            let ghost fs1 = mapped.take(j + 1).filter(|e2: Seq<char>| e2.len() > 0);
            proof {
                assert(fs1.last() == e@);
                assert(be[fs1.len() - 1] == e@) by {
                    assert(fs1 == be.take(fs1.len() as int));
                }
            }
            if contains_char(e.as_str(), '{') || contains_char(e.as_str(), '[') {
                assert(!entries_simple(tv));
                return Err(GeodesyError::Syntax(e));
            }
            let (k, v) = entry_to_pair(e.as_str());
            out.append(" ");
            out.append(k.as_str());
            out.append(":");
            out.append(v.as_str());
            proof {
                let fsj = mapped.take(j as int).filter(|e2: Seq<char>| e2.len() > 0);
                assert(fs1 =~= fsj.push(e@));
                assert(fs1.map_values(|e2: Seq<char>| entry_pair(e2)) =~= fsj.map_values(
                    |e2: Seq<char>| entry_pair(e2),
                ).push((k@, v@)));
                assert(fs1.map_values(|e2: Seq<char>| entry_pair(e2)).drop_last() =~= fsj
                    .map_values(|e2: Seq<char>| entry_pair(e2)));
                assert(out@ =~= nh + rendered_pairs(
                    fs1.map_values(|e2: Seq<char>| entry_pair(e2)),
                ));
            }
        } else {
            proof {
                assert(mapped.take(j + 1).filter(|e2: Seq<char>| e2.len() > 0) =~= mapped.take(
                    j as int,
                ).filter(|e2: Seq<char>| e2.len() > 0));
            }
        }
        j = j + 1;
    }
    proof {
        reveal(Seq::filter);
        assert(mapped.take(entries@.len() as int) =~= mapped);
        assert(out@ == rendered_primitive(tv));
        assert(entries_simple(tv));
    }
    Ok(out)
}

/// Parse a block definition into the same resource a shorthand definition
/// yields: a primitive block becomes exactly one rendered step — its head
/// followed by its entries as `key:value` tokens — with no globals; a
/// block with a `steps` list becomes one rendered step per list element,
/// its other entries becoming the globals, and a `globals` entry merging
/// in as well. A definition without a colon-and-braces shape is refused.
#[verifier::loop_isolation(false)]
pub fn parse_block(definition: &str) -> (r: Result<GysResource, GeodesyError>)
    ensures
        r is Ok ==> r->Ok_0.steps@.len() >= 1,
        !block_shape_ok(spec_trim(definition@)) ==> r is Err,
        (block_shape_ok(spec_trim(definition@)) && is_primitive_block(
            spec_trim(definition@),
        )) ==> {
            let tv = spec_trim(definition@);
            &&& r is Ok
            &&& r->Ok_0.steps@.map_values(|x: String| x@) =~= seq![rendered_primitive(tv)]
            &&& pairs_view(r->Ok_0.globals@) =~= Seq::<(Seq<char>, Seq<char>)>::empty()
            &&& r->Ok_0.id@ == Seq::<char>::empty()
        },
        (block_shape_ok(spec_trim(definition@)) && single_steps_block(
            spec_trim(definition@),
        )) ==> {
            let tv = spec_trim(definition@);
            &&& r is Ok
            &&& r->Ok_0.steps@.map_values(|x: String| x@) =~= steps_of_value(
                entry_pair(block_entries(tv)[0]).1,
            ).map_values(|sv: Seq<char>| rendered_sub(sv))
            &&& pairs_view(r->Ok_0.globals@) =~= Seq::<(Seq<char>, Seq<char>)>::empty()
            &&& r->Ok_0.id@ == block_head(tv)
        },
        (r is Ok && block_shape_ok(spec_trim(definition@)) && has_steps_entry(
            spec_trim(definition@),
        ) && no_globals_table(spec_trim(definition@))) ==> {
            let tv = spec_trim(definition@);
            &&& pairs_view(r->Ok_0.globals@) =~= scalar_pairs(tv)
            &&& r->Ok_0.id@ == block_head(tv)
        },
{
    let t = trim(definition);
    let ghost tv = spec_trim(definition@);
    let n = t.as_str().unicode_len();
    let mut i: usize = 0;
    while i < n && t.as_str().get_char(i) != ':'
        invariant
            0 <= i <= n,
            forall|j: int| 0 <= j < i ==> tv[j] != ':',
        decreases n - i,
    {
        i = i + 1;
    }
    if i == n {
        proof {
            crate::text::lemma_find_char_none(tv, ':');
        }
        return Err(GeodesyError::Syntax(t));
    }
    proof {
        crate::text::lemma_find_char(tv, ':', i as int);
        assert(tv.subrange(0, i as int) =~= tv.take(i as int));
        assert(tv.subrange(i + 1, n as int) =~= tv.skip(i + 1));
    }
    let name = trim(t.as_str().substring_char(0, i));
    let rest = trim(t.as_str().substring_char(i + 1, n));
    assert(name@ == block_head(tv));
    assert(rest@ == block_body(tv));
    let inner = match strip_brackets(rest.as_str(), '{', '}') {
        Ok(x) => x,
        Err(e) => {
            return Err(e);
        },
    };
    assert(block_shape_ok(tv));
    let ghost iv = block_body(tv).subrange(1, block_body(tv).len() - 1);
    assert(inner@ == iv);
    let entries = split_top(inner.as_str(), ',');
    let ghost mapped = spec_split_top(iv, ',').map_values(|e: Seq<char>| spec_trim(e));
    let ghost be = block_entries(tv);

    let mut globals: Vec<(String, String)> = Vec::new();
    let mut steps: Vec<String> = Vec::new();
    let mut scalars: Vec<(String, String)> = Vec::new();
    let mut has_steps = false;

    proof {
        reveal(Seq::filter);
        assert(mapped.take(0) =~= Seq::<Seq<char>>::empty());
    }
    let mut j: usize = 0;
    let ghost hss = block_shape_ok(tv) && single_steps_block(tv);
    while j < entries.len()
        invariant
            0 <= j <= entries@.len(),
            has_steps ==> steps@.len() >= 1,
            is_primitive_block(tv) ==> !has_steps,
            is_primitive_block(tv) ==> pairs_view(scalars@) =~= mapped.take(j as int).filter(
                |e: Seq<char>| e.len() > 0,
            ).map_values(|e: Seq<char>| entry_pair(e)),
            pairs_view(scalars@) =~= mapped.take(j as int).filter(
                |e: Seq<char>| e.len() > 0,
            ).filter(|e: Seq<char>| !is_compound_key(e)).map_values(
                |e: Seq<char>| entry_pair(e),
            ),
            has_steps == exists|idx: int|
                0 <= idx < mapped.take(j as int).filter(|e: Seq<char>| e.len() > 0).len()
                    && entry_pair(#[trigger] be[idx]).0 == "steps"@,
            no_globals_table(tv) ==> pairs_view(globals@) =~= Seq::<
                (Seq<char>, Seq<char>),
            >::empty(),
            hss ==> pairs_view(scalars@) =~= Seq::<(Seq<char>, Seq<char>)>::empty(),
            hss ==> pairs_view(globals@) =~= Seq::<(Seq<char>, Seq<char>)>::empty(),
            hss && mapped.take(j as int).filter(|e: Seq<char>| e.len() > 0).len() == 0 ==> (
            !has_steps && steps@.len() == 0),
            hss && mapped.take(j as int).filter(|e: Seq<char>| e.len() > 0).len() >= 1 ==> (
            has_steps && steps@.map_values(|x: String| x@) =~= steps_of_value(
                entry_pair(be[0]).1,
            ).map_values(|sv: Seq<char>| rendered_sub(sv))),
        decreases entries@.len() - j,
    {
        let e = trim(entries[j].as_str());
        proof {
            reveal(Seq::filter);
            assert(e@ == mapped[j as int]);
            assert(mapped.take(j + 1).drop_last() =~= mapped.take(j as int));
            assert(mapped.take(j + 1).last() == mapped[j as int]);
        }
        if e.as_str().unicode_len() == 0 {
            proof {
                assert(mapped.take(j + 1).filter(|e2: Seq<char>| e2.len() > 0) =~= mapped.take(
                    j as int,
                ).filter(|e2: Seq<char>| e2.len() > 0));
            }
            j = j + 1;
            continue;
        }
        let ghost fsj = mapped.take(j as int).filter(|e2: Seq<char>| e2.len() > 0);
        proof {
            lemma_filter_take_prefix(mapped, |e2: Seq<char>| e2.len() > 0, j + 1);
            assert(mapped.take(mapped.len() as int) =~= mapped);
            lemma_filter_take_prefix(mapped, |e2: Seq<char>| e2.len() > 0, mapped.len() as int);
        }
        let ghost fs1 = mapped.take(j + 1).filter(|e2: Seq<char>| e2.len() > 0);
        proof {
            assert(fs1.last() == e@);
            assert(be[fs1.len() - 1] == e@) by {
                assert(fs1 == be.take(fs1.len() as int));
            }
        }
        let (k, v) = entry_to_pair(e.as_str());
        proof {
            assert(fs1.len() >= 1);
        }
        if crate::text::str_eq(k.as_str(), "steps") {
            proof {
                assert(entry_pair(be[fs1.len() - 1]).0 == "steps"@);
                assert(!is_primitive_block(tv));
            }
            let list = match strip_brackets(v.as_str(), '[', ']') {
                Ok(x) => x,
                Err(err) => {
                    proof {
                        if hss {
                            assert(be[0] == e@);
                            assert(false);
                        }
                    }
                    return Err(err);
                },
            };
            let ghost sval = entry_pair(e@).1;
            let ghost smapped = spec_split_top(sval.subrange(1, sval.len() - 1), ',').map_values(
                |e2: Seq<char>| spec_trim(e2),
            );
            proof {
                assert(list@ == sval.subrange(1, sval.len() - 1));
                assert(smapped.take(0) =~= Seq::<Seq<char>>::empty());
            }
            let subs = split_top(list.as_str(), ',');
            let mut p: usize = 0;
            let mut added = false;
            while p < subs.len()
                invariant
                    0 <= p <= subs@.len(),
                    added ==> steps@.len() >= 1,
                    has_steps ==> steps@.len() >= 1,
                    hss ==> steps@.map_values(|x: String| x@) =~= smapped.take(p as int).filter(
                        |e2: Seq<char>| e2.len() > 0,
                    ).map_values(|sv: Seq<char>| rendered_sub(sv)),
                    hss ==> added == (smapped.take(p as int).filter(
                        |e2: Seq<char>| e2.len() > 0,
                    ).len() > 0),
                decreases subs@.len() - p,
            {
                let sub = trim(subs[p].as_str());
                proof {
                    reveal(Seq::filter);
                    assert(sub@ == smapped[p as int]);
                    crate::text::lemma_trim_idempotent(subs@[p as int]@);
                    assert(smapped.take(p + 1).drop_last() =~= smapped.take(p as int));
                    assert(smapped.take(p + 1).last() == smapped[p as int]);
                }
                if sub.as_str().unicode_len() > 0 {
                    proof {
                        lemma_filter_take_prefix(smapped, |e2: Seq<char>| e2.len() > 0, p + 1);
                        assert(smapped.take(smapped.len() as int) =~= smapped);
                        lemma_filter_take_prefix(
                            smapped,
                            |e2: Seq<char>| e2.len() > 0,
                            smapped.len() as int,
                        );
                    }
                    let ghost gfs1 = smapped.take(p + 1).filter(|e2: Seq<char>| e2.len() > 0);
                    proof {
                        if hss {
                            assert(be[0] == e@);
                            assert(gfs1.last() == sub@);
                            assert(steps_of_value(sval)[gfs1.len() - 1] == sub@) by {
                                assert(gfs1 == steps_of_value(sval).take(gfs1.len() as int));
                            }
                            assert(sub_renders(sub@));
                        }
                    }
                    let rendered = match render_step(sub.as_str()) {
                        Ok(x) => x,
                        Err(err) => {
                            proof {
                                if hss {
                                    assert(false);
                                }
                            }
                            return Err(err);
                        },
                    };
                    proof {
                        if hss {
                            assert(rendered@ == rendered_sub(sub@));
                        }
                    }
                    let ghost prevsteps = steps@;
                    steps.push(rendered);
                    proof {
                        if hss {
                            let gfsp = smapped.take(p as int).filter(|e2: Seq<char>| e2.len() > 0);
                            assert(gfs1 =~= gfsp.push(sub@));
                            assert(gfs1.map_values(|sv: Seq<char>| rendered_sub(sv)) =~= gfsp
                                .map_values(|sv: Seq<char>| rendered_sub(sv)).push(
                                rendered_sub(sub@),
                            ));
                            assert(steps@.map_values(|x: String| x@) =~= prevsteps.map_values(
                                |x: String| x@,
                            ).push(rendered@)) by {
                                assert(steps@ =~= prevsteps.push(steps@.last()));
                            }
                        }
                    }
                    added = true;
                } else {
                    proof {
                        assert(smapped.take(p + 1).filter(|e2: Seq<char>| e2.len() > 0)
                            =~= smapped.take(p as int).filter(|e2: Seq<char>| e2.len() > 0));
                    }
                }
                p = p + 1;
            }
            proof {
                assert(smapped.take(subs@.len() as int) =~= smapped);
            }
            if !added {
                proof {
                    if hss {
                        assert(be[0] == e@);
                        assert(false);
                    }
                }
                return Err(GeodesyError::Syntax(e));
            }
            has_steps = true;
            proof {
                if hss {
                    assert(be[0] == e@);
                    assert(steps@.map_values(|x: String| x@) =~= steps_of_value(
                        entry_pair(be[0]).1,
                    ).map_values(|sv: Seq<char>| rendered_sub(sv)));
                }
                // The new entry is bookkeeping: the scalar tracking and
                // the steps witness both follow.
                assert(is_compound_key(e@));
                assert(fs1 =~= fsj.push(e@));
                reveal(Seq::filter);
                assert(fsj.push(e@).drop_last() =~= fsj);
                assert(fsj.push(e@).last() == e@);
                assert(fs1.filter(|e2: Seq<char>| !is_compound_key(e2)) =~= fsj.filter(
                    |e2: Seq<char>| !is_compound_key(e2),
                ));
                assert(entry_pair(be[fs1.len() - 1]).0 == "steps"@);
            }
        } else if crate::text::str_eq(k.as_str(), "globals") {
            proof {
                assert(entry_pair(be[fs1.len() - 1]).0 == "globals"@);
                assert(!is_primitive_block(tv));
                assert(!no_globals_table(tv));
                if hss {
                    assert(be[0] == e@);
                    assert(false);
                }
                assert(is_compound_key(e@));
                assert(fs1 =~= fsj.push(e@));
                reveal(Seq::filter);
                assert(fsj.push(e@).drop_last() =~= fsj);
                assert(fsj.push(e@).last() == e@);
                assert(fs1.filter(|e2: Seq<char>| !is_compound_key(e2)) =~= fsj.filter(
                    |e2: Seq<char>| !is_compound_key(e2),
                ));
            }
            let body = strip_brackets(v.as_str(), '{', '}')?;
            let subentries = split_top(body.as_str(), ',');
            let mut p: usize = 0;
            while p < subentries.len()
                invariant
                    0 <= p <= subentries@.len(),
                    has_steps ==> steps@.len() >= 1,
                decreases subentries@.len() - p,
            {
                let se = trim(subentries[p].as_str());
                if se.as_str().unicode_len() > 0 {
                    let pair = entry_to_pair(se.as_str());
                    globals.push(pair);
                }
                p = p + 1;
            }
        } else {
            proof {
                if hss {
                    assert(be[0] == e@);
                    assert(false);
                }
            }
            let ghost prev = pairs_view(scalars@);
            scalars.push((k, v));
            proof {
                assert(pairs_view(scalars@) =~= prev.push((k@, v@)));
                assert(fs1.map_values(|e2: Seq<char>| entry_pair(e2)).drop_last() =~= fs1
                    .drop_last().map_values(|e2: Seq<char>| entry_pair(e2)));
                assert(!is_compound_key(e@));
                assert(fs1 =~= fsj.push(e@));
                reveal(Seq::filter);
                assert(fsj.push(e@).drop_last() =~= fsj);
                assert(fsj.push(e@).last() == e@);
                assert(fs1.filter(|e2: Seq<char>| !is_compound_key(e2)) =~= fsj.filter(
                    |e2: Seq<char>| !is_compound_key(e2),
                ).push(e@));
                assert(fs1.filter(|e2: Seq<char>| !is_compound_key(e2)).map_values(
                    |e2: Seq<char>| entry_pair(e2),
                ) =~= fsj.filter(|e2: Seq<char>| !is_compound_key(e2)).map_values(
                    |e2: Seq<char>| entry_pair(e2),
                ).push((k@, v@)));
                assert(entry_pair(be[fs1.len() - 1]).0 != "steps"@);
            }
        }
        j = j + 1;
    }
    proof {
        assert(mapped.take(entries@.len() as int) =~= mapped);
    }

    if !has_steps {
        // A primitive definition: everything becomes one step, so that
        // step-level parameters such as `inv` keep their step scope.
        let ghost nh = name@;
        let ghost pv = pairs_view(scalars@);
        let mut step = name;
        let mut p: usize = 0;
        proof {
            assert(pv.take(0) =~= Seq::<(Seq<char>, Seq<char>)>::empty());
        }
        while p < scalars.len()
            invariant
                0 <= p <= scalars@.len(),
                pv == pairs_view(scalars@),
                step@ == nh + rendered_pairs(pv.take(p as int)),
            decreases scalars@.len() - p,
        {
            step.append(" ");
            step.append(scalars[p].0.as_str());
            step.append(":");
            step.append(scalars[p].1.as_str());
            proof {
                assert(pv.take(p + 1).drop_last() =~= pv.take(p as int));
                assert(pv.take(p + 1).last() == pv[p as int]);
            }
            p = p + 1;
        }
        proof {
            assert(pv.take(scalars@.len() as int) =~= pv);
            if is_primitive_block(tv) {
                assert(pv =~= be.map_values(|e2: Seq<char>| entry_pair(e2)));
                assert(step@ == rendered_primitive(tv));
            }
        }
        let mut steps1: Vec<String> = Vec::new();
        steps1.push(step);
        let empty_globals: Vec<(String, String)> = Vec::new();
        proof {
            assert(pairs_view(empty_globals@) =~= Seq::<(Seq<char>, Seq<char>)>::empty());
            if is_primitive_block(tv) {
                assert(steps1@.map_values(|x: String| x@) =~= seq![rendered_primitive(tv)]);
            }
        }
        return Ok(GysResource { id: String::new(), globals: empty_globals, steps: steps1 });
    }

    // Scalars of a pipeline block are its globals.
    proof {
        assert(pairs_view(scalars@) =~= scalar_pairs(tv));
        assert(scalar_pairs(tv).take(0) =~= Seq::<(Seq<char>, Seq<char>)>::empty());
    }
    let mut p: usize = 0;
    while p < scalars.len()
        invariant
            0 <= p <= scalars@.len(),
            steps@.len() >= 1,
            hss ==> pairs_view(globals@) =~= Seq::<(Seq<char>, Seq<char>)>::empty(),
            no_globals_table(tv) ==> pairs_view(globals@) =~= scalar_pairs(tv).take(p as int),
        decreases scalars@.len() - p,
    {
        let ghost prevg = pairs_view(globals@);
        globals.push((scalars[p].0.clone(), scalars[p].1.clone()));
        proof {
            assert(pairs_view(globals@) =~= prevg.push(
                (scalars@[p as int].0@, scalars@[p as int].1@),
            )) by {
                assert(globals@ =~= globals@.drop_last().push(globals@.last()));
            }
            if no_globals_table(tv) {
                assert(scalar_pairs(tv).take(p + 1) =~= scalar_pairs(tv).take(p as int).push(
                    scalar_pairs(tv)[p as int],
                ));
                assert(scalar_pairs(tv)[p as int] == (
                    scalars@[p as int].0@,
                    scalars@[p as int].1@,
                ));
            }
        }
        p = p + 1;
    }
    proof {
        if no_globals_table(tv) {
            assert(scalar_pairs(tv).take(scalars@.len() as int) =~= scalar_pairs(tv));
        }
    }
    Ok(GysResource { id: name, globals, steps })
}

} // verus!
