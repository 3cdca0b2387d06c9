//! Small text utilities the parser is built on: splitting, tokenizing,
//! trimming. Each has a recursive specification that defines its result
//! exactly, character by character.

use vstd::prelude::*;

verus! {

/// The characters treated as blank between tokens.
pub open spec fn is_blank(c: char) -> bool {
    c == ' ' || c == '\t' || c == '\n' || c == '\r'
}

/// Exec mirror of [`is_blank`].
pub fn blank(c: char) -> (r: bool)
    ensures
        r == is_blank(c),
{
    c == ' ' || c == '\t' || c == '\n' || c == '\r'
}

/// Index of the first occurrence of `sep` in `s`, or -1 if there is none.
pub open spec fn find_char(s: Seq<char>, sep: char) -> int
    decreases s.len(),
{
    if s.len() == 0 {
        -1
    } else if s[0] == sep {
        0
    } else {
        let r = find_char(s.skip(1), sep);
        if r < 0 {
            -1
        } else {
            r + 1
        }
    }
}

/// `find_char` returns exactly the position of the first occurrence.
pub proof fn lemma_find_char(s: Seq<char>, sep: char, k: int)
    requires
        0 <= k < s.len(),
        s[k] == sep,
        forall|j: int| 0 <= j < k ==> s[j] != sep,
    ensures
        find_char(s, sep) == k,
    decreases s.len(),
{
    if k > 0 {
        lemma_find_char(s.skip(1), sep, k - 1);
    }
}

/// If `sep` is nowhere in `s`, `find_char` reports that.
pub proof fn lemma_find_char_none(s: Seq<char>, sep: char)
    requires
        forall|j: int| 0 <= j < s.len() ==> s[j] != sep,
    ensures
        find_char(s, sep) == -1,
    decreases s.len(),
{
    if s.len() > 0 {
        lemma_find_char_none(s.skip(1), sep);
    }
}

/// Split at every occurrence of `sep`. Every occurrence separates; empty
/// pieces are kept, so the result always has one piece more than `s` has
/// separators.
pub open spec fn spec_split(s: Seq<char>, sep: char) -> Seq<Seq<char>>
    decreases s.len(),
{
    let k = find_char(s, sep);
    if k < 0 || k >= s.len() {
        seq![s]
    } else {
        seq![s.take(k)] + spec_split(s.skip(k + 1), sep)
    }
}

/// What a non-negative `find_char` result means, and what -1 means.
pub proof fn lemma_find_char_props(s: Seq<char>, sep: char)
    ensures
        find_char(s, sep) >= 0 ==> {
            &&& find_char(s, sep) < s.len()
            &&& s[find_char(s, sep)] == sep
            &&& forall|j: int| 0 <= j < find_char(s, sep) ==> s[j] != sep
        },
        find_char(s, sep) == -1 ==> forall|j: int| 0 <= j < s.len() ==> s[j] != sep,
        find_char(s, sep) >= -1,
    decreases s.len(),
{
    if s.len() > 0 && s[0] != sep {
        lemma_find_char_props(s.skip(1), sep);
        let r = find_char(s.skip(1), sep);
        if r >= 0 {
            assert forall|j: int| 0 <= j < r + 1 implies s[j] != sep by {
                if j > 0 {
                    assert(s[j] == s.skip(1)[j - 1]);
                }
            }
        } else {
            assert forall|j: int| 0 <= j < s.len() implies s[j] != sep by {
                if j > 0 {
                    assert(s[j] == s.skip(1)[j - 1]);
                }
            }
        }
    }
}

/// Split `s` at every occurrence of `sep`.
pub fn split_on(s: &str, sep: char) -> (r: Vec<String>)
    ensures
        r@.map_values(|t: String| t@) =~= spec_split(s@, sep),
{
    let n = s.unicode_len();
    let mut r: Vec<String> = Vec::new();
    let mut start: usize = 0;
    let mut i: usize = 0;
    assert(s@.skip(0) =~= s@);
    while i < n
        invariant
            n == s@.len(),
            0 <= start <= i <= n,
            forall|j: int| start <= j < i ==> s@[j] != sep,
            spec_split(s@, sep) =~= r@.map_values(|t: String| t@) + spec_split(
                s@.skip(start as int),
                sep,
            ),
        decreases n - i,
    {
        let c = s.get_char(i);
        if c == sep {
            let piece = s.substring_char(start, i);
            let piece = String::from_str(piece);
            proof {
                let tail = s@.skip(start as int);
                lemma_find_char(tail, sep, i - start);
                assert(tail.take(i - start) =~= s@.subrange(start as int, i as int));
                assert(tail.skip(i - start + 1) =~= s@.skip(i + 1));
                assert(spec_split(tail, sep) =~= seq![s@.subrange(start as int, i as int)]
                    + spec_split(s@.skip(i + 1), sep));
            }
            let ghost prev = r@;
            r.push(piece);
            assert(r@.map_values(|t: String| t@) =~= prev.map_values(|t: String| t@).push(
                s@.subrange(start as int, i as int),
            )) by {
                assert(r@ =~= prev.push(piece));
            }
            start = i + 1;
        }
        i = i + 1;
    }
    let piece = s.substring_char(start, n);
    let piece = String::from_str(piece);
    proof {
        let tail = s@.skip(start as int);
        lemma_find_char_none(tail, sep);
        assert(tail.take(tail.len() as int) =~= tail);
        assert(tail =~= s@.subrange(start as int, n as int));
    }
    let ghost prev = r@;
    r.push(piece);
    assert(r@.map_values(|t: String| t@) =~= prev.map_values(|t: String| t@).push(
        s@.subrange(start as int, n as int),
    )) by {
        assert(r@ =~= prev.push(piece));
    }
    r
}

/// Leading blanks dropped.
pub open spec fn trim_front(s: Seq<char>) -> Seq<char>
    decreases s.len(),
{
    if s.len() > 0 && is_blank(s[0]) {
        trim_front(s.skip(1))
    } else {
        s
    }
}

/// Trailing blanks dropped.
pub open spec fn trim_back(s: Seq<char>) -> Seq<char>
    decreases s.len(),
{
    if s.len() > 0 && is_blank(s[s.len() - 1]) {
        trim_back(s.take(s.len() - 1))
    } else {
        s
    }
}

/// Blanks dropped from both ends.
pub open spec fn spec_trim(s: Seq<char>) -> Seq<char> {
    trim_back(trim_front(s))
}

proof fn lemma_trim_front_skip(s: Seq<char>, k: int)
    requires
        0 <= k <= s.len(),
        forall|j: int| 0 <= j < k ==> is_blank(s[j]),
    ensures
        trim_front(s) == trim_front(s.skip(k)),
    decreases k,
{
    if k > 0 {
        assert(s.skip(1).skip(k - 1) =~= s.skip(k));
        lemma_trim_front_skip(s.skip(1), k - 1);
    } else {
        assert(s.skip(0) =~= s);
    }
}

proof fn lemma_trim_front_fixed(s: Seq<char>)
    requires
        s.len() > 0 ==> !is_blank(s[0]),
    ensures
        trim_front(s) == s,
{
}

proof fn lemma_trim_back_take(s: Seq<char>, k: int)
    requires
        0 <= k <= s.len(),
        forall|j: int| k <= j < s.len() ==> is_blank(s[j]),
    ensures
        trim_back(s) == trim_back(s.take(k)),
    decreases s.len() - k,
{
    if k < s.len() {
        assert(s.take(s.len() - 1).take(k) =~= s.take(k));
        lemma_trim_back_take(s.take(s.len() - 1), k);
    } else {
        assert(s.take(s.len() as int) =~= s);
    }
}

proof fn lemma_trim_back_fixed(s: Seq<char>)
    requires
        s.len() > 0 ==> !is_blank(s[s.len() - 1]),
    ensures
        trim_back(s) == s,
{
}

/// A front-trimmed sequence starts with a non-blank, when it has one.
proof fn lemma_trim_front_first(s: Seq<char>)
    ensures
        trim_front(s).len() > 0 ==> !is_blank(trim_front(s)[0]),
    decreases s.len(),
{
    if s.len() > 0 && is_blank(s[0]) {
        lemma_trim_front_first(s.skip(1));
    }
}

/// A back-trimmed sequence ends with a non-blank, when it has one, and
/// keeps its first element.
proof fn lemma_trim_back_last(s: Seq<char>)
    ensures
        trim_back(s).len() > 0 ==> !is_blank(trim_back(s)[trim_back(s).len() - 1]),
        trim_back(s).len() > 0 ==> trim_back(s)[0] == s[0],
    decreases s.len(),
{
    if s.len() > 0 && is_blank(s[s.len() - 1]) {
        lemma_trim_back_last(s.take(s.len() - 1));
    }
}

/// Trimming is idempotent: a trimmed sequence has nothing more to trim.
pub proof fn lemma_trim_idempotent(s: Seq<char>)
    ensures
        spec_trim(spec_trim(s)) == spec_trim(s),
{
    let t = spec_trim(s);
    lemma_trim_front_first(s);
    lemma_trim_back_last(trim_front(s));
    if t.len() > 0 {
        assert(!is_blank(t[0]));
        assert(!is_blank(t[t.len() - 1]));
    }
    lemma_trim_front_fixed(t);
    lemma_trim_back_fixed(t);
}

/// Copy of `s` with the blanks dropped from both ends.
pub fn trim(s: &str) -> (r: String)
    ensures
        r@ =~= spec_trim(s@),
{
    let n = s.unicode_len();
    let mut a: usize = 0;
    while a < n && blank(s.get_char(a))
        invariant
            n == s@.len(),
            0 <= a <= n,
            forall|j: int| 0 <= j < a ==> is_blank(s@[j]),
        decreases n - a,
    {
        a = a + 1;
    }
    let mut b: usize = n;
    while b > a && blank(s.get_char(b - 1))
        invariant
            n == s@.len(),
            a <= b <= n,
            forall|j: int| b <= j < n ==> is_blank(s@[j]),
            forall|j: int| 0 <= j < a ==> is_blank(s@[j]),
        decreases b,
    {
        b = b - 1;
    }
    let piece = s.substring_char(a, b);
    let r = String::from_str(piece);
    proof {
        lemma_trim_front_skip(s@, a as int);
        let t = s@.skip(a as int);
        if a < n && b == a {
            assert(is_blank(s@[a as int]));
            assert(false);
        }
        if b > a {
            assert(!is_blank(t[0])) by {
                assert(t[0] == s@[a as int]);
            }
        }
        lemma_trim_front_fixed(t);
        assert(trim_front(s@) == t);
        lemma_trim_back_take(t, b - a);
        assert(t.take(b - a) =~= s@.subrange(a as int, b as int));
        if b > a {
            assert(!is_blank(s@[b - 1]));
        }
        lemma_trim_back_fixed(s@.subrange(a as int, b as int));
    }
    r
}

/// Character-for-character equality of two strings.
pub fn str_eq(a: &str, b: &str) -> (r: bool)
    ensures
        r == (a@ == b@),
{
    let na = a.unicode_len();
    let nb = b.unicode_len();
    if na != nb {
        return false;
    }
    let mut i: usize = 0;
    while i < na
        invariant
            na == a@.len(),
            na == b@.len(),
            0 <= i <= na,
            forall|j: int| 0 <= j < i ==> a@[j] == b@[j],
        decreases na - i,
    {
        if a.get_char(i) != b.get_char(i) {
            return false;
        }
        i = i + 1;
    }
    proof {
        assert(a@ =~= b@);
    }
    true
}

/// Whether `s` begins with `prefix`.
pub fn starts_with(s: &str, prefix: &str) -> (r: bool)
    ensures
        r == (s@.len() >= prefix@.len() && s@.take(prefix@.len() as int) == prefix@),
{
    let n = s.unicode_len();
    let p = prefix.unicode_len();
    if n < p {
        return false;
    }
    let head = s.substring_char(0, p);
    let r = str_eq(head, prefix);
    proof {
        assert(s@.subrange(0, p as int) =~= s@.take(p as int));
    }
    r
}

/// The numeric value of a sequence of decimal digits, read left to right.
pub open spec fn digits_value(s: Seq<char>) -> int
    decreases s.len(),
{
    if s.len() == 0 {
        0
    } else {
        digits_value(s.take(s.len() - 1)) * 10 + (s[s.len() - 1] as int - '0' as int)
    }
}

/// Whether every character is a decimal digit.
pub open spec fn all_digits(s: Seq<char>) -> bool {
    forall|j: int| 0 <= j < s.len() ==> '0' <= #[trigger] s[j] <= '9'
}

/// Read a non-empty, all-digit string as a natural number. Anything else,
/// or a value above 1 000 000 000, is `None`.
pub fn parse_natural(s: &str) -> (r: Option<u64>)
    ensures
        match r {
            Some(v) => {
                &&& s@.len() > 0
                &&& all_digits(s@)
                &&& v == digits_value(s@)
                &&& v <= 1_000_000_000
            },
            None => s@.len() == 0 || !all_digits(s@) || digits_value(s@) > 1_000_000_000,
        },
{
    let n = s.unicode_len();
    if n == 0 {
        return None;
    }
    let mut v: u64 = 0;
    let mut i: usize = 0;
    while i < n
        invariant
            n == s@.len(),
            0 <= i <= n,
            all_digits(s@.take(i as int)),
            v == digits_value(s@.take(i as int)),
            v <= 1_000_000_000,
        decreases n - i,
    {
        let c = s.get_char(i);
        if c < '0' || c > '9' {
            assert(!all_digits(s@)) by {
                assert(s@[i as int] == c);
            }
            return None;
        }
        let d = (c as u32 - '0' as u32) as u64;
        assert(d <= 9);
        let next = v * 10 + d;
        assert(s@.take(i + 1).take(i as int) =~= s@.take(i as int));
        assert(next == digits_value(s@.take(i + 1)));
        if next > 1_000_000_000 {
            proof {
                if all_digits(s@) {
                    lemma_digits_value_monotone(s@, i + 1);
                }
            }
            return None;
        }
        v = next;
        i = i + 1;
    }
    assert(s@.take(n as int) =~= s@);
    Some(v)
}

/// Once a digit prefix exceeds a bound, the whole digit string does too.
proof fn lemma_digits_value_monotone(s: Seq<char>, k: int)
    requires
        0 <= k <= s.len(),
        all_digits(s),
        digits_value(s.take(k)) > 1_000_000_000,
    ensures
        digits_value(s) > 1_000_000_000,
    decreases s.len() - k,
{
    if k < s.len() {
        assert(s.take(k + 1).take(k) =~= s.take(k));
        assert(digits_value(s.take(k + 1)) == digits_value(s.take(k)) * 10 + (s[k] as int
            - '0' as int));
        lemma_digits_value_monotone(s, k + 1);
    } else {
        assert(s.take(k) =~= s);
    }
}


/// Whether `p` occurs in `s` beginning at `i`.
pub open spec fn match_at(s: Seq<char>, p: Seq<char>, i: int) -> bool {
    0 <= i && i + p.len() <= s.len() && s.subrange(i, i + p.len()) == p
}

/// Index of the first occurrence of `p` in `s`, or -1 if there is none.
/// The empty pattern occurs nowhere.
pub open spec fn find_sub(s: Seq<char>, p: Seq<char>) -> int
    decreases s.len(),
{
    if p.len() == 0 {
        -1
    } else if s.len() < p.len() {
        -1
    } else if s.take(p.len() as int) == p {
        0
    } else {
        let r = find_sub(s.skip(1), p);
        if r < 0 {
            -1
        } else {
            r + 1
        }
    }
}

pub proof fn lemma_find_sub_exact(s: Seq<char>, p: Seq<char>, k: int)
    requires
        p.len() > 0,
        match_at(s, p, k),
        forall|j: int| 0 <= j < k ==> !match_at(s, p, j),
    ensures
        find_sub(s, p) == k,
    decreases s.len(),
{
    if k == 0 {
        assert(s.take(p.len() as int) =~= s.subrange(0, p.len() as int));
    } else {
        assert(!match_at(s, p, 0));
        assert(s.take(p.len() as int) =~= s.subrange(0, p.len() as int));
        let s2 = s.skip(1);
        assert(match_at(s2, p, k - 1)) by {
            assert(s2.subrange(k - 1, k - 1 + p.len()) =~= s.subrange(k, k + p.len()));
        }
        assert forall|j: int| 0 <= j < k - 1 implies !match_at(s2, p, j) by {
            assert(!match_at(s, p, j + 1));
            if j + p.len() <= s2.len() {
                assert(s2.subrange(j, j + p.len()) =~= s.subrange(j + 1, j + 1 + p.len()));
            }
        }
        lemma_find_sub_exact(s2, p, k - 1);
    }
}

pub proof fn lemma_find_sub_none(s: Seq<char>, p: Seq<char>)
    requires
        forall|j: int| 0 <= j <= s.len() - p.len() ==> !match_at(s, p, j),
    ensures
        p.len() > 0 ==> find_sub(s, p) == -1,
    decreases s.len(),
{
    if p.len() > 0 && s.len() >= p.len() {
        assert(!match_at(s, p, 0));
        assert(s.take(p.len() as int) =~= s.subrange(0, p.len() as int));
        let s2 = s.skip(1);
        assert forall|j: int| 0 <= j <= s2.len() - p.len() implies !match_at(s2, p, j) by {
            assert(!match_at(s, p, j + 1));
            assert(s2.subrange(j, j + p.len()) =~= s.subrange(j + 1, j + 1 + p.len()));
        }
        lemma_find_sub_none(s2, p);
    }
}

/// Every occurrence of `p` in `s` replaced by `r`, scanning left to right
/// without rescanning what was inserted. The empty pattern replaces
/// nothing.
pub open spec fn spec_replace_all(s: Seq<char>, p: Seq<char>, r: Seq<char>) -> Seq<char>
    decreases s.len(),
{
    if p.len() == 0 {
        s
    } else {
        let k = find_sub(s, p);
        if k < 0 || k + p.len() > s.len() {
            s
        } else {
            s.take(k) + r + spec_replace_all(s.skip(k + p.len()), p, r)
        }
    }
}

/// Replace every occurrence of `pat` in `s` by `rep`.
#[verifier::loop_isolation(false)]
pub fn replace_all(s: &str, pat: &str, rep: &str) -> (r: String)
    ensures
        r@ == spec_replace_all(s@, pat@, rep@),
{
    let n = s.unicode_len();
    let plen = pat.unicode_len();
    if plen == 0 {
        return String::from_str(s);
    }
    if plen > n {
        proof {
            lemma_find_sub_none(s@, pat@);
        }
        return String::from_str(s);
    }
    let mut out = String::new();
    let mut start: usize = 0;
    let mut i: usize = 0;
    assert(s@.skip(0) =~= s@);
    while i <= n - plen
        invariant
            0 <= start <= i <= n,
            forall|j: int| 0 <= j < i - start ==> !match_at(s@.skip(start as int), pat@, j),
            spec_replace_all(s@, pat@, rep@) == out@ + spec_replace_all(
                s@.skip(start as int),
                pat@,
                rep@,
            ),
        decreases n - i,
    {
        let window = s.substring_char(i, i + plen);
        if str_eq(window, pat) {
            proof {
                let tail = s@.skip(start as int);
                assert(match_at(tail, pat@, i - start)) by {
                    assert(tail.subrange(i - start, i - start + pat@.len()) =~= s@.subrange(
                        i as int,
                        i + plen,
                    ));
                }
                lemma_find_sub_exact(tail, pat@, i - start);
                assert(tail.take(i - start) =~= s@.subrange(start as int, i as int));
                assert(tail.skip(i - start + plen) =~= s@.skip(i + plen));
            }
            out.append(s.substring_char(start, i));
            out.append(rep);
            i = i + plen;
            start = i;
        } else {
            proof {
                let tail = s@.skip(start as int);
                assert(!match_at(tail, pat@, i - start)) by {
                    assert(tail.subrange(i - start, i - start + pat@.len()) =~= s@.subrange(
                        i as int,
                        i + plen,
                    ));
                }
                assert forall|j: int| 0 <= j < i + 1 - start implies !match_at(
                    tail,
                    pat@,
                    j,
                ) by {
                }
            }
            i = i + 1;
        }
    }
    proof {
        let tail = s@.skip(start as int);
        assert forall|j: int| 0 <= j <= tail.len() - pat@.len() implies !match_at(
            tail,
            pat@,
            j,
        ) by {
            if j + start < i {
            } else {
                assert(j + start + plen > n);
            }
        }
        lemma_find_sub_none(tail, pat@);
        assert(tail =~= s@.subrange(start as int, n as int));
    }
    out.append(s.substring_char(start, n));
    out
}

} // verus!
