//! Parameter schemas (gamuts) and value validation.
//!
//! Numeric parameter values are plain decimals: an optional sign, at
//! least one integer digit, and an optional fraction. That is the whole
//! accepted grammar — scientific notation, a leading dot, infinities and
//! other spellings a general float reader would take are deliberately
//! construction errors here, so that what a definition says is exactly
//! what the kernels read, and a malformed number never becomes a runtime
//! surprise.

use vstd::prelude::*;

use crate::error::GeodesyError;
use crate::gys::pairs_view;
use crate::gys::spec_value;
use crate::gys::GysArgs;
use crate::text::all_digits;
use crate::text::digits_value;
use crate::text::find_char;
use crate::text::lemma_find_char;
use crate::text::lemma_find_char_none;

verus! {

/// The kinds a declared parameter can have.
#[derive(Clone, Copy, Debug, PartialEq, Eq, Structural)]
pub enum OpParameter {
    /// Present-or-absent; when present its value is "true".
    Flag,
    /// Free text.
    Text,
    /// A plain decimal number.
    Real,
    /// A non-negative integer.
    Natural,
    /// A comma-separated list of plain decimal numbers.
    Series,
    /// A comma-separated list of grid names.
    Grids,
}

/// `s` without a single leading sign character.
pub open spec fn sign_stripped(s: Seq<char>) -> Seq<char> {
    if s.len() > 0 && (s[0] == '+' || s[0] == '-') {
        s.skip(1)
    } else {
        s
    }
}

/// The digits before the first dot of the sign-stripped text.
pub open spec fn int_part(s: Seq<char>) -> Seq<char> {
    let t = sign_stripped(s);
    let k = find_char(t, '.');
    if k < 0 {
        t
    } else {
        t.take(k)
    }
}

/// The digits after the first dot of the sign-stripped text; empty when
/// there is no dot.
pub open spec fn frac_part(s: Seq<char>) -> Seq<char> {
    let t = sign_stripped(s);
    let k = find_char(t, '.');
    if k < 0 {
        Seq::empty()
    } else {
        t.skip(k + 1)
    }
}

/// A plain decimal: optional sign, at least one integer digit, optionally a
/// dot and fraction digits. (A second dot makes the fraction non-digit.)
pub open spec fn is_plain_decimal(s: Seq<char>) -> bool {
    &&& int_part(s).len() > 0
    &&& all_digits(int_part(s))
    &&& all_digits(frac_part(s))
}

/// Check the plain-decimal syntax, and hand back the integer and fraction
/// digit runs.
#[verifier::loop_isolation(false)]
pub fn parse_decimal(s: &str) -> (r: Option<(String, String)>)
    ensures
        match r {
            Some(p) => is_plain_decimal(s@) && p.0@ == int_part(s@) && p.1@ == frac_part(s@),
            None => !is_plain_decimal(s@),
        },
{
    let n = s.unicode_len();
    let start: usize = if n > 0 && (s.get_char(0) == '+' || s.get_char(0) == '-') {
        1
    } else {
        0
    };
    let t = s.substring_char(start, n);
    proof {
        assert(t@ =~= sign_stripped(s@));
    }
    let tn = t.unicode_len();
    let mut k: usize = 0;
    while k < tn && t.get_char(k) != '.'
        invariant
            tn == t@.len(),
            0 <= k <= tn,
            forall|j: int| 0 <= j < k ==> t@[j] != '.',
        decreases tn - k,
    {
        k = k + 1;
    }
    let ip: &str;
    let fp: &str;
    if k == tn {
        proof {
            lemma_find_char_none(t@, '.');
            reveal_strlit("");
        }
        ip = t;
        fp = "";
    } else {
        proof {
            lemma_find_char(t@, '.', k as int);
            assert(t@.subrange(0, k as int) =~= t@.take(k as int));
            assert(t@.subrange(k + 1, tn as int) =~= t@.skip(k + 1));
        }
        ip = t.substring_char(0, k);
        fp = t.substring_char(k + 1, tn);
    }
    assert(ip@ == int_part(s@));
    assert(fp@ == frac_part(s@));
    if ip.unicode_len() == 0 {
        return None;
    }
    let mut j: usize = 0;
    let ipn = ip.unicode_len();
    while j < ipn
        invariant
            ipn == ip@.len(),
            0 <= j <= ipn,
            forall|p: int| 0 <= p < j ==> '0' <= #[trigger] ip@[p] <= '9',
        decreases ipn - j,
    {
        let c = ip.get_char(j);
        if c < '0' || c > '9' {
            assert(!all_digits(ip@));
            return None;
        }
        j = j + 1;
    }
    let mut j2: usize = 0;
    let fpn = fp.unicode_len();
    while j2 < fpn
        invariant
            fpn == fp@.len(),
            0 <= j2 <= fpn,
            forall|p: int| 0 <= p < j2 ==> '0' <= #[trigger] fp@[p] <= '9',
        decreases fpn - j2,
    {
        let c = fp.get_char(j2);
        if c < '0' || c > '9' {
            assert(!all_digits(fp@));
            return None;
        }
        j2 = j2 + 1;
    }
    Some((String::from_str(ip), String::from_str(fp)))
}

/// Exec mirror of [`is_plain_decimal`].
pub fn check_plain_decimal(s: &str) -> (r: bool)
    ensures
        r == is_plain_decimal(s@),
{
    parse_decimal(s).is_some()
}

/// Whether a plain decimal's magnitude exceeds 90: its integer part is
/// above 90, or equal to 90 with a nonzero fraction digit.
pub open spec fn abs_exceeds_90(s: Seq<char>) -> bool {
    ||| digits_value(int_part(s)) > 90
    ||| (digits_value(int_part(s)) == 90 && exists|j: int|
        0 <= j < frac_part(s).len() && frac_part(s)[j] != '0')
}

/// Decide whether the magnitude of a plain decimal exceeds 90.
#[verifier::loop_isolation(false)]
pub fn exceeds_90(s: &str) -> (r: Option<bool>)
    ensures
        match r {
            Some(b) => is_plain_decimal(s@) && b == abs_exceeds_90(s@),
            None => !is_plain_decimal(s@),
        },
{
    let parts = match parse_decimal(s) {
        Some(p) => p,
        None => {
            return None;
        },
    };
    let iv = match crate::text::parse_natural(parts.0.as_str()) {
        Some(v) => v,
        None => {
            // More than a billion: far beyond 90 either way.
            proof {
                lemma_digits_big(int_part(s@));
            }
            return Some(true);
        },
    };
    if iv > 90 {
        return Some(true);
    }
    if iv < 90 {
        proof {
            lemma_digits_nonneg(frac_part(s@));
        }
        return Some(false);
    }
    let f = parts.1.as_str();
    let fn_ = f.unicode_len();
    let mut j: usize = 0;
    while j < fn_
        invariant
            fn_ == f@.len(),
            0 <= j <= fn_,
            forall|p: int| 0 <= p < j ==> f@[p] == '0',
        decreases fn_ - j,
    {
        if f.get_char(j) != '0' {
            assert(frac_part(s@)[j as int] != '0');
            return Some(true);
        }
        j = j + 1;
    }
    Some(false)
}

/// A digit string whose value cannot be read as a bounded natural exceeds
/// the bound.
proof fn lemma_digits_big(s: Seq<char>)
    requires
        all_digits(s),
        s.len() == 0 || digits_value(s) > 1_000_000_000,
    ensures
        s.len() > 0 ==> digits_value(s) > 90,
{
}

/// The value of a digit string is non-negative.
proof fn lemma_digits_nonneg(s: Seq<char>)
    requires
        all_digits(s),
    ensures
        digits_value(s) >= 0,
    decreases s.len(),
{
    if s.len() > 0 {
        lemma_digits_nonneg(s.take(s.len() - 1));
    }
}

/// Whether a resolved value is acceptable for a parameter kind.
pub open spec fn kind_accepts(kind: OpParameter, v: Seq<char>) -> bool {
    match kind {
        OpParameter::Flag => v == "true"@,
        OpParameter::Text => true,
        OpParameter::Real => is_plain_decimal(v),
        OpParameter::Natural => v.len() > 0 && all_digits(v) && digits_value(v)
            <= 1_000_000_000,
        OpParameter::Series => true,
        OpParameter::Grids => true,
    }
}

/// Exec mirror of [`kind_accepts`].
pub fn accepts(kind: OpParameter, v: &str) -> (r: bool)
    ensures
        r == kind_accepts(kind, v@),
{
    match kind {
        OpParameter::Flag => crate::text::str_eq(v, "true"),
        OpParameter::Text => true,
        OpParameter::Real => check_plain_decimal(v),
        OpParameter::Natural => crate::text::parse_natural(v).is_some(),
        OpParameter::Series => true,
        OpParameter::Grids => true,
    }
}

/// The declared key set of one gamut, as sequences.
pub open spec fn gamut_view(g: Seq<(&'static str, OpParameter)>) -> Seq<(Seq<char>, OpParameter)> {
    g.map_values(|p: (&'static str, OpParameter)| (p.0@, p.1))
}

/// The kind declared for `key`, if any.
pub open spec fn gamut_kind(g: Seq<(Seq<char>, OpParameter)>, key: Seq<char>) -> Option<
    OpParameter,
>
    decreases g.len(),
{
    if g.len() == 0 {
        None
    } else if g[0].0 == key {
        Some(g[0].1)
    } else {
        gamut_kind(g.skip(1), key)
    }
}

/// Exec lookup of a key's declared kind.
pub fn gamut_lookup(g: &Vec<(&'static str, OpParameter)>, key: &str) -> (r: Option<OpParameter>)
    ensures
        r == gamut_kind(gamut_view(g@), key@),
{
    let mut i: usize = 0;
    assert(gamut_view(g@).skip(0) =~= gamut_view(g@));
    while i < g.len()
        invariant
            0 <= i <= g@.len(),
            gamut_kind(gamut_view(g@), key@) == gamut_kind(
                gamut_view(g@).skip(i as int),
                key@,
            ),
        decreases g@.len() - i,
    {
        let p = g[i];
        if crate::text::str_eq(p.0, key) {
            proof {
                assert(gamut_view(g@).skip(i as int)[0] == (p.0@, p.1));
            }
            return Some(p.1);
        }
        proof {
            assert(gamut_view(g@).skip(i as int).skip(1) =~= gamut_view(g@).skip(i + 1));
            assert(gamut_view(g@).skip(i as int)[0] == (p.0@, p.1));
        }
        i = i + 1;
    }
    proof {
        assert(gamut_view(g@).skip(g@.len() as int) =~= Seq::<(Seq<char>, OpParameter)>::empty());
    }
    None
}

/// One local binding is acceptable: it is the step name, or its key is
/// declared, resolves, and the resolved value fits the declared kind.
pub open spec fn local_ok(
    locals: Seq<(Seq<char>, Seq<char>)>,
    globals: Seq<(Seq<char>, Seq<char>)>,
    g: Seq<(Seq<char>, OpParameter)>,
    i: int,
) -> bool {
    locals[i].0 == "name"@ || {
        &&& gamut_kind(g, locals[i].0) is Some
        &&& spec_value(locals, globals, locals[i].0) is Some
        &&& kind_accepts(
            gamut_kind(g, locals[i].0).unwrap(),
            spec_value(locals, globals, locals[i].0).unwrap(),
        )
    }
}

/// A step satisfies a gamut when every local key except "name" is declared,
/// resolves, and its resolved value fits the declared kind.
pub open spec fn step_fits_gamut(
    locals: Seq<(Seq<char>, Seq<char>)>,
    globals: Seq<(Seq<char>, Seq<char>)>,
    g: Seq<(Seq<char>, OpParameter)>,
) -> bool {
    forall|i: int| 0 <= i < locals.len() ==> #[trigger] local_ok(locals, globals, g, i)
}

/// Check a step's arguments against a gamut: unknown keys, dangling `^`
/// references, and ill-formed values are errors naming the offending key.
pub fn validate_step(args: &GysArgs, g: &Vec<(&'static str, OpParameter)>) -> (r: Result<
    (),
    GeodesyError,
>)
    ensures
        r is Ok <==> step_fits_gamut(
            pairs_view(args.locals@),
            pairs_view(args.globals@),
            gamut_view(g@),
        ),
{
    let n = args.locals.len();
    let mut i: usize = 0;
    while i < n
        invariant
            n == args.locals@.len(),
            0 <= i <= n,
            forall|j: int|
                0 <= j < i ==> #[trigger] local_ok(
                    pairs_view(args.locals@),
                    pairs_view(args.globals@),
                    gamut_view(g@),
                    j,
                ),
        decreases n - i,
    {
        let key = &args.locals[i].0;
        proof {
            assert(pairs_view(args.locals@)[i as int] == (
                args.locals@[i as int].0@,
                args.locals@[i as int].1@,
            ));
        }
        if !crate::text::str_eq(key.as_str(), "name") {
            let kind = match gamut_lookup(g, key.as_str()) {
                Some(k) => k,
                None => {
                    assert(!local_ok(
                        pairs_view(args.locals@),
                        pairs_view(args.globals@),
                        gamut_view(g@),
                        i as int,
                    ));
                    return Err(GeodesyError::Syntax(key.clone()));
                },
            };
            let v = match args.value(key.as_str()) {
                Some(v) => v,
                None => {
                    assert(!local_ok(
                        pairs_view(args.locals@),
                        pairs_view(args.globals@),
                        gamut_view(g@),
                        i as int,
                    ));
                    return Err(GeodesyError::Syntax(key.clone()));
                },
            };
            if !accepts(kind, v.as_str()) {
                assert(!local_ok(
                    pairs_view(args.locals@),
                    pairs_view(args.globals@),
                    gamut_view(g@),
                    i as int,
                ));
                return Err(GeodesyError::Syntax(key.clone()));
            }
        }
        assert(local_ok(
            pairs_view(args.locals@),
            pairs_view(args.globals@),
            gamut_view(g@),
            i as int,
        ));
        i = i + 1;
    }
    Ok(())
}

} // verus!
