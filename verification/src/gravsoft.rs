//! The line-oriented text grid format: the text and shape layer.
//!
//! A file is lines of whitespace-separated numeric tokens; `#` begins a
//! comment that runs to the end of its line. Six header values come
//! first, then row-major samples; the band count is whatever evenly
//! covers the samples. Reading the tokens as numbers is the caller's,
//! floating point being beyond the library.

use vstd::prelude::*;

use crate::gys::spec_tokens;
use crate::gys::tokens;
use crate::text::spec_split;
use crate::text::split_on;

verus! {

/// A line with its comment cut off: what stands before its first `#`.
pub open spec fn decomment(l: Seq<char>) -> Seq<char> {
    spec_split(l, '#')[0]
}

/// The numeric tokens of a sequence of lines, comments cut, in order.
pub open spec fn tokens_of_lines(lines: Seq<Seq<char>>) -> Seq<Seq<char>>
    decreases lines.len(),
{
    if lines.len() == 0 {
        Seq::empty()
    } else {
        tokens_of_lines(lines.drop_last()) + spec_tokens(decomment(lines.last()))
    }
}

/// The token stream of a whole file: its lines split, each stripped of
/// its comment and broken at blanks.
pub open spec fn spec_gravsoft_tokens(s: Seq<char>) -> Seq<Seq<char>> {
    tokens_of_lines(spec_split(s, '\n'))
}

/// Tokenize a text grid: every line's comment dropped, the rest split at
/// blanks, in file order.
pub fn gravsoft_tokens(text: &str) -> (r: Vec<String>)
    ensures
        r@.map_values(|t: String| t@) =~= spec_gravsoft_tokens(text@),
{
    let lines = split_on(text, '\n');
    let ghost lv = spec_split(text@, '\n');
    let mut out: Vec<String> = Vec::new();
    let mut i: usize = 0;
    proof {
        assert(lv.take(0) =~= Seq::<Seq<char>>::empty());
    }
    while i < lines.len()
        invariant
            0 <= i <= lines@.len(),
            lines@.map_values(|t: String| t@) =~= lv,
            out@.map_values(|t: String| t@) =~= tokens_of_lines(lv.take(i as int)),
        decreases lines@.len() - i,
    {
        let line = &lines[i];
        let pieces = split_on(line.as_str(), '#');
        let code = &pieces[0];
        proof {
            assert(pieces@.map_values(|t: String| t@)[0] == code@);
            assert(code@ == decomment(lv[i as int]));
        }
        let toks = tokens(code.as_str());
        let ghost prev = out@;
        let mut j: usize = 0;
        while j < toks.len()
            invariant
                0 <= j <= toks@.len(),
                out@ =~= prev + toks@.take(j as int),
            decreases toks@.len() - j,
        {
            out.push(toks[j].clone());
            assert(out@ =~= prev + toks@.take(j + 1));
            j = j + 1;
        }
        proof {
            assert(toks@.take(toks@.len() as int) =~= toks@);
            assert(out@ =~= prev + toks@);
            assert(lv.take(i + 1).drop_last() =~= lv.take(i as int));
            assert(lv.take(i + 1).last() == lv[i as int]);
            assert(out@.map_values(|t: String| t@) =~= prev.map_values(|t: String| t@)
                + toks@.map_values(|t: String| t@));
        }
        i = i + 1;
    }
    proof {
        assert(lv.take(lv.len() as int) =~= lv);
    }
    out
}

/// The band count a token total infers: after the six header values, the
/// samples must cover the cells evenly, at least once.
pub fn infer_bands(total_tokens: usize, rows: usize, cols: usize) -> (r: Option<usize>)
    ensures
        match r {
            Some(b) => {
                &&& total_tokens >= 6
                &&& rows * cols > 0
                &&& b >= 1
                &&& b * (rows * cols) == total_tokens - 6
            },
            None => total_tokens < 6 || rows * cols == 0 || total_tokens == 6 || (
            total_tokens - 6) % (rows * cols) != 0,
        },
{
    if total_tokens < 6 {
        return None;
    }
    if rows == 0 || cols == 0 {
        return None;
    }
    proof {
        assert((rows as u128) * (cols as u128) <= 0xffff_ffff_ffff_ffffu128
            * 0xffff_ffff_ffff_ffffu128) by (nonlinear_arith)
            requires
                rows as u128 <= 0xffff_ffff_ffff_ffffu128,
                cols as u128 <= 0xffff_ffff_ffff_ffffu128,
        ;
        assert((rows as u128) * (cols as u128) >= 1) by (nonlinear_arith)
            requires
                rows >= 1,
                cols >= 1,
        ;
    }
    let cells_wide: u128 = (rows as u128) * (cols as u128);
    let samples = (total_tokens - 6) as u128;
    if samples == 0 {
        return None;
    }
    if samples % cells_wide != 0 {
        proof {
            assert(rows * cols > 0) by (nonlinear_arith)
                requires
                    rows >= 1,
                    cols >= 1,
            ;
        }
        return None;
    }
    let b = samples / cells_wide;
    proof {
        assert(b * cells_wide == samples) by (nonlinear_arith)
            requires
                cells_wide > 0,
                samples % cells_wide == 0,
                b == samples / cells_wide,
        ;
        assert(b >= 1) by (nonlinear_arith)
            requires
                cells_wide >= 1,
                samples >= 1,
                b == samples / cells_wide,
                b * cells_wide == samples,
        ;
        assert(b <= samples) by (nonlinear_arith)
            requires
                cells_wide >= 1,
                b * cells_wide == samples,
                b >= 0,
        ;
    }
    Some(b as usize)
}

} // verus!
