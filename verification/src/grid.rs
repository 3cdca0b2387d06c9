//! In-memory geodetic grids and the per-point decision of the grid shift
//! operator.
//!
//! A grid's bounds and cell sizes are double-precision bit patterns; the
//! order used on them is the bit-level order that coincides with the
//! numeric order of finite doubles: non-negative patterns order as
//! integers, sign-set patterns order in reverse, and the two zeros are
//! equal. One band marks a geoid grid (a height correction); two or more
//! mark a datum shift grid (a planar correction).

use vstd::prelude::*;

use crate::coord::Coor4D;
use crate::error::GeodesyError;

verus! {

/// The bit pattern with only the sign bit set: negative zero.
pub const SIGN_BIT: u64 = 0x8000_0000_0000_0000;

/// The rank of a double-precision bit pattern in the bit-level order.
pub open spec fn ieee_key(x: u64) -> int {
    if x >= SIGN_BIT {
        -((x - SIGN_BIT) as int)
    } else {
        x as int
    }
}

/// Compare two double-precision bit patterns in the bit-level order.
pub fn ieee_le(a: u64, b: u64) -> (r: bool)
    ensures
        r == (ieee_key(a) <= ieee_key(b)),
{
    if a >= SIGN_BIT {
        if b >= SIGN_BIT {
            b - SIGN_BIT <= a - SIGN_BIT
        } else {
            true
        }
    } else {
        if b >= SIGN_BIT {
            a == 0 && b == SIGN_BIT
        } else {
            a <= b
        }
    }
}

/// An in-memory grid: its extent (already expanded by the operator's
/// padding), its cell sizes, its shape, and its samples as
/// single-precision bit patterns, row-major with bands interleaved.
#[derive(Clone, Debug)]
pub struct Grid {
    pub lat_min: u64,
    pub lat_max: u64,
    pub lon_min: u64,
    pub lon_max: u64,
    pub dlat: u64,
    pub dlon: u64,
    pub rows: usize,
    pub cols: usize,
    pub bands: usize,
    pub samples: Vec<u32>,
}

/// A sound grid: at least one band, and one sample per band per cell.
pub open spec fn grid_wf(g: Grid) -> bool {
    &&& g.bands >= 1
    &&& g.samples@.len() == g.rows * g.cols * g.bands
}

impl Grid {
    /// Assemble a grid, refusing an empty band count or a sample count
    /// that does not match the shape. Samples arrive as single-precision
    /// bit patterns.
    pub fn new(
        lat_min: u64,
        lat_max: u64,
        lon_min: u64,
        lon_max: u64,
        dlat: u64,
        dlon: u64,
        rows: usize,
        cols: usize,
        bands: usize,
        samples: Vec<u32>,
    ) -> (r: Result<Grid, GeodesyError>)
        ensures
            r is Ok <==> bands >= 1 && samples@.len() == rows * cols * bands,
            r is Ok ==> {
                let g = r->Ok_0;
                &&& grid_wf(g)
                &&& g.lat_min == lat_min
                &&& g.lat_max == lat_max
                &&& g.lon_min == lon_min
                &&& g.lon_max == lon_max
                &&& g.dlat == dlat
                &&& g.dlon == dlon
                &&& g.rows == rows
                &&& g.cols == cols
                &&& g.bands == bands
                &&& g.samples@ == samples@
            },
    {
        if bands < 1 {
            return Err(
                GeodesyError::General("a grid needs at least one band"),
            );
        }
        let sl = samples.len();
        proof {
            assert((rows as u128) * (cols as u128) <= 0xffff_ffff_ffff_ffffu128
                * 0xffff_ffff_ffff_ffffu128) by (nonlinear_arith)
                requires
                    rows as u128 <= 0xffff_ffff_ffff_ffffu128,
                    cols as u128 <= 0xffff_ffff_ffff_ffffu128,
            ;
        }
        let rc: u128 = (rows as u128) * (cols as u128);
        if rc > 0xffff_ffff_ffff_ffffu128 {
            // More cells than any sample vector can hold.
            proof {
                assert((rows * cols) * bands >= rows * cols) by (nonlinear_arith)
                    requires
                        bands >= 1,
                        rows >= 0,
                        cols >= 0,
                ;
                assert(samples@.len() == sl as int);
            }
            return Err(
                GeodesyError::General("grid shape does not match its sample count"),
            );
        }
        proof {
            assert(rc * (bands as u128) <= 0xffff_ffff_ffff_ffffu128
                * 0xffff_ffff_ffff_ffffu128) by (nonlinear_arith)
                requires
                    rc <= 0xffff_ffff_ffff_ffffu128,
                    bands as u128 <= 0xffff_ffff_ffff_ffffu128,
            ;
        }
        let rcb: u128 = rc * (bands as u128);
        if (sl as u128) != rcb {
            return Err(
                GeodesyError::General("grid shape does not match its sample count"),
            );
        }
        Ok(
            Grid {
                lat_min,
                lat_max,
                lon_min,
                lon_max,
                dlat,
                dlon,
                rows,
                cols,
                bands,
                samples,
            },
        )
    }

    /// Number of bands: 1 for a geoid, 2 or more for a datum shift.
    pub fn bands(&self) -> (r: usize)
        ensures
            r == self.bands,
    {
        self.bands
    }

    /// Whether the (padded) extent holds the point, in the bit-level
    /// order on its longitude and latitude.
    pub fn contains(&self, coord: &Coor4D) -> (r: bool)
        ensures
            r == spec_contains(*self, *coord),
    {
        ieee_le(self.lon_min, coord.0) && ieee_le(coord.0, self.lon_max) && ieee_le(
            self.lat_min,
            coord.1,
        ) && ieee_le(coord.1, self.lat_max)
    }
}

/// Whether a grid's extent holds a point.
pub open spec fn spec_contains(g: Grid, c: Coor4D) -> bool {
    &&& ieee_key(g.lon_min) <= ieee_key(c.0) <= ieee_key(g.lon_max)
    &&& ieee_key(g.lat_min) <= ieee_key(c.1) <= ieee_key(g.lat_max)
}

/// What the grid shift operator does to one point.
#[derive(Clone, Copy, Debug, PartialEq, Eq, Structural)]
pub enum GridAction {
    /// Interpolate the named grid and correct the height.
    Geoid(usize),
    /// Interpolate the named grid and correct longitude and latitude.
    Datum(usize),
    /// No grid matched, but the null grid was named: leave the point be.
    PassThrough,
    /// No grid matched and no null grid was named: invalidate the point.
    Invalidate,
}

/// Index of the first grid whose extent holds the point, or -1.
pub open spec fn first_containing(grids: Seq<Grid>, c: Coor4D) -> int
    decreases grids.len(),
{
    if grids.len() == 0 {
        -1
    } else if spec_contains(grids[0], c) {
        0
    } else {
        let r = first_containing(grids.skip(1), c);
        if r < 0 {
            -1
        } else {
            r + 1
        }
    }
}

proof fn lemma_first_containing(grids: Seq<Grid>, c: Coor4D, k: int)
    requires
        0 <= k < grids.len(),
        spec_contains(grids[k], c),
        forall|j: int| 0 <= j < k ==> !spec_contains(grids[j], c),
    ensures
        first_containing(grids, c) == k,
    decreases grids.len(),
{
    if k > 0 {
        assert forall|j: int| 0 <= j < k - 1 implies !spec_contains(grids.skip(1)[j], c) by {
            assert(grids.skip(1)[j] == grids[j + 1]);
        }
        assert(grids.skip(1)[k - 1] == grids[k]);
        lemma_first_containing(grids.skip(1), c, k - 1);
    }
}

proof fn lemma_first_containing_none(grids: Seq<Grid>, c: Coor4D)
    requires
        forall|j: int| 0 <= j < grids.len() ==> !spec_contains(grids[j], c),
    ensures
        first_containing(grids, c) == -1,
    decreases grids.len(),
{
    if grids.len() > 0 {
        assert forall|j: int| 0 <= j < grids.len() - 1 implies !spec_contains(
            grids.skip(1)[j],
            c,
        ) by {
            assert(grids.skip(1)[j] == grids[j + 1]);
        }
        lemma_first_containing_none(grids.skip(1), c);
    }
}

/// What happens to a point: the first grid holding it is interpolated —
/// on the height for one band, on the plane otherwise — and a point no
/// grid holds passes through under the null grid, or is invalidated
/// without it.
pub open spec fn spec_decide(grids: Seq<Grid>, use_null: bool, c: Coor4D) -> GridAction {
    let k = first_containing(grids, c);
    if k >= 0 {
        if grids[k].bands == 1 {
            GridAction::Geoid(k as usize)
        } else {
            GridAction::Datum(k as usize)
        }
    } else if use_null {
        GridAction::PassThrough
    } else {
        GridAction::Invalidate
    }
}

/// Decide what the forward grid shift does to one point, scanning the
/// grids in order.
#[verifier::loop_isolation(false)]
pub fn decide(grids: &Vec<Grid>, use_null: bool, coord: &Coor4D) -> (r: GridAction)
    ensures
        r == spec_decide(grids@, use_null, *coord),
{
    let n = grids.len();
    let mut i: usize = 0;
    while i < n
        invariant
            0 <= i <= n,
            forall|j: int| 0 <= j < i ==> !spec_contains(grids@[j], *coord),
        decreases n - i,
    {
        if grids[i].contains(coord) {
            proof {
                lemma_first_containing(grids@, *coord, i as int);
            }
            if grids[i].bands() == 1 {
                return GridAction::Geoid(i);
            }
            return GridAction::Datum(i);
        }
        i = i + 1;
    }
    proof {
        lemma_first_containing_none(grids@, *coord);
    }
    if use_null {
        GridAction::PassThrough
    } else {
        GridAction::Invalidate
    }
}

/// Decide what the inverse grid shift does to one point: the grids are
/// scanned in reverse order.
#[verifier::loop_isolation(false)]
pub fn decide_inverse(grids: &Vec<Grid>, use_null: bool, coord: &Coor4D) -> (r: GridAction)
    ensures
        r == spec_decide(grids@.reverse(), use_null, *coord),
{
    let n = grids.len();
    let mut i: usize = 0;
    while i < n
        invariant
            0 <= i <= n,
            forall|j: int| 0 <= j < i ==> !spec_contains(grids@.reverse()[j], *coord),
        decreases n - i,
    {
        if grids[n - 1 - i].contains(coord) {
            proof {
                assert(grids@.reverse()[i as int] == grids@[n - 1 - i]);
                lemma_first_containing(grids@.reverse(), *coord, i as int);
            }
            if grids[n - 1 - i].bands() == 1 {
                return GridAction::Geoid(i);
            }
            return GridAction::Datum(i);
        }
        proof {
            assert(grids@.reverse()[i as int] == grids@[n - 1 - i]);
        }
        i = i + 1;
    }
    proof {
        lemma_first_containing_none(grids@.reverse(), *coord);
    }
    if use_null {
        GridAction::PassThrough
    } else {
        GridAction::Invalidate
    }
}

/// How many points a grid shift reports as transformed: one for each
/// point a grid was applied to, except a planar correction whose inverse
/// iteration did not converge — such a point stays at its last iterate
/// but is flagged by the count. Invalidated and passed-through points are
/// never counted.
pub open spec fn spec_success_count(actions: Seq<GridAction>, converged: Seq<bool>) -> int
    decreases actions.len(),
{
    if actions.len() == 0 {
        0
    } else {
        spec_success_count(actions.drop_last(), converged.drop_last()) + (match actions.last() {
            GridAction::Geoid(_) => 1int,
            GridAction::Datum(_) => if converged.last() {
                1int
            } else {
                0int
            },
            GridAction::PassThrough => 0int,
            GridAction::Invalidate => 0int,
        })
    }
}

/// Tally the success count of a batch from its per-point decisions and,
/// for planar corrections, whether the inverse iteration converged (a
/// forward application always converges).
pub fn success_count(actions: &Vec<GridAction>, converged: &Vec<bool>) -> (r: usize)
    requires
        actions@.len() == converged@.len(),
    ensures
        r == spec_success_count(actions@, converged@),
{
    let n = actions.len();
    let mut r: usize = 0;
    let mut i: usize = 0;
    while i < n
        invariant
            n == actions@.len(),
            n == converged@.len(),
            0 <= i <= n,
            r <= i,
            r == spec_success_count(actions@.take(i as int), converged@.take(i as int)),
        decreases n - i,
    {
        proof {
            assert(actions@.take(i + 1).drop_last() =~= actions@.take(i as int));
            assert(converged@.take(i + 1).drop_last() =~= converged@.take(i as int));
            assert(actions@.take(i + 1).last() == actions@[i as int]);
            assert(converged@.take(i + 1).last() == converged@[i as int]);
        }
        match actions[i] {
            GridAction::Geoid(_) => {
                r = r + 1;
            },
            GridAction::Datum(_) => {
                if converged[i] {
                    r = r + 1;
                }
            },
            GridAction::PassThrough => {},
            GridAction::Invalidate => {},
        }
        i = i + 1;
    }
    proof {
        assert(actions@.take(n as int) =~= actions@);
        assert(converged@.take(n as int) =~= converged@);
    }
    r
}

/// A point outside every grid is invalidated, unless the null grid was
/// named, in which case it passes through unchanged — in both scan
/// orders.
pub proof fn lemma_unmatched_point(grids: Seq<Grid>, c: Coor4D)
    requires
        forall|j: int| 0 <= j < grids.len() ==> !spec_contains(grids[j], c),
    ensures
        spec_decide(grids, false, c) == GridAction::Invalidate,
        spec_decide(grids, true, c) == GridAction::PassThrough,
{
    lemma_first_containing_none(grids, c);
}

/// The null grid alone is the identity: a grid shift built from the
/// `@null` sentinel holds no grids, so every point, whatever its value,
/// passes through untouched in both directions.
pub proof fn lemma_null_grid_identity(c: Coor4D)
    ensures
        spec_decide(Seq::<Grid>::empty(), true, c) == GridAction::PassThrough,
{
}

} // verus!
