//! Coordinate value types and the `CoordinateSet` capability.
//!
//! A coordinate component is the bit pattern of an IEEE 754 double, held as a
//! `u64`. The engine's plumbing moves these patterns around unchanged, so its
//! behaviour can be stated exactly; numerical kernels interpret them.

use vstd::prelude::*;

verus! {

/// The bit pattern of the quiet NaN that marks an invalid or absent
/// double-precision component.
pub const NAN_BITS: u64 = 0x7ff8_0000_0000_0000;

/// The bit pattern of the double 0.0.
pub const ZERO_BITS: u64 = 0;

/// A 2D coordinate: two double-precision bit patterns.
#[derive(Clone, Copy, Debug, PartialEq, Eq, Structural)]
pub struct Coor2D(pub u64, pub u64);

/// A 3D coordinate: three double-precision bit patterns.
#[derive(Clone, Copy, Debug, PartialEq, Eq, Structural)]
pub struct Coor3D(pub u64, pub u64, pub u64);

/// A 4D coordinate: four double-precision bit patterns. This is the wide
/// form every operator reads and writes, so height and epoch pass through
/// narrower containers undisturbed.
#[derive(Clone, Copy, Debug, PartialEq, Eq, Structural)]
pub struct Coor4D(pub u64, pub u64, pub u64, pub u64);

impl View for Coor2D {
    type V = Seq<u64>;

    open spec fn view(&self) -> Seq<u64> {
        seq![self.0, self.1]
    }
}

impl View for Coor3D {
    type V = Seq<u64>;

    open spec fn view(&self) -> Seq<u64> {
        seq![self.0, self.1, self.2]
    }
}

impl View for Coor4D {
    type V = Seq<u64>;

    open spec fn view(&self) -> Seq<u64> {
        seq![self.0, self.1, self.2, self.3]
    }
}

impl Coor2D {
    /// The two components, exactly as given.
    pub fn raw(c0: u64, c1: u64) -> (r: Coor2D)
        ensures
            r == Coor2D(c0, c1),
    {
        Coor2D(c0, c1)
    }

    /// Component by index.
    pub fn get(&self, index: usize) -> (r: u64)
        requires
            index < 2,
        ensures
            r == self@[index as int],
    {
        if index == 0 {
            self.0
        } else {
            self.1
        }
    }
}

impl Coor3D {
    /// The three components, exactly as given.
    pub fn raw(c0: u64, c1: u64, c2: u64) -> (r: Coor3D)
        ensures
            r == Coor3D(c0, c1, c2),
    {
        Coor3D(c0, c1, c2)
    }

    /// Component by index.
    pub fn get(&self, index: usize) -> (r: u64)
        requires
            index < 3,
        ensures
            r == self@[index as int],
    {
        if index == 0 {
            self.0
        } else if index == 1 {
            self.1
        } else {
            self.2
        }
    }
}

impl Coor4D {
    /// The four components, exactly as given.
    pub fn raw(c0: u64, c1: u64, c2: u64, c3: u64) -> (r: Coor4D)
        ensures
            r == Coor4D(c0, c1, c2, c3),
    {
        Coor4D(c0, c1, c2, c3)
    }

    /// The all-invalid coordinate: every component is the NaN pattern.
    /// Writing it invalidates a point.
    pub fn nan() -> (r: Coor4D)
        ensures
            r == Coor4D(NAN_BITS, NAN_BITS, NAN_BITS, NAN_BITS),
    {
        Coor4D(NAN_BITS, NAN_BITS, NAN_BITS, NAN_BITS)
    }

    /// The origin: every component is the pattern of 0.0.
    pub fn origin() -> (r: Coor4D)
        ensures
            r == Coor4D(ZERO_BITS, ZERO_BITS, ZERO_BITS, ZERO_BITS),
    {
        Coor4D(ZERO_BITS, ZERO_BITS, ZERO_BITS, ZERO_BITS)
    }

    /// Component by index.
    pub fn get(&self, index: usize) -> (r: u64)
        requires
            index < 4,
        ensures
            r == self@[index as int],
    {
        if index == 0 {
            self.0
        } else if index == 1 {
            self.1
        } else if index == 2 {
            self.2
        } else {
            self.3
        }
    }

    /// Replace one component.
    pub fn set(&mut self, index: usize, value: u64)
        requires
            index < 4,
        ensures
            final(self)@ =~= old(self)@.update(index as int, value),
    {
        if index == 0 {
            self.0 = value;
        } else if index == 1 {
            self.1 = value;
        } else if index == 2 {
            self.2 = value;
        } else {
            self.3 = value;
        }
    }
}

/// A coordinate with its first two components exchanged: the axis reorder
/// between the east-north and north-east conventions.
pub open spec fn spec_swap_xy(c: Coor4D) -> Coor4D {
    Coor4D(c.1, c.0, c.2, c.3)
}

impl Coor4D {
    /// The same coordinate with its first two components exchanged.
    pub fn swapped_xy(&self) -> (r: Coor4D)
        ensures
            r == spec_swap_xy(*self),
    {
        Coor4D(self.1, self.0, self.2, self.3)
    }
}

/// Exchanging the first two components twice gives back the original
/// coordinate exactly: the reordering half of a round trip through the
/// north-east convention is the identity, bit for bit.
pub proof fn lemma_axis_swap_involution(c: Coor4D)
    ensures
        spec_swap_xy(spec_swap_xy(c)) == c,
{
}

/// The capability that lets one operator body serve containers of any width:
/// a container exposes its length and a read/write view of each element as a
/// 4D coordinate. Narrow containers pad the missing height with 0.0 and the
/// missing epoch with NaN on read, and discard them on write.
pub trait CoordinateSet: Sized {
    /// Number of coordinates held.
    spec fn spec_len(&self) -> nat;

    /// The container read element by element as 4D.
    spec fn coords(&self) -> Seq<Coor4D>;

    /// What a written 4D value reads back as: the identity for 4D
    /// containers, a padded truncation for narrower ones.
    spec fn stored(&self, value: Coor4D) -> Coor4D;

    /// The 4D view has exactly one element per coordinate held.
    proof fn coords_len(&self)
        ensures
            self.coords().len() == self.spec_len(),
    ;

    /// Number of coordinates held.
    fn len(&self) -> (r: usize)
        ensures
            r == self.spec_len(),
    ;

    /// Native dimensionality of the container, between 2 and 4.
    fn dim(&self) -> (r: usize)
        ensures
            2 <= r <= 4,
    ;

    /// One coordinate, read as 4D.
    fn get_coord(&self, index: usize) -> (r: Coor4D)
        requires
            index < self.spec_len(),
        ensures
            r == self.coords()[index as int],
    ;

    /// Overwrite one coordinate from a 4D value. Components beyond the
    /// container's width are discarded; the rest are stored bit for bit.
    fn set_coord(&mut self, index: usize, value: &Coor4D)
        requires
            index < old(self).spec_len(),
        ensures
            final(self).spec_len() == old(self).spec_len(),
            final(self).coords() =~= old(self).coords().update(
                index as int,
                old(self).stored(*value),
            ),
            forall|w: Coor4D| final(self).stored(w) == old(self).stored(w),
    ;

    /// Whether the container is empty.
    fn is_empty(&self) -> (r: bool)
        ensures
            r == (self.spec_len() == 0),
    {
        self.len() == 0
    }

    /// First and second component of one coordinate.
    fn xy(&self, index: usize) -> (r: (u64, u64))
        requires
            index < self.spec_len(),
        ensures
            r.0 == self.coords()[index as int].0,
            r.1 == self.coords()[index as int].1,
    {
        let c = self.get_coord(index);
        (c.0, c.1)
    }

    /// First three components of one coordinate.
    fn xyz(&self, index: usize) -> (r: (u64, u64, u64))
        requires
            index < self.spec_len(),
        ensures
            r.0 == self.coords()[index as int].0,
            r.1 == self.coords()[index as int].1,
            r.2 == self.coords()[index as int].2,
    {
        let c = self.get_coord(index);
        (c.0, c.1, c.2)
    }

    /// All four components of one coordinate.
    fn xyzt(&self, index: usize) -> (r: (u64, u64, u64, u64))
        requires
            index < self.spec_len(),
        ensures
            r.0 == self.coords()[index as int].0,
            r.1 == self.coords()[index as int].1,
            r.2 == self.coords()[index as int].2,
            r.3 == self.coords()[index as int].3,
    {
        let c = self.get_coord(index);
        (c.0, c.1, c.2, c.3)
    }

    /// Overwrite the first two components of one coordinate, keeping the
    /// stored height and epoch of the present value.
    fn set_xy(&mut self, index: usize, x: u64, y: u64)
        requires
            index < old(self).spec_len(),
        ensures
            final(self).spec_len() == old(self).spec_len(),
            final(self).coords() =~= old(self).coords().update(
                index as int,
                old(self).stored(
                    Coor4D(
                        x,
                        y,
                        old(self).coords()[index as int].2,
                        old(self).coords()[index as int].3,
                    ),
                ),
            ),
            forall|w: Coor4D| final(self).stored(w) == old(self).stored(w),
    {
        let c = self.get_coord(index);
        let n = Coor4D(x, y, c.2, c.3);
        self.set_coord(index, &n);
    }

    /// Overwrite the first three components of one coordinate, keeping the
    /// stored epoch of the present value.
    fn set_xyz(&mut self, index: usize, x: u64, y: u64, z: u64)
        requires
            index < old(self).spec_len(),
        ensures
            final(self).spec_len() == old(self).spec_len(),
            final(self).coords() =~= old(self).coords().update(
                index as int,
                old(self).stored(Coor4D(x, y, z, old(self).coords()[index as int].3)),
            ),
            forall|w: Coor4D| final(self).stored(w) == old(self).stored(w),
    {
        let c = self.get_coord(index);
        let n = Coor4D(x, y, z, c.3);
        self.set_coord(index, &n);
    }

    /// Overwrite all four components of one coordinate.
    fn set_xyzt(&mut self, index: usize, x: u64, y: u64, z: u64, t: u64)
        requires
            index < old(self).spec_len(),
        ensures
            final(self).spec_len() == old(self).spec_len(),
            final(self).coords() =~= old(self).coords().update(
                index as int,
                old(self).stored(Coor4D(x, y, z, t)),
            ),
            forall|w: Coor4D| final(self).stored(w) == old(self).stored(w),
    {
        let n = Coor4D(x, y, z, t);
        self.set_coord(index, &n);
    }
}

/// How a 2D element is read as 4D: height 0.0, epoch NaN.
pub open spec fn widen2(c: Coor2D) -> Coor4D {
    Coor4D(c.0, c.1, ZERO_BITS, NAN_BITS)
}

/// How a 3D element is read as 4D: epoch NaN.
pub open spec fn widen3(c: Coor3D) -> Coor4D {
    Coor4D(c.0, c.1, c.2, NAN_BITS)
}

impl CoordinateSet for Vec<Coor4D> {
    open spec fn spec_len(&self) -> nat {
        self@.len()
    }

    open spec fn coords(&self) -> Seq<Coor4D> {
        self@
    }

    open spec fn stored(&self, value: Coor4D) -> Coor4D {
        value
    }

    proof fn coords_len(&self) {
    }

    fn len(&self) -> usize {
        self.as_slice().len()
    }

    fn dim(&self) -> usize {
        4
    }

    fn get_coord(&self, index: usize) -> Coor4D {
        self[index]
    }

    fn set_coord(&mut self, index: usize, value: &Coor4D) {
        self.set(index, *value);
    }
}

impl CoordinateSet for Vec<Coor3D> {
    open spec fn spec_len(&self) -> nat {
        self@.len()
    }

    open spec fn coords(&self) -> Seq<Coor4D> {
        self@.map_values(|c: Coor3D| widen3(c))
    }

    open spec fn stored(&self, value: Coor4D) -> Coor4D {
        Coor4D(value.0, value.1, value.2, NAN_BITS)
    }

    proof fn coords_len(&self) {
    }

    fn len(&self) -> usize {
        self.as_slice().len()
    }

    fn dim(&self) -> usize {
        3
    }

    fn get_coord(&self, index: usize) -> (r: Coor4D)
        ensures
            r == self.coords()[index as int],
    {
        let c = self[index];
        Coor4D(c.0, c.1, c.2, NAN_BITS)
    }

    fn set_coord(&mut self, index: usize, value: &Coor4D) {
        let c = Coor3D(value.0, value.1, value.2);
        self.set(index, c);
        assert(final(self).coords() =~= old(self).coords().update(
            index as int,
            old(self).stored(*value),
        ));
    }
}

impl CoordinateSet for Vec<Coor2D> {
    open spec fn spec_len(&self) -> nat {
        self@.len()
    }

    open spec fn coords(&self) -> Seq<Coor4D> {
        self@.map_values(|c: Coor2D| widen2(c))
    }

    open spec fn stored(&self, value: Coor4D) -> Coor4D {
        Coor4D(value.0, value.1, ZERO_BITS, NAN_BITS)
    }

    proof fn coords_len(&self) {
    }

    fn len(&self) -> usize {
        self.as_slice().len()
    }

    fn dim(&self) -> usize {
        2
    }

    fn get_coord(&self, index: usize) -> (r: Coor4D)
        ensures
            r == self.coords()[index as int],
    {
        let c = self[index];
        Coor4D(c.0, c.1, ZERO_BITS, NAN_BITS)
    }

    fn set_coord(&mut self, index: usize, value: &Coor4D) {
        let c = Coor2D(value.0, value.1);
        self.set(index, c);
        assert(final(self).coords() =~= old(self).coords().update(
            index as int,
            old(self).stored(*value),
        ));
    }
}

impl<const N: usize> CoordinateSet for [Coor4D; N] {
    open spec fn spec_len(&self) -> nat {
        N as nat
    }

    open spec fn coords(&self) -> Seq<Coor4D> {
        self@
    }

    open spec fn stored(&self, value: Coor4D) -> Coor4D {
        value
    }

    proof fn coords_len(&self) {
    }

    fn len(&self) -> usize {
        N
    }

    fn dim(&self) -> usize {
        4
    }

    fn get_coord(&self, index: usize) -> Coor4D {
        self[index]
    }

    fn set_coord(&mut self, index: usize, value: &Coor4D) {
        self[index] = *value;
    }
}

impl<const N: usize> CoordinateSet for [Coor3D; N] {
    open spec fn spec_len(&self) -> nat {
        N as nat
    }

    open spec fn coords(&self) -> Seq<Coor4D> {
        self@.map_values(|c: Coor3D| widen3(c))
    }

    open spec fn stored(&self, value: Coor4D) -> Coor4D {
        Coor4D(value.0, value.1, value.2, NAN_BITS)
    }

    proof fn coords_len(&self) {
    }

    fn len(&self) -> usize {
        N
    }

    fn dim(&self) -> usize {
        3
    }

    fn get_coord(&self, index: usize) -> (r: Coor4D)
        ensures
            r == self.coords()[index as int],
    {
        let c = self[index];
        Coor4D(c.0, c.1, c.2, NAN_BITS)
    }

    fn set_coord(&mut self, index: usize, value: &Coor4D) {
        self[index] = Coor3D(value.0, value.1, value.2);
        assert(final(self).coords() =~= old(self).coords().update(
            index as int,
            old(self).stored(*value),
        ));
    }
}

impl<const N: usize> CoordinateSet for [Coor2D; N] {
    open spec fn spec_len(&self) -> nat {
        N as nat
    }

    open spec fn coords(&self) -> Seq<Coor4D> {
        self@.map_values(|c: Coor2D| widen2(c))
    }

    open spec fn stored(&self, value: Coor4D) -> Coor4D {
        Coor4D(value.0, value.1, ZERO_BITS, NAN_BITS)
    }

    proof fn coords_len(&self) {
    }

    fn len(&self) -> usize {
        N
    }

    fn dim(&self) -> usize {
        2
    }

    fn get_coord(&self, index: usize) -> (r: Coor4D)
        ensures
            r == self.coords()[index as int],
    {
        let c = self[index];
        Coor4D(c.0, c.1, ZERO_BITS, NAN_BITS)
    }

    fn set_coord(&mut self, index: usize, value: &Coor4D) {
        self[index] = Coor2D(value.0, value.1);
        assert(final(self).coords() =~= old(self).coords().update(
            index as int,
            old(self).stored(*value),
        ));
    }
}

/// A narrow container paired with a fixed height and epoch, viewed as 4D.
impl<T: CoordinateSet> CoordinateSet for (T, u64, u64) {
    open spec fn spec_len(&self) -> nat {
        self.0.spec_len()
    }

    open spec fn coords(&self) -> Seq<Coor4D> {
        self.0.coords().map_values(|c: Coor4D| Coor4D(c.0, c.1, self.1, self.2))
    }

    open spec fn stored(&self, value: Coor4D) -> Coor4D {
        Coor4D(self.0.stored(value).0, self.0.stored(value).1, self.1, self.2)
    }

    proof fn coords_len(&self) {
        self.0.coords_len();
    }

    fn len(&self) -> usize {
        self.0.len()
    }

    fn dim(&self) -> usize {
        4
    }

    fn get_coord(&self, index: usize) -> (r: Coor4D)
        ensures
            r == self.coords()[index as int],
    {
        proof {
            self.0.coords_len();
        }
        let c = self.0.get_coord(index);
        Coor4D(c.0, c.1, self.1, self.2)
    }

    fn set_coord(&mut self, index: usize, value: &Coor4D) {
        proof {
            self.0.coords_len();
        }
        self.0.set_coord(index, value);
        assert(final(self).coords() =~= old(self).coords().update(
            index as int,
            old(self).stored(*value),
        ));
    }
}

/// A narrow container paired with a fixed epoch, viewed as 4D.
impl<T: CoordinateSet> CoordinateSet for (T, u64) {
    open spec fn spec_len(&self) -> nat {
        self.0.spec_len()
    }

    open spec fn coords(&self) -> Seq<Coor4D> {
        self.0.coords().map_values(|c: Coor4D| Coor4D(c.0, c.1, c.2, self.1))
    }

    open spec fn stored(&self, value: Coor4D) -> Coor4D {
        Coor4D(
            self.0.stored(value).0,
            self.0.stored(value).1,
            self.0.stored(value).2,
            self.1,
        )
    }

    proof fn coords_len(&self) {
        self.0.coords_len();
    }

    fn len(&self) -> usize {
        self.0.len()
    }

    fn dim(&self) -> usize {
        4
    }

    fn get_coord(&self, index: usize) -> (r: Coor4D)
        ensures
            r == self.coords()[index as int],
    {
        proof {
            self.0.coords_len();
        }
        let c = self.0.get_coord(index);
        Coor4D(c.0, c.1, c.2, self.1)
    }

    fn set_coord(&mut self, index: usize, value: &Coor4D) {
        proof {
            self.0.coords_len();
        }
        self.0.set_coord(index, value);
        assert(final(self).coords() =~= old(self).coords().update(
            index as int,
            old(self).stored(*value),
        ));
    }
}

/// An identifier for a piece of coordinate metadata.
#[derive(Clone, Copy, Debug)]
pub struct MdIdentifier(pub uuid::Uuid);

#[verifier::external_type_specification]
#[verifier::external_body]
pub struct ExUuid(uuid::Uuid);

/// Relies on uuid::Uuid::new_v4 for a freshly generated identifier. The
/// value is random, so nothing is promised of it. Should the operating
/// system's randomness source fail, the call aborts the process — an
/// environmental failure, independent of any input, of the same character
/// as resource exhaustion.
#[verifier::external_body]
fn fresh_uuid() -> uuid::Uuid {
    uuid::Uuid::new_v4()
}

impl MdIdentifier {
    /// A fresh identifier.
    pub fn new() -> Self {
        MdIdentifier(fresh_uuid())
    }
}

impl Default for MdIdentifier {
    fn default() -> Self {
        MdIdentifier(fresh_uuid())
    }
}

/// The epoch of a dataset, as a double-precision bit pattern.
#[derive(Clone, Copy, Debug)]
pub struct DataEpoch(pub u64);

impl DataEpoch {
    /// An undefined epoch: the NaN pattern.
    pub fn new() -> (r: Self)
        ensures
            r.0 == NAN_BITS,
    {
        DataEpoch(NAN_BITS)
    }
}

} // verus!
