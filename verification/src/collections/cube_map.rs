//! A cube of 16 x 16 x 16 values, stored as a palette vector of 4096 slots.
//!
//! A position `(x, y, z)` is packed into one index with four bits per axis: `x` in bits 0 to
//! 3, `z` in bits 4 to 7 and `y` from bit 8 up.

use vstd::prelude::*;
use vstd::laws_eq::obeys_concrete_eq;
use vstd::std_specs::convert::{FromSpec, FromSpecImpl};
use vstd::std_specs::iter::IteratorSpec;

use std::hash::Hash;

use crate::collections::log2::lemma_ceil_log2_pow2;
use crate::collections::palette_vec::{
    index_width_for, palette_of, palette_with, recolored, PaletteVec, PaletteVecIterator,
};

verus! {

/// The number of slots of a cube map with 16 values along each axis.
pub const CUBE16_LEN: usize = 4096;

/// The index of position `(x, y, z)`: `(y << 8) | (z << 4) | x`.
pub open spec fn encode16(x: usize, y: usize, z: usize) -> usize {
    (y << 8) | (z << 4) | x
}

/// The position `(x, y, z)` of an index: `(i & 0xF, i >> 8, (i >> 4) & 0xF)`.
pub open spec fn decode16(index: usize) -> (usize, usize, usize) {
    (index & 0xF, index >> 8, (index >> 4) & 0xF)
}

proof fn lemma_pack16_bits(x: usize, y: usize, z: usize)
    by (bit_vector)
    requires
        x < 16,
        y < 16,
        z < 16,
    ensures
        ((y << 8) | (z << 4) | x) & 0xF == x,
        ((y << 8) | (z << 4) | x) >> 8 == y,
        (((y << 8) | (z << 4) | x) >> 4) & 0xF == z,
        ((y << 8) | (z << 4) | x) < 4096,
        ((y << 8) | (z << 4) | x) == y * 256 + z * 16 + x,
{
}

proof fn lemma_unpack16_bits(index: usize)
    by (bit_vector)
    requires
        index < 4096,
    ensures
        index & 0xF < 16,
        index >> 8 < 16,
        (index >> 4) & 0xF < 16,
        ((index >> 8) << 8) | ((((index >> 4) & 0xF)) << 4) | (index & 0xF) == index,
{
}

/// A position in the cube reads back from its index as it was packed, and its index is the
/// position counted in rows of 16 and layers of 256.
pub proof fn lemma_decode16_encode16(x: usize, y: usize, z: usize)
    requires
        x < 16,
        y < 16,
        z < 16,
    ensures
        decode16(encode16(x, y, z)) == (x, y, z),
        encode16(x, y, z) < 4096,
        encode16(x, y, z) == y * 256 + z * 16 + x,
{
    lemma_pack16_bits(x, y, z);
}

/// An index of the cube packs again from its position as it was.
pub proof fn lemma_encode16_decode16(index: usize)
    requires
        index < 4096,
    ensures
        decode16(index).0 < 16,
        decode16(index).1 < 16,
        decode16(index).2 < 16,
        encode16(decode16(index).0, decode16(index).1, decode16(index).2) == index,
{
    lemma_unpack16_bits(index);
}

/// The index of a slot of a [`CubeMap16`].
#[derive(Copy, Clone, Debug, PartialEq, Eq, Structural, Hash)]
pub struct CubeMapIndex16(usize);

impl View for CubeMapIndex16 {
    type V = usize;

    /// The index as a number.
    closed spec fn view(&self) -> usize {
        self.0
    }
}

impl CubeMapIndex16 {
    /// The position along the x axis: the low four bits.
    #[inline]
    pub fn x(self) -> (x: usize)
        ensures
            x == decode16(self@).0,
            x == self@ & 0xF,
    {
        self.0 & 0b1111
    }

    /// The position along the y axis: the bits from bit 8 up.
    #[inline]
    pub fn y(self) -> (y: usize)
        ensures
            y == decode16(self@).1,
            y == self@ >> 8,
    {
        self.0 >> 8
    }

    /// The position along the z axis: bits 4 to 7.
    #[inline]
    pub fn z(self) -> (z: usize)
        ensures
            z == decode16(self@).2,
            z == (self@ >> 4) & 0xF,
    {
        (self.0 >> 4) & 0b1111
    }
}

impl Default for CubeMapIndex16 {
    /// Index zero: the position `(0, 0, 0)`.
    #[inline]
    fn default() -> (index: CubeMapIndex16)
        ensures
            index@ == 0,
    {
        CubeMapIndex16(0)
    }
}

impl From<usize> for CubeMapIndex16 {
    #[inline]
    fn from(value: usize) -> (index: CubeMapIndex16) {
        CubeMapIndex16(value)
    }
}

impl FromSpecImpl<usize> for CubeMapIndex16 {
    open spec fn obeys_from_spec() -> bool {
        true
    }

    closed spec fn from_spec(value: usize) -> CubeMapIndex16 {
        CubeMapIndex16(value)
    }
}

impl From<(usize, usize, usize)> for CubeMapIndex16 {
    #[inline]
    fn from(value: (usize, usize, usize)) -> (index: CubeMapIndex16) {
        CubeMapIndex16(value.1 << 8 | value.2 << 4 | value.0)
    }
}

impl FromSpecImpl<(usize, usize, usize)> for CubeMapIndex16 {
    open spec fn obeys_from_spec() -> bool {
        true
    }

    closed spec fn from_spec(value: (usize, usize, usize)) -> CubeMapIndex16 {
        CubeMapIndex16(encode16(value.0, value.1, value.2))
    }
}

impl From<CubeMapIndex16> for (usize, usize, usize) {
    #[inline]
    fn from(index: CubeMapIndex16) -> (position: (usize, usize, usize)) {
        (index.0 & 0b1111, index.0 >> 8, (index.0 >> 4) & 0b1111)
    }
}

impl FromSpecImpl<CubeMapIndex16> for (usize, usize, usize) {
    open spec fn obeys_from_spec() -> bool {
        true
    }

    open spec fn from_spec(index: CubeMapIndex16) -> (usize, usize, usize) {
        decode16(index@)
    }
}

/// What the conversions into an index give: a number as it is, a position packed.
pub proof fn lemma_index16_from(value: usize, x: usize, y: usize, z: usize)
    ensures
        <CubeMapIndex16 as FromSpec<usize>>::from_spec(value)@ == value,
        <CubeMapIndex16 as FromSpec<(usize, usize, usize)>>::from_spec((x, y, z))@ == encode16(
            x,
            y,
            z,
        ),
{
}

/// A cube map of length 16: one value for every position `(x, y, z)` below 16 on each axis.
#[derive(Debug)]
pub struct CubeMap16<T> where T: Eq + Default + Hash + Clone {
    inner: PaletteVec<T>,
}

impl<T> View for CubeMap16<T> where T: Eq + Default + Hash + Clone {
    type V = Seq<T>;

    /// The value of every slot, by index.
    closed spec fn view(&self) -> Seq<T> {
        self.inner@
    }
}

impl<T> CubeMap16<T> where T: Eq + Default + Hash + Clone {
    /// The palette vector that stores the slots.
    pub closed spec fn palette_vec(&self) -> PaletteVec<T> {
        self.inner
    }

    /// The cube has its 4096 slots, in a well-formed palette vector.
    pub open spec fn wf(&self) -> bool {
        &&& self.palette_vec().wf()
        &&& self.palette_vec()@ == self@
        &&& self@.len() == 4096
    }

    /// A cube whose every slot holds `value`. It takes one palette entry and four bits a slot.
    #[inline]
    pub fn filled(value: T) -> (cube: CubeMap16<T>)
        ensures
            cube.wf(),
            cube@ == Seq::new(4096, |i: int| value),
            cube.palette_vec().palette() == seq![value],
            cube.palette_vec().index_width() == 4,
    {
        proof {
            lemma_ceil_log2_pow2(4);
        }
        CubeMap16 { inner: PaletteVec::filled(16, CUBE16_LEN, value) }
    }

    /// The value at `index`.
    #[inline]
    pub fn get(&self, index: CubeMapIndex16) -> (value: &T)
        requires
            self.wf(),
            index@ < 4096,
        ensures
            *value == self@[index@ as int],
    {
        self.inner.get(index.0)
    }

    /// The palette entry that the slot at `index` points to, for writing.
    ///
    /// Every slot that holds this value sees what is written through the reference.
    #[inline]
    pub fn get_identical_mut(&mut self, index: CubeMapIndex16) -> (entry: &mut T)
        requires
            old(self).wf(),
            index@ < 4096,
        ensures
            *entry == old(self)@[index@ as int],
            final(self).wf(),
            final(self).palette_vec().indices() == old(self).palette_vec().indices(),
            final(self).palette_vec().index_width() == old(self).palette_vec().index_width(),
            final(self).palette_vec().palette() == old(self).palette_vec().palette().update(
                old(self).palette_vec().indices()[index@ as int] as int,
                *final(entry),
            ),
            final(self)@ == recolored(
                old(self)@,
                old(self).palette_vec().indices(),
                old(self).palette_vec().indices()[index@ as int],
                *final(entry),
            ),
    {
        self.inner.get_palette_mut(index.0)
    }

    /// Replaces the value at `index`, and with it every slot that holds the same value.
    #[inline]
    pub fn replace_identical(&mut self, index: CubeMapIndex16, value: T)
        requires
            old(self).wf(),
            index@ < 4096,
        ensures
            final(self).wf(),
            final(self).palette_vec().indices() == old(self).palette_vec().indices(),
            final(self).palette_vec().index_width() == old(self).palette_vec().index_width(),
            final(self).palette_vec().palette() == old(self).palette_vec().palette().update(
                old(self).palette_vec().indices()[index@ as int] as int,
                value,
            ),
            final(self)@ == recolored(
                old(self)@,
                old(self).palette_vec().indices(),
                old(self).palette_vec().indices()[index@ as int],
                value,
            ),
    {
        *self.inner.get_palette_mut(index.0) = value;
    }

    /// Sets the value at `index`, and no other.
    #[inline]
    pub fn set(&mut self, index: CubeMapIndex16, value: T)
        requires
            old(self).wf(),
            index@ < 4096,
            obeys_concrete_eq::<T>(),
        ensures
            final(self).wf(),
            final(self)@ == old(self)@.update(index@ as int, value),
            final(self).palette_vec().palette() == palette_with(
                old(self).palette_vec().palette(),
                value,
            ),
            final(self).palette_vec().index_width() == index_width_for(
                old(self).palette_vec().index_width(),
                final(self).palette_vec().palette().len(),
            ),
            old(self).palette_vec().is_deduplicated() ==> final(self).palette_vec()
                .is_deduplicated(),
    {
        self.inner.set(index.0, value)
    }

    /// An iterator over the values, in index order.
    #[inline]
    pub fn iter(&self) -> (iter: CubeMap16Iterator<'_, T>)
        requires
            self.wf(),
        ensures
            iter.wf(),
            iter.source() == self@,
            iter.position() == 0,
    {
        CubeMap16Iterator { inner: self.inner.iter() }
    }

    /// An iterator over the values with their indices, in index order: `x` runs fastest, then
    /// `z`, then `y`.
    #[inline]
    pub fn iter_indexed(&self) -> (iter: CubeMap16IndexIterator<'_, T>)
        requires
            self.wf(),
        ensures
            iter.wf(),
            iter.source() == self@,
            iter.position() == 0,
    {
        CubeMap16IndexIterator { inner: self.inner.iter(), x: 0, y: 0, z: 0 }
    }

    /// The palette vector that stores the slots.
    #[inline]
    pub fn palette(&self) -> (palette: &PaletteVec<T>)
        ensures
            *palette == self.palette_vec(),
    {
        &self.inner
    }

    /// Resets every slot to `value`, and the palette to that one value.
    #[inline]
    pub fn fill(&mut self, value: T)
        requires
            old(self).wf(),
        ensures
            final(self).wf(),
            final(self)@ == Seq::new(4096, |i: int| value),
            final(self).palette_vec().palette() == seq![value],
            final(self).palette_vec().index_width() == old(self).palette_vec().index_width(),
    {
        self.inner.fill(CUBE16_LEN, value);
    }

    /// The cube that holds the 4096 items of `iter`, in index order.
    #[inline]
    pub fn from_iter<I: Iterator<Item = T>>(iter: I) -> (cube: CubeMap16<T>)
        requires
            iter.obeys_prophetic_iter_laws(),
            iter.decrease() is Some,
            iter.remaining().len() == 4096,
            obeys_concrete_eq::<T>(),
        ensures
            cube.wf(),
            cube@ == iter.remaining(),
            cube.palette_vec().palette() == palette_of(iter.remaining()),
            cube.palette_vec().index_width() == index_width_for(
                4,
                cube.palette_vec().palette().len(),
            ),
            cube.palette_vec().is_deduplicated(),
    {
        CubeMap16 { inner: PaletteVec::from_iter(iter) }
    }
}

impl<T> Default for CubeMap16<T> where T: Eq + Default + Hash + Clone {
    /// A cube filled with the default value of `T`.
    #[inline]
    fn default() -> (cube: CubeMap16<T>)
        ensures
            cube.wf(),
            cube.palette_vec().palette().len() == 1,
            cube.palette_vec().index_width() == 4,
            cube@ == Seq::new(4096, |i: int| cube.palette_vec().palette()[0]),
            T::default.ensures((), cube.palette_vec().palette()[0]),
    {
        CubeMap16::filled(T::default())
    }
}

/// A pass over the slots of a [`CubeMap16`] with their indices.
pub struct CubeMap16IndexIterator<'a, T> where T: Eq + Default + Hash + Clone {
    inner: PaletteVecIterator<'a, T>,
    x: usize,
    y: usize,
    z: usize,
}

impl<'a, T> CubeMap16IndexIterator<'a, T> where T: Eq + Default + Hash + Clone {
    /// The slots of the cube that is being walked.
    pub closed spec fn source(&self) -> Seq<T> {
        self.inner.source()
    }

    /// How many slots have been handed out.
    pub closed spec fn position(&self) -> nat {
        self.inner.position()
    }

    /// The iterator stands at a slot of a well-formed cube, or at its end, and its position
    /// along the three axes is that of the slot.
    pub closed spec fn wf(&self) -> bool {
        &&& self.inner.wf()
        &&& self.inner.source().len() == 4096
        &&& self.x < 16
        &&& self.z < 16
        &&& self.y <= 16
        &&& self.inner.position() == self.y * 256 + self.z * 16 + self.x
    }

    /// The index and the value of the next slot, or `None` once every slot has been handed
    /// out.
    pub fn next(&mut self) -> (item: Option<(CubeMapIndex16, &'a T)>)
        requires
            old(self).wf(),
        ensures
            final(self).wf(),
            final(self).source() == old(self).source(),
            old(self).position() < 4096 ==> {
                &&& item matches Some(pair)
                &&& pair.0@ == old(self).position()
                &&& *pair.1 == old(self).source()[old(self).position() as int]
                &&& final(self).position() == old(self).position() + 1
            },
            old(self).position() >= 4096 ==> {
                &&& item is None
                &&& final(self).position() == old(self).position()
            },
    {
        match self.inner.next() {
            Some(value) => {
                proof {
                    lemma_decode16_encode16(self.x, self.y, self.z);
                }
                let index = CubeMapIndex16::from((self.x, self.y, self.z));
                self.x += 1;
                if self.x >= 16 {
                    self.x = 0;
                    self.z += 1;
                    if self.z >= 16 {
                        self.z = 0;
                        self.y += 1;
                    }
                }
                Some((index, value))
            },
            None => None,
        }
    }
}

/// A pass over the values of a [`CubeMap16`], in index order.
pub struct CubeMap16Iterator<'a, T> where T: Eq + Default + Hash + Clone {
    inner: PaletteVecIterator<'a, T>,
}

impl<'a, T> CubeMap16Iterator<'a, T> where T: Eq + Default + Hash + Clone {
    /// The slots of the cube that is being walked.
    pub closed spec fn source(&self) -> Seq<T> {
        self.inner.source()
    }

    /// How many slots have been handed out.
    pub closed spec fn position(&self) -> nat {
        self.inner.position()
    }

    /// The iterator stands at a slot of a well-formed cube, or at its end.
    pub closed spec fn wf(&self) -> bool {
        self.inner.wf()
    }

    /// The value of the next slot, or `None` once every slot has been handed out.
    #[inline]
    pub fn next(&mut self) -> (item: Option<&'a T>)
        requires
            old(self).wf(),
        ensures
            final(self).wf(),
            final(self).source() == old(self).source(),
            old(self).position() < old(self).source().len() ==> {
                &&& item == Some(&old(self).source()[old(self).position() as int])
                &&& final(self).position() == old(self).position() + 1
            },
            old(self).position() >= old(self).source().len() ==> {
                &&& item is None
                &&& final(self).position() == old(self).position()
            },
    {
        self.inner.next()
    }
}

} // verus!
