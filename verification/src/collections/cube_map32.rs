//! A cube of 32 x 32 x 32 values, stored as a palette vector of 32768 slots.
//!
//! A position `(x, y, z)` is packed into one index with five bits per axis: `x` in bits 0 to
//! 4, `z` in bits 5 to 9 and `y` from bit 10 up.

use vstd::prelude::*;
use vstd::laws_eq::obeys_concrete_eq;
use vstd::std_specs::convert::{FromSpec, FromSpecImpl};
use vstd::std_specs::iter::IteratorSpec;

use std::hash::Hash;

use crate::collections::log2::lemma_ceil_log2_pow2;
use crate::collections::palette_vec::{
    index_width_for, palette_of, palette_with, recolored, PaletteVec, PaletteVecIterator,
};

verus! {

/// The number of slots of a cube map with 32 values along each axis.
pub const CUBE32_LEN: usize = 32768;

/// The index of position `(x, y, z)`: `(y << 10) | (z << 5) | x`.
pub open spec fn encode32(x: usize, y: usize, z: usize) -> usize {
    (y << 10) | (z << 5) | x
}

/// The position `(x, y, z)` of an index: `(i & 0x1F, i >> 10, (i >> 5) & 0x1F)`.
pub open spec fn decode32(index: usize) -> (usize, usize, usize) {
    (index & 0x1F, index >> 10, (index >> 5) & 0x1F)
}

proof fn lemma_pack32_bits(x: usize, y: usize, z: usize)
    by (bit_vector)
    requires
        x < 32,
        y < 32,
        z < 32,
    ensures
        ((y << 10) | (z << 5) | x) & 0x1F == x,
        ((y << 10) | (z << 5) | x) >> 10 == y,
        (((y << 10) | (z << 5) | x) >> 5) & 0x1F == z,
        ((y << 10) | (z << 5) | x) < 32768,
        ((y << 10) | (z << 5) | x) == y * 1024 + z * 32 + x,
{
}

proof fn lemma_unpack32_bits(index: usize)
    by (bit_vector)
    requires
        index < 32768,
    ensures
        index & 0x1F < 32,
        index >> 10 < 32,
        (index >> 5) & 0x1F < 32,
        ((index >> 10) << 10) | ((((index >> 5) & 0x1F)) << 5) | (index & 0x1F) == index,
{
}

/// A position in the cube reads back from its index as it was packed, and its index is the
/// position counted in rows of 32 and layers of 1024.
pub proof fn lemma_decode32_encode32(x: usize, y: usize, z: usize)
    requires
        x < 32,
        y < 32,
        z < 32,
    ensures
        decode32(encode32(x, y, z)) == (x, y, z),
        encode32(x, y, z) < 32768,
        encode32(x, y, z) == y * 1024 + z * 32 + x,
{
    lemma_pack32_bits(x, y, z);
}

/// An index of the cube packs again from its position as it was.
pub proof fn lemma_encode32_decode32(index: usize)
    requires
        index < 32768,
    ensures
        decode32(index).0 < 32,
        decode32(index).1 < 32,
        decode32(index).2 < 32,
        encode32(decode32(index).0, decode32(index).1, decode32(index).2) == index,
{
    lemma_unpack32_bits(index);
}

/// The index of a slot of a [`CubeMap32`].
#[derive(Copy, Clone, Debug, PartialEq, Eq, Structural, Hash)]
pub struct CubeMapIndex32(usize);

impl View for CubeMapIndex32 {
    type V = usize;

    /// The index as a number.
    closed spec fn view(&self) -> usize {
        self.0
    }
}

impl CubeMapIndex32 {
    /// The position along the x axis: the low five bits.
    #[inline]
    pub fn x(self) -> (x: usize)
        ensures
            x == decode32(self@).0,
            x == self@ & 0x1F,
    {
        self.0 & 0b11111
    }

    /// The position along the y axis: the bits from bit 10 up.
    #[inline]
    pub fn y(self) -> (y: usize)
        ensures
            y == decode32(self@).1,
            y == self@ >> 10,
    {
        self.0 >> 10
    }

    /// The position along the z axis: bits 5 to 9.
    #[inline]
    pub fn z(self) -> (z: usize)
        ensures
            z == decode32(self@).2,
            z == (self@ >> 5) & 0x1F,
    {
        (self.0 >> 5) & 0b11111
    }
}

impl Default for CubeMapIndex32 {
    /// Index zero: the position `(0, 0, 0)`.
    #[inline]
    fn default() -> (index: CubeMapIndex32)
        ensures
            index@ == 0,
    {
        CubeMapIndex32(0)
    }
}

impl From<usize> for CubeMapIndex32 {
    #[inline]
    fn from(value: usize) -> (index: CubeMapIndex32) {
        CubeMapIndex32(value)
    }
}

impl FromSpecImpl<usize> for CubeMapIndex32 {
    open spec fn obeys_from_spec() -> bool {
        true
    }

    closed spec fn from_spec(value: usize) -> CubeMapIndex32 {
        CubeMapIndex32(value)
    }
}

impl From<(usize, usize, usize)> for CubeMapIndex32 {
    #[inline]
    fn from(value: (usize, usize, usize)) -> (index: CubeMapIndex32) {
        CubeMapIndex32(value.1 << 10 | value.2 << 5 | value.0)
    }
}

impl FromSpecImpl<(usize, usize, usize)> for CubeMapIndex32 {
    open spec fn obeys_from_spec() -> bool {
        true
    }

    closed spec fn from_spec(value: (usize, usize, usize)) -> CubeMapIndex32 {
        CubeMapIndex32(encode32(value.0, value.1, value.2))
    }
}

impl From<CubeMapIndex32> for (usize, usize, usize) {
    #[inline]
    fn from(index: CubeMapIndex32) -> (position: (usize, usize, usize)) {
        (index.0 & 0b11111, index.0 >> 10, (index.0 >> 5) & 0b11111)
    }
}

impl FromSpecImpl<CubeMapIndex32> for (usize, usize, usize) {
    open spec fn obeys_from_spec() -> bool {
        true
    }

    open spec fn from_spec(index: CubeMapIndex32) -> (usize, usize, usize) {
        decode32(index@)
    }
}

/// What the conversions into an index give: a number as it is, a position packed.
pub proof fn lemma_index32_from(value: usize, x: usize, y: usize, z: usize)
    ensures
        <CubeMapIndex32 as FromSpec<usize>>::from_spec(value)@ == value,
        <CubeMapIndex32 as FromSpec<(usize, usize, usize)>>::from_spec((x, y, z))@ == encode32(
            x,
            y,
            z,
        ),
{
}

/// A cube map of length 32: one value for every position `(x, y, z)` below 32 on each axis.
#[derive(Debug)]
pub struct CubeMap32<T> where T: Eq + Default + Hash + Clone {
    inner: PaletteVec<T>,
}

impl<T> View for CubeMap32<T> where T: Eq + Default + Hash + Clone {
    type V = Seq<T>;

    /// The value of every slot, by index.
    closed spec fn view(&self) -> Seq<T> {
        self.inner@
    }
}

impl<T> CubeMap32<T> where T: Eq + Default + Hash + Clone {
    /// The palette vector that stores the slots.
    pub closed spec fn palette_vec(&self) -> PaletteVec<T> {
        self.inner
    }

    /// The cube has its 32768 slots, in a well-formed palette vector.
    pub open spec fn wf(&self) -> bool {
        &&& self.palette_vec().wf()
        &&& self.palette_vec()@ == self@
        &&& self@.len() == 32768
    }

    /// A cube whose every slot holds `value`. It takes one palette entry and five bits a slot.
    #[inline]
    pub fn filled(value: T) -> (cube: CubeMap32<T>)
        ensures
            cube.wf(),
            cube@ == Seq::new(32768, |i: int| value),
            cube.palette_vec().palette() == seq![value],
            cube.palette_vec().index_width() == 5,
    {
        proof {
            lemma_ceil_log2_pow2(5);
        }
        CubeMap32 { inner: PaletteVec::filled(32, CUBE32_LEN, value) }
    }

    /// The value at `index`.
    #[inline]
    pub fn get(&self, index: CubeMapIndex32) -> (value: &T)
        requires
            self.wf(),
            index@ < 32768,
        ensures
            *value == self@[index@ as int],
    {
        self.inner.get(index.0)
    }

    /// The palette entry that the slot at `index` points to, for writing.
    ///
    /// Every slot that holds this value sees what is written through the reference.
    #[inline]
    pub fn get_identical_mut(&mut self, index: CubeMapIndex32) -> (entry: &mut T)
        requires
            old(self).wf(),
            index@ < 32768,
        ensures
            *entry == old(self)@[index@ as int],
            final(self).wf(),
            final(self).palette_vec().indices() == old(self).palette_vec().indices(),
            final(self).palette_vec().index_width() == old(self).palette_vec().index_width(),
            final(self).palette_vec().palette() == old(self).palette_vec().palette().update(
                old(self).palette_vec().indices()[index@ as int] as int,
                *final(entry),
            ),
            final(self)@ == recolored(
                old(self)@,
                old(self).palette_vec().indices(),
                old(self).palette_vec().indices()[index@ as int],
                *final(entry),
            ),
    {
        self.inner.get_palette_mut(index.0)
    }

    /// Replaces the value at `index`, and with it every slot that holds the same value.
    #[inline]
    pub fn replace_identical(&mut self, index: CubeMapIndex32, value: T)
        requires
            old(self).wf(),
            index@ < 32768,
        ensures
            final(self).wf(),
            final(self).palette_vec().indices() == old(self).palette_vec().indices(),
            final(self).palette_vec().index_width() == old(self).palette_vec().index_width(),
            final(self).palette_vec().palette() == old(self).palette_vec().palette().update(
                old(self).palette_vec().indices()[index@ as int] as int,
                value,
            ),
            final(self)@ == recolored(
                old(self)@,
                old(self).palette_vec().indices(),
                old(self).palette_vec().indices()[index@ as int],
                value,
            ),
    {
        *self.inner.get_palette_mut(index.0) = value;
    }

    /// Sets the value at `index`, and no other.
    #[inline]
    pub fn set(&mut self, index: CubeMapIndex32, value: T)
        requires
            old(self).wf(),
            index@ < 32768,
            obeys_concrete_eq::<T>(),
        ensures
            final(self).wf(),
            final(self)@ == old(self)@.update(index@ as int, value),
            final(self).palette_vec().palette() == palette_with(
                old(self).palette_vec().palette(),
                value,
            ),
            final(self).palette_vec().index_width() == index_width_for(
                old(self).palette_vec().index_width(),
                final(self).palette_vec().palette().len(),
            ),
            old(self).palette_vec().is_deduplicated() ==> final(self).palette_vec()
                .is_deduplicated(),
    {
        self.inner.set(index.0, value)
    }

    /// An iterator over the values, in index order.
    #[inline]
    pub fn iter(&self) -> (iter: CubeMap32Iterator<'_, T>)
        requires
            self.wf(),
        ensures
            iter.wf(),
            iter.source() == self@,
            iter.position() == 0,
    {
        CubeMap32Iterator { inner: self.inner.iter() }
    }

    /// An iterator over the values with their indices, in index order: `x` runs fastest, then
    /// `z`, then `y`.
    #[inline]
    pub fn iter_indexed(&self) -> (iter: CubeMap32IndexIterator<'_, T>)
        requires
            self.wf(),
        ensures
            iter.wf(),
            iter.source() == self@,
            iter.position() == 0,
    {
        CubeMap32IndexIterator { inner: self.inner.iter(), x: 0, y: 0, z: 0 }
    }

    /// The palette vector that stores the slots.
    #[inline]
    pub fn palette(&self) -> (palette: &PaletteVec<T>)
        ensures
            *palette == self.palette_vec(),
    {
        &self.inner
    }

    /// Resets every slot to `value`, and the palette to that one value.
    #[inline]
    pub fn fill(&mut self, value: T)
        requires
            old(self).wf(),
        ensures
            final(self).wf(),
            final(self)@ == Seq::new(32768, |i: int| value),
            final(self).palette_vec().palette() == seq![value],
            final(self).palette_vec().index_width() == old(self).palette_vec().index_width(),
    {
        self.inner.fill(CUBE32_LEN, value);
    }

    /// The cube that holds the 32768 items of `iter`, in index order.
    #[inline]
    pub fn from_iter<I: Iterator<Item = T>>(iter: I) -> (cube: CubeMap32<T>)
        requires
            iter.obeys_prophetic_iter_laws(),
            iter.decrease() is Some,
            iter.remaining().len() == 32768,
            obeys_concrete_eq::<T>(),
        ensures
            cube.wf(),
            cube@ == iter.remaining(),
            cube.palette_vec().palette() == palette_of(iter.remaining()),
            cube.palette_vec().index_width() == index_width_for(
                4,
                cube.palette_vec().palette().len(),
            ),
            cube.palette_vec().is_deduplicated(),
    {
        CubeMap32 { inner: PaletteVec::from_iter(iter) }
    }
}

impl<T> Default for CubeMap32<T> where T: Eq + Default + Hash + Clone {
    /// A cube filled with the default value of `T`.
    #[inline]
    fn default() -> (cube: CubeMap32<T>)
        ensures
            cube.wf(),
            cube.palette_vec().palette().len() == 1,
            cube.palette_vec().index_width() == 5,
            cube@ == Seq::new(32768, |i: int| cube.palette_vec().palette()[0]),
            T::default.ensures((), cube.palette_vec().palette()[0]),
    {
        CubeMap32::filled(T::default())
    }
}

/// A pass over the slots of a [`CubeMap32`] with their indices.
pub struct CubeMap32IndexIterator<'a, T> where T: Eq + Default + Hash + Clone {
    inner: PaletteVecIterator<'a, T>,
    x: usize,
    y: usize,
    z: usize,
}

impl<'a, T> CubeMap32IndexIterator<'a, T> where T: Eq + Default + Hash + Clone {
    /// The slots of the cube that is being walked.
    pub closed spec fn source(&self) -> Seq<T> {
        self.inner.source()
    }

    /// How many slots have been handed out.
    pub closed spec fn position(&self) -> nat {
        self.inner.position()
    }

    /// The iterator stands at a slot of a well-formed cube, or at its end, and its position
    /// along the three axes is that of the slot.
    pub closed spec fn wf(&self) -> bool {
        &&& self.inner.wf()
        &&& self.inner.source().len() == 32768
        &&& self.x < 32
        &&& self.z < 32
        &&& self.y <= 32
        &&& self.inner.position() == self.y * 1024 + self.z * 32 + self.x
    }

    /// The index and the value of the next slot, or `None` once every slot has been handed
    /// out.
    pub fn next(&mut self) -> (item: Option<(CubeMapIndex32, &'a T)>)
        requires
            old(self).wf(),
        ensures
            final(self).wf(),
            final(self).source() == old(self).source(),
            old(self).position() < 32768 ==> {
                &&& item matches Some(pair)
                &&& pair.0@ == old(self).position()
                &&& *pair.1 == old(self).source()[old(self).position() as int]
                &&& final(self).position() == old(self).position() + 1
            },
            old(self).position() >= 32768 ==> {
                &&& item is None
                &&& final(self).position() == old(self).position()
            },
    {
        match self.inner.next() {
            Some(value) => {
                proof {
                    lemma_decode32_encode32(self.x, self.y, self.z);
                }
                let index = CubeMapIndex32::from((self.x, self.y, self.z));
                self.x += 1;
                if self.x >= 32 {
                    self.x = 0;
                    self.z += 1;
                    if self.z >= 32 {
                        self.z = 0;
                        self.y += 1;
                    }
                }
                Some((index, value))
            },
            None => None,
        }
    }
}

/// A pass over the values of a [`CubeMap32`], in index order.
pub struct CubeMap32Iterator<'a, T> where T: Eq + Default + Hash + Clone {
    inner: PaletteVecIterator<'a, T>,
}

impl<'a, T> CubeMap32Iterator<'a, T> where T: Eq + Default + Hash + Clone {
    /// The slots of the cube that is being walked.
    pub closed spec fn source(&self) -> Seq<T> {
        self.inner.source()
    }

    /// How many slots have been handed out.
    pub closed spec fn position(&self) -> nat {
        self.inner.position()
    }

    /// The iterator stands at a slot of a well-formed cube, or at its end.
    pub closed spec fn wf(&self) -> bool {
        self.inner.wf()
    }

    /// The value of the next slot, or `None` once every slot has been handed out.
    #[inline]
    pub fn next(&mut self) -> (item: Option<&'a T>)
        requires
            old(self).wf(),
        ensures
            final(self).wf(),
            final(self).source() == old(self).source(),
            old(self).position() < old(self).source().len() ==> {
                &&& item == Some(&old(self).source()[old(self).position() as int])
                &&& final(self).position() == old(self).position() + 1
            },
            old(self).position() >= old(self).source().len() ==> {
                &&& item is None
                &&& final(self).position() == old(self).position()
            },
    {
        self.inner.next()
    }
}

} // verus!
