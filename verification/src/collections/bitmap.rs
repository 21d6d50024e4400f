//! Vectors and masks of single bits, packed 64 to a cell.

use vstd::prelude::*;
use vstd::arithmetic::power2::lemma2_to64;

use crate::collections::packed_int_vec::{PackedIntVec, PackedIntVecIterator};
use crate::collections::packing::max_for_width;

verus! {

/// The bit that stands for `value`: one for `true`, zero for `false`.
pub open spec fn bit_of(value: bool) -> u64 {
    if value {
        1
    } else {
        0
    }
}

/// The bit that stands for `value`.
#[inline]
fn bit(value: bool) -> (stored: u64)
    ensures
        stored == bit_of(value),
        stored <= max_for_width(1),
{
    proof {
        lemma2_to64();
    }
    if value {
        1
    } else {
        0
    }
}

/// A vector of bits.
///
/// Reading is inverted against writing: [`BitVec::get`] and the iterator answer whether a bit
/// is zero, so a bit written as `true` reads as `false`.
pub struct BitVec {
    inner: PackedIntVec,
}

impl View for BitVec {
    type V = Seq<u64>;

    /// The stored bits, each zero or one.
    closed spec fn view(&self) -> Seq<u64> {
        self.inner@
    }
}

impl BitVec {
    /// The bits are held one to an item.
    pub closed spec fn wf(&self) -> bool {
        &&& self.inner.wf()
        &&& self.inner.item_width() == 1
    }

    /// Every stored bit is zero or one.
    pub proof fn lemma_bits(&self)
        requires
            self.wf(),
        ensures
            forall|i: int| 0 <= i < self@.len() ==> #[trigger] self@[i] <= 1,
    {
        self.inner.lemma_wf();
        lemma2_to64();
    }

    /// `len` bits, all one.
    #[inline]
    pub fn ones(len: usize) -> (bits: BitVec)
        ensures
            bits.wf(),
            bits@ == Seq::new(len as nat, |i: int| 1u64),
    {
        proof {
            lemma2_to64();
        }
        BitVec { inner: PackedIntVec::filled(1, len, 1) }
    }

    /// `len` bits, all zero.
    #[inline]
    pub fn zeros(len: usize) -> (bits: BitVec)
        ensures
            bits.wf(),
            bits@ == Seq::new(len as nat, |i: int| 0u64),
    {
        BitVec { inner: PackedIntVec::filled(1, len, 0) }
    }

    /// `len` bits, all set as `value` says.
    #[inline]
    pub fn filled(len: usize, value: bool) -> (bits: BitVec)
        ensures
            bits.wf(),
            bits@ == Seq::new(len as nat, |i: int| bit_of(value)),
    {
        BitVec { inner: PackedIntVec::filled(1, len, bit(value)) }
    }

    /// Sets every bit to zero. The length stays.
    #[inline]
    pub fn clear(&mut self)
        requires
            old(self).wf(),
        ensures
            final(self).wf(),
            final(self)@ == Seq::new(old(self)@.len(), |i: int| 0u64),
    {
        self.inner.fill(self.inner.len(), 0)
    }

    /// Whether the bit at `index` is zero.
    #[inline]
    pub fn get(&self, index: usize) -> (zero: bool)
        requires
            self.wf(),
            index < self@.len(),
        ensures
            zero == (self@[index as int] == 0),
    {
        self.inner.get(index) == 0
    }

    /// Sets the bit at `index` to one for `true`, to zero for `false`.
    #[inline]
    pub fn set(&mut self, index: usize, value: bool)
        requires
            old(self).wf(),
            index < old(self)@.len(),
        ensures
            final(self).wf(),
            final(self)@ == old(self)@.update(index as int, bit_of(value)),
    {
        self.inner.set(index, bit(value))
    }

    /// An iterator that says of every bit, in index order, whether it is zero.
    #[inline]
    pub fn iter(&self) -> (iter: BitVecIterator<'_>)
        requires
            self.wf(),
        ensures
            iter.wf(),
            iter.source() == self@,
            iter.position() == 0,
    {
        BitVecIterator { inner: self.inner.iter() }
    }
}

/// A pass over the bits of a [`BitVec`], in index order.
pub struct BitVecIterator<'a> {
    inner: PackedIntVecIterator<'a>,
}

impl<'a> BitVecIterator<'a> {
    /// The bits that are being walked.
    pub closed spec fn source(&self) -> Seq<u64> {
        self.inner.source()
    }

    /// How many bits have been handed out.
    pub closed spec fn position(&self) -> nat {
        self.inner.position()
    }

    /// The iterator stands at a bit of a well-formed vector, or at its end.
    pub closed spec fn wf(&self) -> bool {
        self.inner.wf()
    }

    /// Whether the next bit is zero, or `None` once every bit has been handed out.
    #[inline]
    pub fn next(&mut self) -> (item: Option<bool>)
        requires
            old(self).wf(),
        ensures
            final(self).wf(),
            final(self).source() == old(self).source(),
            old(self).position() < old(self).source().len() ==> {
                &&& item == Some(old(self).source()[old(self).position() as int] == 0)
                &&& final(self).position() == old(self).position() + 1
            },
            old(self).position() >= old(self).source().len() ==> {
                &&& item is None
                &&& final(self).position() == old(self).position()
            },
    {
        match self.inner.next() {
            Some(value) => Some(value == 0),
            None => None,
        }
    }
}

/// A mask of bits in rows of `width`.
///
/// Reading is inverted against writing, as in [`BitVec`].
pub struct BitMask2 {
    inner: PackedIntVec,
    stride: usize,
}

impl View for BitMask2 {
    type V = Seq<u64>;

    /// The stored bits, row after row.
    closed spec fn view(&self) -> Seq<u64> {
        self.inner@
    }
}

impl BitMask2 {
    /// The length of a row.
    pub closed spec fn width(&self) -> nat {
        self.stride as nat
    }

    /// The bits are held one to an item.
    pub closed spec fn wf(&self) -> bool {
        &&& self.inner.wf()
        &&& self.inner.item_width() == 1
    }

    /// The stored bit at column `x` of row `y`.
    pub open spec fn bit_at(&self, x: int, y: int) -> u64 {
        self@[x + y * self.width()]
    }

    /// A mask of `height` rows of `width` bits, all one.
    #[inline]
    pub fn ones(width: usize, height: usize) -> (mask: BitMask2)
        requires
            width * height <= usize::MAX,
        ensures
            mask.wf(),
            mask.width() == width,
            mask@ == Seq::new((width * height) as nat, |i: int| 1u64),
    {
        proof {
            lemma2_to64();
        }
        BitMask2 { inner: PackedIntVec::filled(1, width * height, 1), stride: width }
    }

    /// A mask of `height` rows of `width` bits, all zero.
    #[inline]
    pub fn zeros(width: usize, height: usize) -> (mask: BitMask2)
        requires
            width * height <= usize::MAX,
        ensures
            mask.wf(),
            mask.width() == width,
            mask@ == Seq::new((width * height) as nat, |i: int| 0u64),
    {
        BitMask2 { inner: PackedIntVec::filled(1, width * height, 0), stride: width }
    }

    /// A mask of `height` rows of `width` bits, all set as `value` says.
    #[inline]
    pub fn filled(width: usize, height: usize, value: bool) -> (mask: BitMask2)
        requires
            width * height <= usize::MAX,
        ensures
            mask.wf(),
            mask.width() == width,
            mask@ == Seq::new((width * height) as nat, |i: int| bit_of(value)),
    {
        BitMask2 { inner: PackedIntVec::filled(1, width * height, bit(value)), stride: width }
    }

    /// Sets every bit to zero. The size stays.
    #[inline]
    pub fn clear(&mut self)
        requires
            old(self).wf(),
        ensures
            final(self).wf(),
            final(self).width() == old(self).width(),
            final(self)@ == Seq::new(old(self)@.len(), |i: int| 0u64),
    {
        self.inner.fill(self.inner.len(), 0)
    }

    /// Whether the bit at column `x` of row `y` is zero.
    #[inline]
    pub fn get(&self, x: usize, y: usize) -> (zero: bool)
        requires
            self.wf(),
            x + y * self.width() < self@.len(),
        ensures
            zero == (self.bit_at(x as int, y as int) == 0),
    {
        proof {
            self.lemma_row_fits(x, y);
        }
        self.inner.get(x + y * self.stride) == 0
    }

    /// Sets the bit at column `x` of row `y` to one for `true`, to zero for `false`.
    #[inline]
    pub fn set(&mut self, x: usize, y: usize, value: bool)
        requires
            old(self).wf(),
            x + y * old(self).width() < old(self)@.len(),
        ensures
            final(self).wf(),
            final(self).width() == old(self).width(),
            final(self)@ == old(self)@.update(x + y * old(self).width(), bit_of(value)),
    {
        proof {
            self.lemma_row_fits(x, y);
        }
        self.inner.set(x + y * self.stride, bit(value))
    }

    /// An iterator that says of every bit, row after row, whether it is zero.
    #[inline]
    pub fn iter(&self) -> (iter: BitMask2Iterator<'_>)
        requires
            self.wf(),
        ensures
            iter.wf(),
            iter.source() == self@,
            iter.position() == 0,
    {
        BitMask2Iterator { inner: self.inner.iter() }
    }

    /// The start of a row that holds a bit of the mask is itself below the length of the mask.
    proof fn lemma_row_fits(&self, x: usize, y: usize)
        requires
            self.wf(),
            x + y * self.width() < self@.len(),
        ensures
            0 <= y * self.stride <= x + y * self.stride < usize::MAX,
    {
        self.inner.lemma_wf();
        assert(y * self.stride >= 0) by (nonlinear_arith);
    }
}

/// A pass over the bits of a [`BitMask2`], row after row.
pub struct BitMask2Iterator<'a> {
    inner: PackedIntVecIterator<'a>,
}

impl<'a> BitMask2Iterator<'a> {
    /// The bits that are being walked.
    pub closed spec fn source(&self) -> Seq<u64> {
        self.inner.source()
    }

    /// How many bits have been handed out.
    pub closed spec fn position(&self) -> nat {
        self.inner.position()
    }

    /// The iterator stands at a bit of a well-formed mask, or at its end.
    pub closed spec fn wf(&self) -> bool {
        self.inner.wf()
    }

    /// Whether the next bit is zero, or `None` once every bit has been handed out.
    #[inline]
    pub fn next(&mut self) -> (item: Option<bool>)
        requires
            old(self).wf(),
        ensures
            final(self).wf(),
            final(self).source() == old(self).source(),
            old(self).position() < old(self).source().len() ==> {
                &&& item == Some(old(self).source()[old(self).position() as int] == 0)
                &&& final(self).position() == old(self).position() + 1
            },
            old(self).position() >= old(self).source().len() ==> {
                &&& item is None
                &&& final(self).position() == old(self).position()
            },
    {
        match self.inner.next() {
            Some(value) => Some(value == 0),
            None => None,
        }
    }
}

} // verus!
