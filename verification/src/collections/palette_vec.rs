//! A compressed vec-like collection: a palette of distinct values and, for every slot, the
//! packed index of its value in the palette.

use vstd::prelude::*;
use vstd::arithmetic::power2::{
    lemma2_to64_rest, lemma_pow2_strictly_increases, lemma_pow2_unfold, pow2,
};
use vstd::laws_eq::obeys_concrete_eq;
use vstd::std_specs::cmp::PartialEqSpec;
use vstd::std_specs::iter::IteratorSpec;

use std::hash::Hash;

use crate::collections::log2::{
    bits_for, ceil_log2, lemma_ceil_log2_bounds, lemma_ceil_log2_ordered, lemma_ceil_log2_pow2,
    lemma_ceil_log2_unique, lemma_pow2_ordered,
};
use crate::collections::packed_int_vec::{with_room, PackedIntVec, PackedIntVecIterator};
use crate::collections::packing::{lemma_max_for_width, max_for_width};

verus! {

/// The smallest index width that a palette vector starts with.
pub const MIN_INDEX_BITS: u32 = 4;

/// The palette after `value` is written: unchanged where it holds `value` already, else with
/// `value` as its new last entry.
pub open spec fn palette_with<T>(palette: Seq<T>, value: T) -> Seq<T> {
    if palette.contains(value) {
        palette
    } else {
        palette.push(value)
    }
}

/// The index width after a write that left the palette with `palette_len` entries: it changes
/// only when the palette has outgrown `width` bits, to the bits that its size needs.
pub open spec fn index_width_for(width: nat, palette_len: nat) -> nat {
    if palette_len > max_for_width(width) {
        ceil_log2(palette_len)
    } else {
        width
    }
}

/// The slots that `palette` and `indices` stand for.
pub open spec fn slots<T>(palette: Seq<T>, indices: Seq<u64>) -> Seq<T> {
    Seq::new(indices.len(), |i: int| palette[indices[i] as int])
}

/// The slots after palette entry `entry` is overwritten with `value`: every slot that points
/// to that entry now holds `value`, and the others hold what they held.
pub open spec fn recolored<T>(slots: Seq<T>, indices: Seq<u64>, entry: u64, value: T) -> Seq<T> {
    Seq::new(
        slots.len(),
        |i: int|
            if indices[i] == entry {
                value
            } else {
                slots[i]
            },
    )
}

/// The palette after `values` are written in order into a vector whose palette was
/// `palette`: each value that is new when its turn comes is added at the end.
pub open spec fn palette_after<T>(palette: Seq<T>, values: Seq<T>) -> Seq<T>
    decreases values.len(),
{
    if values.len() == 0 {
        palette
    } else {
        palette_with(palette_after(palette, values.drop_last()), values.last())
    }
}

/// The palette that writing `values` in order into an empty vector leaves: every distinct
/// value once, in the order in which each was first seen.
pub open spec fn palette_of<T>(values: Seq<T>) -> Seq<T> {
    palette_after(Seq::empty(), values)
}

/// Writing a value keeps a palette without duplicates free of them, and adds at most the
/// value written.
pub proof fn lemma_palette_with<T>(palette: Seq<T>, value: T)
    ensures
        palette_with(palette, value).contains(value),
        palette.no_duplicates() ==> palette_with(palette, value).no_duplicates(),
        palette.len() <= palette_with(palette, value).len() <= palette.len() + 1,
        palette_with(palette_with(palette, value), value) == palette_with(palette, value),
{
    if !palette.contains(value) {
        let grown = palette.push(value);
        assert(grown[palette.len() as int] == value);
        if palette.no_duplicates() {
            assert forall|i: int, j: int|
                0 <= i < grown.len() && 0 <= j < grown.len() && i != j implies grown[i]
                != grown[j] by {
                if j < palette.len() {
                }
            }
        }
    }
}

/// A run of writes adds at most one palette entry for each value written.
pub proof fn lemma_palette_after<T>(palette: Seq<T>, values: Seq<T>)
    ensures
        palette.len() <= palette_after(palette, values).len() <= palette.len() + values.len(),
        palette.no_duplicates() ==> palette_after(palette, values).no_duplicates(),
    decreases values.len(),
{
    if values.len() > 0 {
        lemma_palette_after(palette, values.drop_last());
        lemma_palette_with(palette_after(palette, values.drop_last()), values.last());
    }
}

/// A value written twice, to whatever slots and in whatever order, is in the palette once: the
/// second write leaves the palette as the first left it, and two writes of one value into an
/// empty vector leave a palette of that one value.
pub proof fn lemma_same_value_one_entry<T>(palette: Seq<T>, value: T)
    ensures
        palette_with(palette_with(palette, value), value) == palette_with(palette, value),
        palette_with(palette_with(Seq::<T>::empty(), value), value) == seq![value],
        palette.no_duplicates() ==> palette_with(
            palette_with(palette, value),
            value,
        ).no_duplicates(),
{
    lemma_palette_with(palette, value);
    lemma_palette_with(Seq::<T>::empty(), value);
}

/// The index width after a write is the least width that addresses the palette and is not
/// below the width before: it stays while the palette has at most `2^width` entries, and
/// with one entry more it is `width + 1`.
pub proof fn lemma_index_width_for(width: nat, palette_len: nat)
    requires
        1 <= width <= 64,
        1 <= palette_len <= usize::MAX,
    ensures
        index_width_for(width, palette_len) == if ceil_log2(palette_len) > width {
            ceil_log2(palette_len)
        } else {
            width
        },
        palette_len <= pow2(index_width_for(width, palette_len)),
        palette_len <= pow2(width) ==> index_width_for(width, palette_len) == width,
        palette_len == pow2(width) + 1 ==> index_width_for(width, palette_len) == width + 1,
{
    lemma_max_for_width(width);
    lemma_ceil_log2_bounds(palette_len);
    lemma_pow2_strictly_increases((width - 1) as nat, width);
    lemma_ceil_log2_unique(pow2(width), width);
    if palette_len >= pow2(width) {
        lemma_ceil_log2_ordered(pow2(width), palette_len);
        if palette_len == pow2(width) + 1 {
            lemma_pow2_unfold(width + 1);
            lemma_ceil_log2_unique(palette_len, width + 1);
        }
    } else {
        lemma_ceil_log2_ordered(palette_len, pow2(width));
    }
    if palette_len <= pow2(width) {
        lemma_index_width_kept(width, palette_len);
    }
}

/// Over a run of writes the index width depends on the width at the start and on the size of
/// the palette at the end alone.
pub proof fn lemma_index_width_steps(width: nat, earlier: nat, later: nat)
    requires
        1 <= width <= 64,
        earlier <= later <= usize::MAX,
    ensures
        1 <= index_width_for(width, earlier) <= 64,
        index_width_for(index_width_for(width, earlier), later) == index_width_for(width, later),
{
    if earlier >= 1 {
        lemma_index_width_for(width, earlier);
        lemma_index_width_for(width, later);
        lemma_ceil_log2_ordered(earlier, later);
        lemma_ceil_log2_bounds(earlier);
        lemma_ceil_log2_bounds(later);
        lemma_pow2_64();
        if ceil_log2(earlier) > 64 {
            lemma_pow2_ordered(64, (ceil_log2(earlier) - 1) as nat);
        }
        lemma_index_width_for(index_width_for(width, earlier), later);
    } else {
        lemma_max_for_width(width);
    }
}

proof fn lemma_pow2_64()
    ensures
        pow2(64) > usize::MAX,
{
    lemma2_to64_rest();
}

/// A palette that fills its index width exactly needs no other width: the width changes only
/// when the palette has more entries than `2^width`.
pub proof fn lemma_index_width_kept(width: nat, palette_len: nat)
    requires
        1 <= width <= 64,
        palette_len <= max_for_width(width) + 1,
    ensures
        index_width_for(width, palette_len) == width,
{
    lemma_max_for_width(width);
    if palette_len > max_for_width(width) {
        lemma_pow2_strictly_increases((width - 1) as nat, width);
        lemma_ceil_log2_unique(palette_len, width);
    }
}

/// A compressed vec-like collection of `T`.
///
/// Conceptually, a `PaletteVec` is a list of unique elements called a "palette"
/// and a list of indices that point to elements in the palette.
#[derive(Debug)]
pub struct PaletteVec<T> where T: Eq + Default + Hash + Clone {
    palette: Vec<T>,
    indices: PackedIntVec,
}

impl<T> View for PaletteVec<T> where T: Eq + Default + Hash + Clone {
    type V = Seq<T>;

    /// The value of every slot, in index order.
    closed spec fn view(&self) -> Seq<T> {
        slots(self.palette@, self.indices@)
    }
}

impl<T> PaletteVec<T> where T: Eq + Default + Hash + Clone {
    /// The distinct values seen so far, in the order in which they were first written.
    pub closed spec fn palette(&self) -> Seq<T> {
        self.palette@
    }

    /// For every slot, the position of its value in the palette.
    pub closed spec fn indices(&self) -> Seq<u64> {
        self.indices@
    }

    /// Bits per stored index.
    pub closed spec fn index_width(&self) -> nat {
        self.indices.item_width()
    }

    /// The representation invariant: every index points into the palette, and the index width
    /// can address every palette entry.
    pub closed spec fn wf(&self) -> bool {
        &&& self.indices.wf()
        &&& forall|i: int|
            0 <= i < self.indices@.len() ==> #[trigger] self.indices@[i] < self.palette@.len()
        &&& self.palette@.len() <= max_for_width(self.indices.item_width()) + 1
    }

    /// No value occurs twice in the palette.
    pub open spec fn is_deduplicated(&self) -> bool {
        self.palette().no_duplicates()
    }

    /// In a well-formed vector the index width is between 1 and 64 bits, the palette has at
    /// most `2^width` entries, and every slot holds a palette entry.
    pub proof fn lemma_wf(&self)
        requires
            self.wf(),
        ensures
            1 <= self.index_width() <= 64,
            self.palette().len() <= pow2(self.index_width()),
            self.palette().len() <= usize::MAX,
            self.indices().len() == self@.len(),
            forall|i: int|
                0 <= i < self@.len() ==> #[trigger] self.indices()[i] < self.palette().len(),
            forall|i: int|
                0 <= i < self@.len() ==> #[trigger] self@[i] == self.palette()[self.indices()[i]
                    as int],
    {
        self.indices.lemma_wf();
        lemma_max_for_width(self.indices.item_width());
        assert(self.palette@.len() == self.palette.len());
    }

    /// An empty vector whose indices are `index_width` bits wide, with room for `capacity`
    /// slots.
    pub fn with_index_width(index_width: u32, capacity: usize) -> (vec: PaletteVec<T>)
        requires
            1 <= index_width <= 64,
        ensures
            vec.wf(),
            vec@ == Seq::<T>::empty(),
            vec.palette() == Seq::<T>::empty(),
            vec.index_width() == index_width,
    {
        let vec = PaletteVec {
            palette: Vec::new(),
            indices: PackedIntVec::with_capacity(index_width, capacity),
        };
        vec
    }

    /// An empty vector with room for `capacity` slots, whose indices can address
    /// `palette_capacity` distinct values, and never fewer than 16.
    #[inline]
    pub fn with_capacity(palette_capacity: usize, capacity: usize) -> (vec: PaletteVec<T>)
        ensures
            vec.wf(),
            vec@ == Seq::<T>::empty(),
            vec.palette() == Seq::<T>::empty(),
            vec.index_width() == if ceil_log2(palette_capacity as nat) < 4 {
                4
            } else {
                ceil_log2(palette_capacity as nat)
            },
    {
        let needed: u32 = bits_for(palette_capacity);
        let index_width: u32 = if needed < MIN_INDEX_BITS {
            MIN_INDEX_BITS
        } else {
            needed
        };
        let vec = PaletteVec {
            palette: with_room(palette_capacity),
            indices: PackedIntVec::with_capacity(index_width, capacity),
        };
        vec
    }

    /// A vector of `len` slots that all hold `value`, whose indices can address
    /// `palette_capacity` distinct values, and never fewer than 16.
    #[inline]
    pub fn filled(palette_capacity: usize, len: usize, value: T) -> (vec: PaletteVec<T>)
        ensures
            vec.wf(),
            vec@ == Seq::new(len as nat, |i: int| value),
            vec.palette() == seq![value],
            vec.index_width() == if ceil_log2(palette_capacity as nat) < 4 {
                4
            } else {
                ceil_log2(palette_capacity as nat)
            },
    {
        let mut vec = PaletteVec::with_capacity(palette_capacity, len);
        vec.fill(len, value);
        vec
    }

    /// Removes every slot and every palette entry. The index width stays.
    #[inline]
    pub fn clear(&mut self)
        requires
            old(self).wf(),
        ensures
            final(self).wf(),
            final(self)@ == Seq::<T>::empty(),
            final(self).palette() == Seq::<T>::empty(),
            final(self).index_width() == old(self).index_width(),
    {
        self.palette.clear();
        self.indices.clear();
    }

    /// Resets the vector to `len` slots that all hold `value`, and the palette to that one
    /// value. The index width stays.
    #[inline]
    pub fn fill(&mut self, len: usize, value: T)
        requires
            old(self).wf(),
        ensures
            final(self).wf(),
            final(self)@ == Seq::new(len as nat, |i: int| value),
            final(self).palette() == seq![value],
            final(self).index_width() == old(self).index_width(),
    {
        proof {
            self.indices.lemma_wf();
            lemma_max_for_width(self.indices.item_width());
        }
        self.palette.clear();
        self.palette.push(value);
        self.indices.fill(len, 0);
    }

    /// The palette entry that slot `index` points to, for writing.
    ///
    /// Every slot that points to the same entry sees what is written through the reference. A
    /// value written here that the palette holds elsewhere leaves the palette with a
    /// duplicate.
    #[inline]
    pub fn get_palette_mut(&mut self, index: usize) -> (entry: &mut T)
        requires
            old(self).wf(),
            index < old(self)@.len(),
        ensures
            *entry == old(self)@[index as int],
            final(self).wf(),
            final(self).indices() == old(self).indices(),
            final(self).index_width() == old(self).index_width(),
            final(self).palette() == old(self).palette().update(
                old(self).indices()[index as int] as int,
                *final(entry),
            ),
            final(self)@ == recolored(
                old(self)@,
                old(self).indices(),
                old(self).indices()[index as int],
                *final(entry),
            ),
    {
        let palette_index: u64 = self.indices.get(index);
        assert(self.palette.len() == self.palette@.len());
        proof {
            let indices = self.indices@;
            assert forall|written: T|
                #[trigger] slots(self.palette@.update(palette_index as int, written), indices)
                    == recolored(self@, indices, palette_index, written) by {
                assert(slots(self.palette@.update(palette_index as int, written), indices)
                    =~= recolored(self@, indices, palette_index, written));
            }
        }
        &mut self.palette[palette_index as usize]
    }

    /// An iterator over the values of the slots, in index order.
    #[inline]
    pub fn iter(&self) -> (iter: PaletteVecIterator<'_, T>)
        requires
            self.wf(),
        ensures
            iter.wf(),
            iter.source() == self@,
            iter.position() == 0,
    {
        PaletteVecIterator { inner: self, inner_iter: self.indices.iter() }
    }

    /// A vector that holds the items of `iter`, in order, with a palette for 16 values to
    /// start with.
    pub fn from_iter<I: Iterator<Item = T>>(iter: I) -> (vec: PaletteVec<T>)
        requires
            iter.obeys_prophetic_iter_laws(),
            iter.decrease() is Some,
            iter.remaining().len() <= usize::MAX,
            obeys_concrete_eq::<T>(),
        ensures
            vec.wf(),
            vec@ == iter.remaining(),
            vec.palette() == palette_of(iter.remaining()),
            vec.index_width() == index_width_for(4, vec.palette().len()),
            vec.is_deduplicated(),
    {
        let mut iter = iter;
        proof {
            lemma_ceil_log2_pow2(4);
            lemma_max_for_width(4);
        }
        let mut vec = PaletteVec::with_capacity(16, 0);
        let ghost all = iter.remaining();
        loop
            invariant
                vec.wf(),
                vec.is_deduplicated(),
                iter.obeys_prophetic_iter_laws(),
                iter.decrease() is Some,
                obeys_concrete_eq::<T>(),
                all.len() <= usize::MAX,
                vec@.len() <= all.len(),
                vec@ == all.subrange(0, vec@.len() as int),
                vec.palette() == palette_of(vec@),
                vec.palette().len() <= vec@.len(),
                vec.index_width() == index_width_for(4, vec.palette().len()),
                iter.remaining() == all.subrange(vec@.len() as int, all.len() as int),
            ensures
                vec.wf(),
                vec.is_deduplicated(),
                vec@ == all,
                vec.palette() == palette_of(all),
                vec.index_width() == index_width_for(4, vec.palette().len()),
            decreases iter.decrease()->0,
        {
            match iter.next() {
                Some(value) => {
                    let ghost before = vec@;
                    let ghost palette_before = vec.palette();
                    proof {
                        lemma_palette_with(palette_before, value);
                        lemma_index_width_steps(
                            4,
                            palette_before.len(),
                            palette_with(palette_before, value).len(),
                        );
                    }
                    vec.push(value);
                    assert(vec@.drop_last() =~= before);
                },
                None => {
                    assert(vec@ =~= all);
                    break ;
                },
            }
        }
        vec
    }

    /// The first position of `value` in the palette, if it is there.
    fn position(&self, value: &T) -> (found: Option<usize>)
        requires
            obeys_concrete_eq::<T>(),
        ensures
            match found {
                Some(p) => {
                    &&& p < self.palette@.len()
                    &&& self.palette@[p as int] == *value
                    &&& forall|j: int| 0 <= j < p ==> self.palette@[j] != *value
                },
                None => !self.palette@.contains(*value),
            },
    {
        proof {
            reveal(obeys_concrete_eq);
        }
        let mut p: usize = 0;
        while p < self.palette.len()
            invariant
                p <= self.palette@.len(),
                forall|x: T, y: T| x.eq_spec(&y) <==> x == y,
                T::obeys_eq_spec(),
                forall|j: int| 0 <= j < p ==> self.palette@[j] != *value,
            decreases self.palette@.len() - p,
        {
            if self.palette[p] == *value {
                return Some(p);
            }
            p += 1;
        }
        None
    }

    /// Widens the indices when the palette has outgrown them.
    #[inline]
    fn try_grow_palette(&mut self)
        requires
            old(self).indices.wf(),
            forall|i: int|
                0 <= i < old(self).indices@.len() ==> #[trigger] old(self).indices@[i] < old(
                    self,
                ).palette@.len(),
        ensures
            final(self).wf(),
            final(self).palette@ == old(self).palette@,
            final(self).indices@ == old(self).indices@,
            final(self).indices.item_width() == index_width_for(
                old(self).indices.item_width(),
                old(self).palette@.len(),
            ),
    {
        proof {
            self.indices.lemma_wf();
            lemma_max_for_width(self.indices.item_width());
        }
        // The palette is full.
        if self.palette.len() as u64 > self.indices.max_item() {
            let bits: u32 = bits_for(self.palette.len());
            proof {
                lemma_ceil_log2_bounds(self.palette@.len());
                lemma_max_for_width(bits as nat);
            }
            // The indices have to be packed again.
            self.indices = self.indices.resized_copy(bits);
        }
    }

    /// Sets slot `index` to `value`.
    ///
    /// A value that the palette does not hold yet becomes its last entry; when the palette
    /// then has more entries than the indices can address, every index is packed again at
    /// the width that the palette needs.
    pub fn set(&mut self, index: usize, value: T)
        requires
            old(self).wf(),
            index < old(self)@.len(),
            obeys_concrete_eq::<T>(),
        ensures
            final(self).wf(),
            final(self)@ == old(self)@.update(index as int, value),
            final(self).palette() == palette_with(old(self).palette(), value),
            final(self).index_width() == index_width_for(
                old(self).index_width(),
                final(self).palette().len(),
            ),
            old(self).is_deduplicated() ==> final(self).is_deduplicated(),
    {
        proof {
            self.indices.lemma_wf();
            lemma_palette_with(self.palette@, value);
            lemma_index_width_kept(self.indices.item_width(), self.palette@.len());
        }
        let palette_index = self.position(&value);
        if let Some(palette_index) = palette_index {
            self.indices.set(index, palette_index as u64);
        } else {
            self.palette.push(value);
            self.try_grow_palette();
            proof {
                self.indices.lemma_wf();
            }
            self.indices.set(index, (self.palette.len() - 1) as u64);
        }
    }

    /// Appends a slot that holds `value`.
    ///
    /// The palette and the index width change as in [`PaletteVec::set`].
    pub fn push(&mut self, value: T)
        requires
            old(self).wf(),
            old(self)@.len() < usize::MAX,
            obeys_concrete_eq::<T>(),
        ensures
            final(self).wf(),
            final(self)@ == old(self)@.push(value),
            final(self).palette() == palette_with(old(self).palette(), value),
            final(self).index_width() == index_width_for(
                old(self).index_width(),
                final(self).palette().len(),
            ),
            old(self).is_deduplicated() ==> final(self).is_deduplicated(),
    {
        proof {
            self.indices.lemma_wf();
            lemma_palette_with(self.palette@, value);
            lemma_index_width_kept(self.indices.item_width(), self.palette@.len());
        }
        let palette_index = self.position(&value);
        if let Some(palette_index) = palette_index {
            self.indices.push(palette_index as u64);
        } else {
            self.palette.push(value);
            self.try_grow_palette();
            proof {
                self.indices.lemma_wf();
            }
            self.indices.push((self.palette.len() - 1) as u64);
        }
    }

    /// The number of slots.
    #[inline]
    pub fn len(&self) -> (n: usize)
        ensures
            n == self@.len(),
    {
        self.indices.len()
    }

    /// The number of distinct values in the palette.
    #[inline]
    pub fn palette_len(&self) -> (n: usize)
        ensures
            n == self.palette().len(),
    {
        self.palette.len()
    }

    /// The largest palette index that the indices can hold at their width.
    #[inline]
    pub fn max_index(&self) -> (max: u64)
        requires
            self.wf(),
        ensures
            max == max_for_width(self.index_width()),
    {
        self.indices.max_item()
    }

    /// Whether there is no slot.
    #[inline]
    pub fn is_empty(&self) -> (b: bool)
        ensures
            b == (self@.len() == 0),
    {
        self.indices.is_empty()
    }

    /// The value of slot `index`.
    #[inline]
    pub fn get(&self, index: usize) -> (value: &T)
        requires
            self.wf(),
            index < self@.len(),
        ensures
            *value == self@[index as int],
    {
        let palette_index: u64 = self.indices.get(index);
        assert(self.palette.len() == self.palette@.len());
        &self.palette[palette_index as usize]
    }
}

impl<T> Default for PaletteVec<T> where T: Eq + Default + Hash + Clone {
    /// An empty vector with two-bit indices and room for 16 slots.
    #[inline]
    fn default() -> (vec: PaletteVec<T>)
        ensures
            vec.wf(),
            vec@ == Seq::<T>::empty(),
            vec.palette() == Seq::<T>::empty(),
            vec.index_width() == 2,
    {
        PaletteVec::with_index_width(2, 16)
    }
}

/// A pass over the slots of a [`PaletteVec`], in index order.
pub struct PaletteVecIterator<'a, T> where T: Eq + Default + Hash + Clone {
    inner: &'a PaletteVec<T>,
    inner_iter: PackedIntVecIterator<'a>,
}

impl<'a, T> PaletteVecIterator<'a, T> where T: Eq + Default + Hash + Clone {
    /// The slots of the vector that is being walked.
    pub closed spec fn source(&self) -> Seq<T> {
        self.inner@
    }

    /// How many slots have been handed out.
    pub closed spec fn position(&self) -> nat {
        self.inner_iter.position()
    }

    /// The slots still to come.
    pub open spec fn remaining(&self) -> Seq<T> {
        self.source().subrange(self.position() as int, self.source().len() as int)
    }

    /// The iterator stands at a slot of a well-formed vector, or at its end.
    pub closed spec fn wf(&self) -> bool {
        &&& self.inner.wf()
        &&& self.inner_iter.wf()
        &&& self.inner_iter.source() == self.inner.indices@
    }

    /// The value of the next slot, or `None` once every slot has been handed out.
    #[inline]
    pub fn next(&mut self) -> (item: Option<&'a T>)
        requires
            old(self).wf(),
        ensures
            final(self).wf(),
            final(self).source() == old(self).source(),
            old(self).position() < old(self).source().len() ==> {
                &&& item == Some(&old(self).source()[old(self).position() as int])
                &&& final(self).position() == old(self).position() + 1
            },
            old(self).position() >= old(self).source().len() ==> {
                &&& item is None
                &&& final(self).position() == old(self).position()
            },
    {
        if let Some(index) = self.inner_iter.next() {
            assert(self.inner.palette.len() == self.inner.palette@.len());
            Some(&self.inner.palette[index as usize])
        } else {
            None
        }
    }
}

} // verus!
