//! A vec-like collection that stores unsigned integers of up to 64 bits in a packed format.

use vstd::prelude::*;
use vstd::arithmetic::div_mod::{lemma_div_decreases, lemma_small_mod};
use vstd::std_specs::iter::IteratorSpec;

use crate::collections::packing::{
    is_repeated, items, items_per_cell, lemma_cell_and_field, lemma_cell_count_next,
    lemma_field_bounded, lemma_field_fits, lemma_filled_cells, lemma_index_in_cells,
    lemma_items_per_cell, lemma_max_for_width, lemma_push_item, lemma_set_item,
    lemma_well_packed_is_packed, lemma_with_field, lemma_zero_cell, max_for_width, packed,
    well_packed, BITS_IN_U64,
};

verus! {

/// A growable sequence of unsigned integers, each stored in a fixed number of bits.
///
/// Items are packed into 64-bit cells from bit 0 upward. A width that does not divide 64 leaves
/// the top bits of every cell unused: seven-bit items go nine to a cell, in 63 of its 64 bits.
#[derive(Debug)]
pub struct PackedIntVec {
    item_size: usize,
    max_item: u64,
    items_per_cell: usize,
    len: usize,
    inner: Vec<u64>,
}

impl View for PackedIntVec {
    type V = Seq<u64>;

    /// The stored integers, in index order.
    closed spec fn view(&self) -> Seq<u64> {
        items(self.inner@, self.len as nat, self.item_size as nat)
    }
}

impl PackedIntVec {
    /// Bits per item.
    pub closed spec fn item_width(&self) -> nat {
        self.item_size as nat
    }

    /// The storage cells, in order.
    pub closed spec fn cells(&self) -> Seq<u64> {
        self.inner@
    }

    /// The representation invariant: the width is between 1 and 64, the cached mask and
    /// items-per-cell count belong to it, and the cells are well packed.
    pub closed spec fn wf(&self) -> bool {
        &&& self.max_item == max_for_width(self.item_size as nat)
        &&& self.items_per_cell == items_per_cell(self.item_size as nat)
        &&& well_packed(self.inner@, self.len as nat, self.item_size as nat)
    }

    /// The width of a well-formed vector is between 1 and 64 bits, every item fits it, and
    /// the cells are the packing of the items: the storage holds nothing but the items.
    pub proof fn lemma_wf(&self)
        requires
            self.wf(),
        ensures
            1 <= self.item_width() <= 64,
            self@.len() <= usize::MAX,
            forall|i: int|
                0 <= i < self@.len() ==> #[trigger] self@[i] <= max_for_width(self.item_width()),
            self.cells() == packed(self@, self.item_width()),
    {
        lemma_well_packed_is_packed(self.inner@, self.len as nat, self.item_size as nat);
        assert forall|i: int| 0 <= i < self@.len() implies #[trigger] self@[i] <= max_for_width(
            self.item_width(),
        ) by {
            lemma_field_bounded(
                self.inner@[i / (items_per_cell(self.item_size as nat) as int)],
                (i % (items_per_cell(self.item_size as nat) as int)) as nat,
                self.item_size as nat,
            );
        }
    }

    /// Two well-formed vectors of one width that hold the same items have the same cells.
    pub proof fn lemma_same_items_same_cells(&self, other: &PackedIntVec)
        requires
            self.wf(),
            other.wf(),
            self.item_width() == other.item_width(),
            self@ == other@,
        ensures
            self.cells() == other.cells(),
    {
        self.lemma_wf();
        other.lemma_wf();
    }

    /// An empty vector of `int_size`-bit integers.
    #[inline]
    pub fn new(int_size: u32) -> (vec: PackedIntVec)
        requires
            1 <= int_size <= 64,
        ensures
            vec.wf(),
            vec.item_width() == int_size,
            vec@ == Seq::<u64>::empty(),
    {
        PackedIntVec::with_capacity(int_size, 16)
    }

    /// An empty vector of `int_size`-bit integers with room for `capacity` of them.
    pub fn with_capacity(int_size: u32, capacity: usize) -> (vec: PackedIntVec)
        requires
            1 <= int_size <= 64,
        ensures
            vec.wf(),
            vec.item_width() == int_size,
            vec@ == Seq::<u64>::empty(),
    {
        proof {
            lemma_items_per_cell(int_size as nat);
            lemma_max_for_width(int_size as nat);
        }
        let max_item: u64 = if int_size as usize != BITS_IN_U64 {
            (1u64 << int_size) - 1
        } else {
            u64::MAX
        };
        let item_size: usize = int_size as usize;
        let items_per_cell: usize = BITS_IN_U64 / item_size;
        let spill: usize = if capacity % items_per_cell == 0 {
            0
        } else {
            proof {
                if capacity == 0 {
                    lemma_small_mod(0, items_per_cell as nat);
                }
                lemma_div_decreases(capacity as int, items_per_cell as int);
            }
            1
        };
        let vec = PackedIntVec {
            item_size,
            max_item,
            items_per_cell,
            len: 0,
            inner: with_room(capacity / items_per_cell + spill),
        };
        vec
    }

    /// A vector of `len` copies of `value`, each `int_size` bits wide.
    #[inline]
    pub fn filled(int_size: u32, len: usize, value: u64) -> (vec: PackedIntVec)
        requires
            1 <= int_size <= 64,
            value <= max_for_width(int_size as nat),
        ensures
            vec.wf(),
            vec.item_width() == int_size,
            vec@ == Seq::new(len as nat, |i: int| value),
    {
        let mut vec = PackedIntVec::with_capacity(int_size, len);
        vec.fill(len, value);
        vec
    }

    /// Resets the vector to `len` copies of `value`. The width stays.
    pub fn fill(&mut self, len: usize, value: u64)
        requires
            old(self).wf(),
            value <= max_for_width(old(self).item_width()),
        ensures
            final(self).wf(),
            final(self).item_width() == old(self).item_width(),
            final(self)@ == Seq::new(len as nat, |i: int| value),
            final(self).cells() == packed(final(self)@, final(self).item_width()),
    {
        proof {
            lemma_items_per_cell(self.item_size as nat);
            lemma_cell_count_next(len as nat, self.item_size as nat);
        }
        self.inner.clear();
        let full_cells: usize = len / self.items_per_cell;
        let rest: usize = len % self.items_per_cell;
        let full: u64 = self.repeated(value, self.items_per_cell);
        let mut cell_index: usize = 0;
        while cell_index < full_cells
            invariant
                cell_index <= full_cells,
                self.inner@.len() == cell_index,
                self.item_size == old(self).item_size,
                self.max_item == old(self).max_item,
                self.items_per_cell == old(self).items_per_cell,
                forall|c: int|
                    0 <= c < cell_index ==> is_repeated(
                        #[trigger] self.inner@[c],
                        self.item_size as nat,
                        value,
                        self.items_per_cell as nat,
                    ),
                is_repeated(full, self.item_size as nat, value, self.items_per_cell as nat),
            decreases full_cells - cell_index,
        {
            self.inner.push(full);
            cell_index += 1;
        }
        if rest > 0 {
            let last: u64 = self.repeated(value, rest);
            self.inner.push(last);
        }
        self.len = len;
        proof {
            lemma_filled_cells(self.inner@, len as nat, self.item_size as nat, value);
            self.lemma_wf();
        }
    }

    /// The cell whose first `count` fields hold `value`, and which is zero above them.
    fn repeated(&self, value: u64, count: usize) -> (cell: u64)
        requires
            1 <= self.item_size <= 64,
            self.max_item == max_for_width(self.item_size as nat),
            self.items_per_cell == items_per_cell(self.item_size as nat),
            value <= self.max_item,
            count <= self.items_per_cell,
        ensures
            is_repeated(cell, self.item_size as nat, value, count as nat),
    {
        let mut cell: u64 = 0;
        let mut subindex: usize = 0;
        proof {
            lemma_zero_cell(self.item_size as nat);
        }
        while subindex < count
            invariant
                subindex <= count <= self.items_per_cell,
                1 <= self.item_size <= 64,
                self.max_item == max_for_width(self.item_size as nat),
                self.items_per_cell == items_per_cell(self.item_size as nat),
                value <= self.max_item,
                is_repeated(cell, self.item_size as nat, value, subindex as nat),
            decreases count - subindex,
        {
            proof {
                lemma_field_fits(subindex as nat, self.item_size as nat);
                lemma_with_field(cell, subindex as nat, self.item_size as nat, value);
            }
            let shift_amt: usize = subindex * self.item_size;
            let zeroed: u64 = !(self.max_item << shift_amt) & cell;
            cell = zeroed | (value << shift_amt);
            subindex += 1;
        }
        cell
    }

    /// A copy of the vector with `new_int_size`-bit items. Every item must fit the new width.
    pub fn resized_copy(&self, new_int_size: u32) -> (copy: PackedIntVec)
        requires
            self.wf(),
            1 <= new_int_size <= 64,
            forall|i: int|
                0 <= i < self@.len() ==> self@[i] <= max_for_width(new_int_size as nat),
        ensures
            copy.wf(),
            copy.item_width() == new_int_size,
            copy@ == self@,
            copy.cells() == packed(self@, new_int_size as nat),
    {
        let mut copy = PackedIntVec::with_capacity(new_int_size, self.len);
        let mut index: usize = 0;
        while index < self.len
            invariant
                self.wf(),
                copy.wf(),
                copy.item_width() == new_int_size,
                index <= self.len,
                self.len == self@.len(),
                forall|i: int|
                    0 <= i < self@.len() ==> self@[i] <= max_for_width(new_int_size as nat),
                copy@ == self@.subrange(0, index as int),
            decreases self.len - index,
        {
            let value: u64 = self.get(index);
            copy.push(value);
            index += 1;
        }
        proof {
            copy.lemma_wf();
        }
        copy
    }

    /// An iterator over the items, in index order.
    #[inline]
    pub fn iter(&self) -> (iter: PackedIntVecIterator<'_>)
        requires
            self.wf(),
        ensures
            iter.wf(),
            iter.source() == self@,
            iter.position() == 0,
    {
        proof {
            lemma_items_per_cell(self.item_size as nat);
        }
        PackedIntVecIterator { inner: self, cell_index: 0, cell_subindex: 0 }
    }

    /// A vector of `int_size`-bit integers that holds the items of `iter`, in order.
    pub fn from_iter<I: Iterator<Item = u64>>(int_size: u32, iter: I) -> (vec: PackedIntVec)
        requires
            1 <= int_size <= 64,
            iter.obeys_prophetic_iter_laws(),
            iter.decrease() is Some,
            iter.remaining().len() <= usize::MAX,
            forall|i: int|
                0 <= i < iter.remaining().len() ==> iter.remaining()[i] <= max_for_width(
                    int_size as nat,
                ),
        ensures
            vec.wf(),
            vec.item_width() == int_size,
            vec@ == iter.remaining(),
    {
        let mut iter = iter;
        let mut vec = PackedIntVec::with_capacity(int_size, 0);
        let ghost all = iter.remaining();
        loop
            invariant
                vec.wf(),
                vec.item_width() == int_size,
                iter.obeys_prophetic_iter_laws(),
                iter.decrease() is Some,
                all.len() <= usize::MAX,
                forall|i: int| 0 <= i < all.len() ==> all[i] <= max_for_width(int_size as nat),
                vec@.len() <= all.len(),
                vec@ == all.subrange(0, vec@.len() as int),
                iter.remaining() == all.subrange(vec@.len() as int, all.len() as int),
            ensures
                vec@ == all,
            decreases iter.decrease()->0,
        {
            match iter.next() {
                Some(value) => {
                    vec.push(value);
                },
                None => {
                    break ;
                },
            }
        }
        vec
    }

    /// Removes every item. The width stays.
    #[inline]
    pub fn clear(&mut self)
        requires
            old(self).wf(),
        ensures
            final(self).wf(),
            final(self).item_width() == old(self).item_width(),
            final(self)@ == Seq::<u64>::empty(),
    {
        self.inner.clear();
        self.len = 0;
    }

    /// The number of stored integers.
    #[inline]
    pub fn len(&self) -> (n: usize)
        ensures
            n == self@.len(),
    {
        self.len
    }

    /// Whether no integer is stored.
    #[inline]
    pub fn is_empty(&self) -> (b: bool)
        ensures
            b == (self@.len() == 0),
    {
        self.len == 0
    }

    /// The largest integer that an item can hold.
    #[inline]
    pub fn max_item(&self) -> (m: u64)
        requires
            self.wf(),
        ensures
            m == max_for_width(self.item_width()),
    {
        self.max_item
    }

    /// The storage cells. In a well-formed vector they are the packing of the items.
    #[inline]
    pub fn storage(&self) -> (cells: &[u64])
        ensures
            cells@ == self.cells(),
            self.wf() ==> cells@ == packed(self@, self.item_width()),
    {
        proof {
            if self.wf() {
                self.lemma_wf();
            }
        }
        self.inner.as_slice()
    }

    /// The item at `index`.
    pub fn get(&self, index: usize) -> (value: u64)
        requires
            self.wf(),
            index < self@.len(),
        ensures
            value == self@[index as int],
            value <= max_for_width(self.item_width()),
    {
        proof {
            lemma_index_in_cells(index as nat, self.len as nat, self.item_size as nat);
        }
        let cell_index: usize = index / self.items_per_cell;
        let cell_subindex: usize = index % self.items_per_cell;
        proof {
            lemma_field_fits(cell_subindex as nat, self.item_size as nat);
            lemma_field_bounded(
                self.inner@[cell_index as int],
                cell_subindex as nat,
                self.item_size as nat,
            );
        }
        let cell: u64 = self.inner[cell_index];
        let shift_amt: usize = cell_subindex * self.item_size;
        (cell >> shift_amt) & self.max_item
    }

    /// Sets the item at `index` to `value`.
    pub fn set(&mut self, index: usize, value: u64)
        requires
            old(self).wf(),
            index < old(self)@.len(),
            value <= max_for_width(old(self).item_width()),
        ensures
            final(self).wf(),
            final(self).item_width() == old(self).item_width(),
            final(self)@ == old(self)@.update(index as int, value),
            final(self).cells() == packed(final(self)@, final(self).item_width()),
    {
        proof {
            lemma_index_in_cells(index as nat, self.len as nat, self.item_size as nat);
            lemma_set_item(
                self.inner@,
                self.len as nat,
                self.item_size as nat,
                index as nat,
                value,
            );
        }
        let cell_index: usize = index / self.items_per_cell;
        let cell_subindex: usize = index % self.items_per_cell;
        proof {
            lemma_field_fits(cell_subindex as nat, self.item_size as nat);
        }
        let cell: u64 = self.inner[cell_index];
        let shift_amt: usize = cell_subindex * self.item_size;
        let zeroed: u64 = !(self.max_item << shift_amt) & cell;
        self.inner.set(cell_index, zeroed | (value << shift_amt));
        proof {
            self.lemma_wf();
        }
    }

    /// Appends `value`.
    pub fn push(&mut self, value: u64)
        requires
            old(self).wf(),
            old(self)@.len() < usize::MAX,
            value <= max_for_width(old(self).item_width()),
        ensures
            final(self).wf(),
            final(self).item_width() == old(self).item_width(),
            final(self)@ == old(self)@.push(value),
            final(self).cells() == packed(final(self)@, final(self).item_width()),
    {
        proof {
            lemma_index_in_cells(self.len as nat, (self.len + 1) as nat, self.item_size as nat);
            lemma_cell_count_next(self.len as nat, self.item_size as nat);
            lemma_push_item(self.inner@, self.len as nat, self.item_size as nat, value);
        }
        let index: usize = self.len;
        self.len += 1;
        let cell_index: usize = index / self.items_per_cell;
        if cell_index >= self.inner.len() {
            self.inner.push(0)
        }
        let cell_subindex: usize = index % self.items_per_cell;
        proof {
            lemma_field_fits(cell_subindex as nat, self.item_size as nat);
        }
        let cell: u64 = self.inner[cell_index];
        let shift_amt: usize = cell_subindex * self.item_size;
        let zeroed: u64 = !(self.max_item << shift_amt) & cell;
        self.inner.set(cell_index, zeroed | (value << shift_amt));
        proof {
            self.lemma_wf();
        }
    }
}

/// An empty vector with room for `capacity` items, where that much room can be had.
pub(crate) fn with_room<T>(capacity: usize) -> (vec: Vec<T>)
    ensures
        vec@ == Seq::<T>::empty(),
{
    let mut vec: Vec<T> = Vec::new();
    let _ = vec.try_reserve(capacity);
    vec
}

/// The items after a run of `set` calls, each given as the index and the value written.
pub open spec fn after_sets(items: Seq<u64>, writes: Seq<(int, u64)>) -> Seq<u64>
    decreases writes.len(),
{
    if writes.len() == 0 {
        items
    } else {
        after_sets(items, writes.drop_last()).update(writes.last().0, writes.last().1)
    }
}

/// The value that the last of `writes` to `index` wrote, if any of them wrote there.
pub open spec fn last_set(writes: Seq<(int, u64)>, index: int) -> Option<u64>
    decreases writes.len(),
{
    if writes.len() == 0 {
        None
    } else if writes.last().0 == index {
        Some(writes.last().1)
    } else {
        last_set(writes.drop_last(), index)
    }
}

/// After any run of `set` calls, `get` returns at every index the value that was last set
/// there, and where none was set, the value that was there before.
pub proof fn lemma_get_returns_last_set(items: Seq<u64>, writes: Seq<(int, u64)>, index: int)
    requires
        0 <= index < items.len(),
        forall|k: int| 0 <= k < writes.len() ==> 0 <= (#[trigger] writes[k]).0 < items.len(),
    ensures
        after_sets(items, writes).len() == items.len(),
        after_sets(items, writes)[index] == match last_set(writes, index) {
            Some(value) => value,
            None => items[index],
        },
    decreases writes.len(),
{
    if writes.len() > 0 {
        let earlier = writes.drop_last();
        lemma_get_returns_last_set(items, earlier, index);
    }
}

/// A pass over the items of a [`PackedIntVec`], in index order.
pub struct PackedIntVecIterator<'a> {
    inner: &'a PackedIntVec,
    cell_index: usize,
    cell_subindex: usize,
}

impl<'a> PackedIntVecIterator<'a> {
    /// The items of the vector that is being walked.
    pub closed spec fn source(&self) -> Seq<u64> {
        self.inner@
    }

    /// How many items have been handed out.
    pub closed spec fn position(&self) -> nat {
        (self.cell_index * self.inner.items_per_cell + self.cell_subindex) as nat
    }

    /// The items still to come.
    pub open spec fn remaining(&self) -> Seq<u64> {
        self.source().subrange(self.position() as int, self.source().len() as int)
    }

    /// The iterator stands at an item of a well-formed vector, or at its end.
    pub closed spec fn wf(&self) -> bool {
        &&& self.inner.wf()
        &&& self.cell_subindex < self.inner.items_per_cell
        &&& self.position() <= self.inner.len
    }

    /// The next item, or `None` once every item has been handed out.
    pub fn next(&mut self) -> (item: Option<u64>)
        requires
            old(self).wf(),
        ensures
            final(self).wf(),
            final(self).source() == old(self).source(),
            old(self).position() < old(self).source().len() ==> {
                &&& item == Some(old(self).source()[old(self).position() as int])
                &&& final(self).position() == old(self).position() + 1
            },
            old(self).position() >= old(self).source().len() ==> {
                &&& item is None
                &&& final(self).position() == old(self).position()
            },
    {
        let per: usize = self.inner.items_per_cell;
        let position: usize = self.cell_index * per + self.cell_subindex;
        if position >= self.inner.len {
            return None;
        }
        proof {
            let width = self.inner.item_size as nat;
            lemma_cell_and_field(self.cell_index as nat, self.cell_subindex as nat, width);
            lemma_index_in_cells(position as nat, self.inner.len as nat, width);
            lemma_field_fits(self.cell_subindex as nat, width);
            assert((self.cell_index + 1) * per == self.cell_index * per + per)
                by (nonlinear_arith);
        }
        let cell: u64 = self.inner.inner[self.cell_index];
        let shift_amt: usize = self.cell_subindex * self.inner.item_size;
        let value: u64 = (cell >> shift_amt) & self.inner.max_item;
        self.cell_subindex += 1;
        if self.cell_subindex >= per {
            self.cell_index += 1;
            self.cell_subindex = 0;
        }
        Some(value)
    }

    /// Bounds on the number of items still to come: the upper bound is exact.
    #[inline]
    pub fn size_hint(&self) -> (hint: (usize, Option<usize>))
        requires
            self.wf(),
        ensures
            hint.0 == 0,
            hint.1 == Some((self.source().len() - self.position()) as usize),
    {
        (
            0,
            Some(
                self.inner.len - ((self.cell_index * self.inner.items_per_cell)
                    + self.cell_subindex),
            ),
        )
    }
}

} // verus!
