//! A pool of values that are reached through handles. A slot that was freed is used again,
//! and the handles to what it held before stay dead.

use vstd::prelude::*;

use std::marker::PhantomData;

verus! {

/// Names one value in a [`Pool`]: the slot, and which of the values that the slot has held.
#[derive(Debug)]
pub struct Handle<T> {
    index: usize,
    epoch: usize,
    marker: PhantomData<T>,
}

impl<T> Copy for Handle<T> {

}

impl<T> Clone for Handle<T> {
    fn clone(&self) -> (copy: Handle<T>)
        ensures
            copy == *self,
    {
        *self
    }
}

impl<T> Default for Handle<T> {
    /// A handle that no pool has given out: slot 0, before its first value.
    fn default() -> (handle: Handle<T>)
        ensures
            handle.spec_index() == 0,
            handle.spec_epoch() == 0,
    {
        Handle { index: 0, epoch: 0, marker: PhantomData }
    }
}

impl<T> Handle<T> {
    /// The slot that the handle points to.
    pub closed spec fn spec_index(&self) -> usize {
        self.index
    }

    /// Which of the values of its slot the handle stands for, counted from 1.
    pub closed spec fn spec_epoch(&self) -> usize {
        self.epoch
    }
}

#[derive(Debug)]
struct Entry<T> {
    epoch: usize,
    data: Option<T>,
}

/// A pool of values, each reached through the [`Handle`] that `register` gave for it.
#[derive(Debug)]
pub struct Pool<T> {
    entries: Vec<Entry<T>>,
    free_list: Vec<usize>,
}

impl<T> View for Pool<T> {
    type V = Map<Handle<T>, T>;

    /// The live handles, each with its value.
    closed spec fn view(&self) -> Map<Handle<T>, T> {
        Map::new(
            |handle: Handle<T>|
                handle.index < self.entries@.len() && self.entries@[handle.index as int].epoch
                    == handle.epoch && self.entries@[handle.index as int].data is Some,
            |handle: Handle<T>| self.entries@[handle.index as int].data->0,
        )
    }
}

impl<T> Pool<T> {
    /// The free list names each empty slot that it holds once, and nothing else.
    pub closed spec fn wf(&self) -> bool {
        &&& self.free_list@.no_duplicates()
        &&& forall|k: int|
            0 <= k < self.free_list@.len() ==> {
                &&& (#[trigger] self.free_list@[k]) < self.entries@.len()
                &&& self.entries@[self.free_list@[k] as int].data is None
            }
    }

    /// The number of slots that were freed and wait to be used again.
    pub closed spec fn free_slots(&self) -> nat {
        self.free_list@.len()
    }

    /// The next `register` does not run out of epochs: the slot that it would use again, if
    /// there is one, has held fewer than `usize::MAX` values.
    pub closed spec fn can_register(&self) -> bool {
        self.free_list@.len() > 0 ==> self.entries@[self.free_list@.last() as int].epoch
            < usize::MAX
    }

    /// A pool without freed slots can always take one more value.
    pub proof fn lemma_can_register(&self)
        requires
            self.free_slots() == 0,
        ensures
            self.can_register(),
    {
    }

    /// An empty pool.
    pub fn new() -> (pool: Pool<T>)
        ensures
            pool.wf(),
            pool.free_slots() == 0,
            pool@ == Map::<Handle<T>, T>::empty(),
    {
        let pool = Pool { entries: Vec::new(), free_list: Vec::new() };
        pool
    }

    /// Whether the next `register` can be made.
    pub fn has_room(&self) -> (room: bool)
        requires
            self.wf(),
        ensures
            room == self.can_register(),
    {
        let free: usize = self.free_list.len();
        if free == 0 {
            true
        } else {
            self.entries[self.free_list[free - 1]].epoch < usize::MAX
        }
    }

    /// Puts `data` into the pool and returns the handle to it. The handle is new: it was
    /// not live before, and no handle that was live is touched.
    pub fn register(&mut self, data: T) -> (handle: Handle<T>)
        requires
            old(self).wf(),
            old(self).can_register(),
        ensures
            final(self).wf(),
            !old(self)@.dom().contains(handle),
            final(self)@ == old(self)@.insert(handle, data),
            final(self).free_slots() == if old(self).free_slots() > 0 {
                old(self).free_slots() - 1
            } else {
                0
            },
    {
        let keep = |held: &mut T, given: Handle<T>|
            ensures
                *final(held) == *old(held),
            {
            };
        self.register_with_callback(data, keep)
    }

    /// Puts `data` into the pool, after `callback` has been called on it with the handle
    /// that it will have: so the handle can be stored in the data itself.
    pub fn register_with_callback<F: Fn(&mut T, Handle<T>)>(
        &mut self,
        data: T,
        callback: F,
    ) -> (handle: Handle<T>)
        requires
            old(self).wf(),
            old(self).can_register(),
            forall|held: &mut T, given: Handle<T>|
                *held == data ==> call_requires(callback, (held, given)),
        ensures
            final(self).wf(),
            !old(self)@.dom().contains(handle),
            exists|held: &mut T|
                {
                    &&& *held == data
                    &&& #[trigger] call_ensures(callback, (held, handle), ())
                    &&& final(self)@ == old(self)@.insert(handle, *final(held))
                },
            final(self).free_slots() == if old(self).free_slots() > 0 {
                old(self).free_slots() - 1
            } else {
                0
            },
    {
        if let Some(index) = self.free_list.pop() {
            let epoch: usize = self.entries[index].epoch + 1;
            let handle = Handle { index, epoch, marker: PhantomData };
            let mut data = data;
            callback(&mut data, handle);
            self.entries.set(index, Entry { epoch, data: Some(data) });
            handle
        } else {
            let index: usize = self.entries.len();
            let handle = Handle { index, epoch: 1, marker: PhantomData };
            let mut data = data;
            callback(&mut data, handle);
            self.entries.push(Entry { epoch: 1, data: Some(data) });
            handle
        }
    }

    /// Takes the value of `handle` out of the pool. The handle must be live.
    #[inline]
    pub fn remove(&mut self, handle: Handle<T>) -> (removed: T)
        requires
            old(self).wf(),
            old(self)@.dom().contains(handle),
        ensures
            final(self).wf(),
            removed == old(self)@[handle],
            final(self)@ == old(self)@.remove(handle),
            final(self).free_slots() == old(self).free_slots() + 1,
    {
        self.try_remove(handle).unwrap()
    }

    /// Takes the value of `handle` out of the pool, if the handle is live. Its slot is free
    /// from then on, and the handle is dead for good.
    pub fn try_remove(&mut self, handle: Handle<T>) -> (removed: Option<T>)
        requires
            old(self).wf(),
        ensures
            final(self).wf(),
            old(self)@.dom().contains(handle) ==> {
                &&& removed == Some(old(self)@[handle])
                &&& final(self)@ == old(self)@.remove(handle)
                &&& final(self).free_slots() == old(self).free_slots() + 1
            },
            !old(self)@.dom().contains(handle) ==> {
                &&& removed is None
                &&& final(self)@ == old(self)@
                &&& final(self).free_slots() == old(self).free_slots()
            },
    {
        if handle.index < self.entries.len() {
            if self.entries[handle.index].epoch != handle.epoch
                || self.entries[handle.index].data.is_none() {
                return None;
            }
            assert(!self.free_list@.contains(handle.index)) by {
                if self.free_list@.contains(handle.index) {
                    let k = choose|k: int|
                        0 <= k < self.free_list@.len() && self.free_list@[k] == handle.index;
                }
            }
            self.free_list.push(handle.index);
            let removed = self.entries[handle.index].data.take();
            removed
        } else {
            None
        }
    }

    /// The value of `handle`. The handle must be live.
    #[inline]
    pub fn get(&self, handle: Handle<T>) -> (value: &T)
        requires
            self@.dom().contains(handle),
        ensures
            *value == self@[handle],
    {
        self.try_get(handle).unwrap()
    }

    /// The value of `handle`, if the handle is live.
    pub fn try_get(&self, handle: Handle<T>) -> (value: Option<&T>)
        ensures
            self@.dom().contains(handle) ==> value == Some(&self@[handle]),
            !self@.dom().contains(handle) ==> value is None,
    {
        if handle.index < self.entries.len() {
            let entry = &self.entries[handle.index];
            if entry.epoch != handle.epoch || entry.data.is_none() {
                return None;
            }
            entry.data.as_ref()
        } else {
            None
        }
    }

    /// The value of `handle`, for writing. The handle must be live.
    #[inline]
    pub fn get_mut(&mut self, handle: Handle<T>) -> (value: &mut T)
        requires
            old(self).wf(),
            old(self)@.dom().contains(handle),
        ensures
            *value == old(self)@[handle],
            final(self).wf(),
            final(self)@ == old(self)@.insert(handle, *final(value)),
            final(self).free_slots() == old(self).free_slots(),
    {
        self.try_get_mut(handle).unwrap()
    }

    /// The value of `handle`, for writing, if the handle is live.
    pub fn try_get_mut(&mut self, handle: Handle<T>) -> (value: Option<&mut T>)
        requires
            old(self).wf(),
        ensures
            final(self).wf(),
            final(self).free_slots() == old(self).free_slots(),
            old(self)@.dom().contains(handle) ==> {
                &&& value matches Some(found)
                &&& *found == old(self)@[handle]
                &&& final(self)@ == old(self)@.insert(handle, *final(found))
            },
            !old(self)@.dom().contains(handle) ==> {
                &&& value is None
                &&& final(self)@ == old(self)@
            },
    {
        if handle.index < self.entries.len() {
            if self.entries[handle.index].epoch != handle.epoch
                || self.entries[handle.index].data.is_none() {
                return None;
            }
            self.entries[handle.index].data.as_mut()
        } else {
            None
        }
    }

    /// The values in the pool, in the order of their slots.
    pub closed spec fn values(&self) -> Seq<T> {
        values_from(self.entries@, 0)
    }

    /// Whether `value` is the value of a live handle.
    pub open spec fn holds(&self, value: T) -> bool {
        exists|handle: Handle<T>| self@.dom().contains(handle) && self@[handle] == value
    }

    /// The values in the pool are the values of the live handles: every value in slot order
    /// belongs to a live handle, and every live handle has its value among them.
    pub proof fn lemma_values(&self)
        ensures
            forall|k: int| 0 <= k < self.values().len() ==> self.holds(#[trigger] self.values()[k]),
            forall|handle: Handle<T>|
                self@.dom().contains(handle) ==> self.values().contains(#[trigger] self@[handle]),
    {
        lemma_values_from(self.entries@, 0);
        assert(self.entries@.len() == self.entries.len());
        assert forall|k: int| 0 <= k < self.values().len() implies self.holds(
            #[trigger] self.values()[k],
        ) by {
            let slot = choose|slot: int|
                0 <= slot < self.entries@.len() && self.entries@[slot].data == Some(
                    self.values()[k],
                );
            let handle = Handle::<T> {
                index: slot as usize,
                epoch: self.entries@[slot].epoch,
                marker: PhantomData,
            };
            assert(self@.dom().contains(handle) && self@[handle] == self.values()[k]);
        }
    }

    /// An iterator over the values in the pool, in the order of their slots.
    #[inline]
    pub fn iter(&self) -> (iter: PoolIter<'_, T>)
        ensures
            iter.remaining() == self.values(),
    {
        PoolIter { inner: self, index: 0 }
    }

    /// An iterator over the values in the pool, for writing, in the order of their slots.
    #[inline]
    pub fn iter_mut(&mut self) -> (iter: PoolIterMut<'_, T>)
        requires
            old(self).wf(),
        ensures
            iter.remaining() == old(self).values(),
    {
        PoolIterMut { inner: self, index: 0 }
    }
}

impl<T> Default for Pool<T> {
    /// An empty pool.
    #[inline]
    fn default() -> (pool: Pool<T>)
        ensures
            pool.wf(),
            pool.free_slots() == 0,
            pool@ == Map::<Handle<T>, T>::empty(),
    {
        Pool::new()
    }
}

/// The values held in the slots from `start` on, in slot order.
spec fn values_from<T>(entries: Seq<Entry<T>>, start: int) -> Seq<T>
    decreases entries.len() - start,
{
    if start < 0 || start >= entries.len() {
        Seq::empty()
    } else if entries[start].data is Some {
        seq![entries[start].data->0] + values_from(entries, start + 1)
    } else {
        values_from(entries, start + 1)
    }
}

/// The values from `start` on are what the slots from `start` on hold, no more and no less.
proof fn lemma_values_from<T>(entries: Seq<Entry<T>>, start: int)
    requires
        0 <= start,
    ensures
        forall|k: int|
            0 <= k < values_from(entries, start).len() ==> exists|slot: int|
                start <= slot < entries.len() && entries[slot].data == Some(
                    #[trigger] values_from(entries, start)[k],
                ),
        forall|slot: int|
            start <= slot < entries.len() && entries[slot].data is Some ==> values_from(
                entries,
                start,
            ).contains(#[trigger] entries[slot].data->0),
    decreases entries.len() - start,
{
    if start < entries.len() {
        lemma_values_from(entries, start + 1);
        let here = values_from(entries, start);
        let rest = values_from(entries, start + 1);
        let shift: int = if entries[start].data is Some { 1 } else { 0 };
        assert forall|k: int| 0 <= k < here.len() implies exists|slot: int|
            start <= slot < entries.len() && entries[slot].data == Some(#[trigger] here[k]) by {
            if shift == 1 && k == 0 {
            } else {
                let slot = choose|slot: int|
                    start + 1 <= slot < entries.len() && entries[slot].data == Some(
                        rest[k - shift],
                    );
            }
        }
        assert forall|slot: int|
            start <= slot < entries.len() && entries[slot].data is Some implies here.contains(
            #[trigger] entries[slot].data->0,
        ) by {
            if slot == start {
                assert(here[0] == entries[slot].data->0);
            } else {
                let value = entries[slot].data->0;
                let k = choose|k: int| 0 <= k < rest.len() && rest[k] == value;
                assert(here[k + shift] == value);
            }
        }
    }
}

/// The values from `start` on do not depend on the slots before `start`.
proof fn lemma_values_from_agree<T>(a: Seq<Entry<T>>, b: Seq<Entry<T>>, start: int)
    requires
        0 <= start,
        a.len() == b.len(),
        forall|i: int| start <= i < a.len() ==> a[i] == b[i],
    ensures
        values_from(a, start) == values_from(b, start),
    decreases a.len() - start,
{
    if start < a.len() {
        lemma_values_from_agree(a, b, start + 1);
    }
}

/// A pass over the values of a [`Pool`], in the order of their slots.
pub struct PoolIter<'a, T: 'a> {
    inner: &'a Pool<T>,
    index: usize,
}

impl<'a, T> PoolIter<'a, T> {
    /// The values still to come.
    pub closed spec fn remaining(&self) -> Seq<T> {
        values_from(self.inner.entries@, self.index as int)
    }

    /// The next value, or `None` once every value has been handed out.
    pub fn next(&mut self) -> (item: Option<&'a T>)
        ensures
            old(self).remaining().len() > 0 ==> {
                &&& item == Some(&old(self).remaining()[0])
                &&& final(self).remaining() == old(self).remaining().drop_first()
            },
            old(self).remaining().len() == 0 ==> {
                &&& item is None
                &&& final(self).remaining() == old(self).remaining()
            },
    {
        loop
            invariant
                self.inner == old(self).inner,
                self.remaining() == old(self).remaining(),
            decreases self.inner.entries@.len() - self.index,
        {
            if self.index >= self.inner.entries.len() {
                return None;
            }
            let entry = &self.inner.entries[self.index];
            self.index += 1;
            if entry.data.is_some() {
                return entry.data.as_ref();
            }
        }
    }
}

/// A pass over the values of a [`Pool`], for writing, in the order of their slots.
pub struct PoolIterMut<'a, T: 'a> {
    inner: &'a mut Pool<T>,
    index: usize,
}

impl<'a, T> PoolIterMut<'a, T> {
    /// The values still to come.
    pub closed spec fn remaining(&self) -> Seq<T> {
        values_from(self.inner.entries@, self.index as int)
    }

    /// The next value, for writing, or `None` once every value has been handed out. What
    /// is written through the reference does not touch the values still to come.
    pub fn next(&mut self) -> (item: Option<&mut T>)
        ensures
            old(self).remaining().len() > 0 ==> {
                &&& item matches Some(value)
                &&& *value == old(self).remaining()[0]
                &&& final(self).remaining() == old(self).remaining().drop_first()
            },
            old(self).remaining().len() == 0 ==> {
                &&& item is None
                &&& final(self).remaining() == old(self).remaining()
            },
    {
        loop
            invariant
                self.remaining() == old(self).remaining(),
            decreases self.inner.entries@.len() - self.index,
        {
            if self.index >= self.inner.entries.len() {
                return None;
            }
            let at: usize = self.index;
            self.index += 1;
            if self.inner.entries[at].data.is_some() {
                proof {
                    let entries = self.inner.entries@;
                    let index = self.index as int;
                    assert forall|other: Seq<Entry<T>>|
                        other.len() == entries.len() && (forall|i: int|
                            index <= i < entries.len() ==> other[i] == entries[i])
                            implies #[trigger] values_from(other, index) == values_from(
                            entries,
                            index,
                        ) by {
                        lemma_values_from_agree(other, entries, index);
                    }
                }
                return self.inner.entries[at].data.as_mut();
            }
        }
    }
}

} // verus!
