//! A pool of objects that are kept under ids and used again after they are deleted.

use vstd::prelude::*;
use vstd::std_specs::hash::{builds_valid_hashers, group_hash_axioms, obeys_key_model};
use vstd::std_specs::iter::IteratorSpec;

use std::collections::hash_map::{Iter, IterMut};
use std::fmt::Debug;
use std::hash::{BuildHasherDefault, Hash};

use crate::collections::xorhash::{XorHashMap, XorHasher};

verus! {

broadcast use group_hash_axioms;

/// A mutable pass over a hash map. Nothing is known of what it holds.
#[verifier::external_type_specification]
#[verifier::external_body]
#[verifier::reject_recursive_types(K)]
#[verifier::reject_recursive_types(V)]
pub struct ExIterMut<'a, K: 'a, V: 'a>(IterMut<'a, K, V>);

/// The id under which a [`HashPool`] keeps an object.
pub trait PoolId: Hash + Eq + Debug + Default + Copy + Clone {
    /// Generate a new id using this id as a seed.
    /// Typically an id is based on an integer and this
    /// method will increment it.
    fn next(&self) -> Self;
}

/// An object that a [`HashPool`] can keep and use again.
pub trait PoolObject: Default {
    /// Clear the object prior to reuse
    fn clear(&mut self);
}

impl PoolObject for u32 {
    #[inline]
    fn clear(&mut self)
        ensures
            *final(self) == 0,
    {
        *self = 0;
    }
}

/// Whether hash maps keyed by `I` behave as maps: equal keys hash alike, and the hasher that
/// the pool uses gives one digest for one sequence of writes.
pub open spec fn hashes_well<I>() -> bool {
    obeys_key_model::<I>() && builds_valid_hashers::<BuildHasherDefault<XorHasher>>()
}

/// Calls `HashMap::get_mut`, which std documents to return a mutable reference to the value
/// that belongs to the key, and `None` where the map has no such key. The contract claims
/// that much of a map whose keys hash well: that the reference points to that value, and that
/// what is written through it changes that value and nothing else.
#[verifier::external_body]
fn map_get_mut<'a, I: PoolId, V>(map: &'a mut XorHashMap<I, V>, id: &I) -> (value: Option<
    &'a mut V,
>)
    ensures
        hashes_well::<I>() ==> match value {
            Some(found) => {
                &&& old(map)@.contains_key(*id)
                &&& *found == old(map)@[*id]
                &&& final(map)@ == old(map)@.insert(*id, *final(found))
            },
            None => !old(map)@.contains_key(*id) && final(map)@ == old(map)@,
        },
{
    map.get_mut(id)
}

/// Calls `HashMap::iter_mut`, which std documents to visit every key with a mutable
/// reference to its value, in arbitrary order. Nothing is claimed of the pass, nor of the
/// map after it.
#[verifier::external_body]
fn map_iter_mut<'a, I: PoolId, V>(map: &'a mut XorHashMap<I, V>) -> (iter: IterMut<'a, I, V>) {
    map.iter_mut()
}

/// A hashmap-based memory pool.
///
/// Rust hashmaps *never implicitly shrink*.
/// This means that they can be used as an efficient sparse data-store and memory pool for
/// non-copy types. Otherwise we can throw items into a free-list.
pub struct HashPool<I, V> where I: PoolId, V: PoolObject {
    id: I,
    inner: XorHashMap<I, V>,
    free_list: Vec<V>,
}

impl<I, V> View for HashPool<I, V> where I: PoolId, V: PoolObject {
    type V = Map<I, V>;

    /// The objects in the pool, each under its id.
    closed spec fn view(&self) -> Map<I, V> {
        self.inner@
    }
}

impl<I, V> HashPool<I, V> where I: PoolId, V: PoolObject {
    /// The id that was given out last, or the default id where none was.
    pub closed spec fn last_id(&self) -> I {
        self.id
    }

    /// The deleted objects that wait to be used again; the last is used first.
    pub closed spec fn spare(&self) -> Seq<V> {
        self.free_list@
    }

    /// An empty pool.
    #[inline]
    pub fn new() -> (pool: HashPool<I, V>)
        ensures
            pool@ == Map::<I, V>::empty(),
            pool.spare() == Seq::<V>::empty(),
            I::default.ensures((), pool.last_id()),
    {
        HashPool { id: I::default(), inner: XorHashMap::default(), free_list: Vec::new() }
    }

    /// Removes the object under `id`, if there is one, and keeps it to be used again.
    #[inline]
    pub fn delete(&mut self, id: &I)
        ensures
            final(self).last_id() == old(self).last_id(),
            hashes_well::<I>() && old(self)@.contains_key(*id) ==> {
                &&& final(self)@ == old(self)@.remove(*id)
                &&& final(self).spare() == old(self).spare().push(old(self)@[*id])
            },
            hashes_well::<I>() && !old(self)@.contains_key(*id) ==> {
                &&& final(self)@ == old(self)@
                &&& final(self).spare() == old(self).spare()
            },
    {
        if let Some(value) = self.inner.remove(id) {
            self.free_list.push(value);
        }
    }

    /// Puts `value` into the pool under the id that follows the last one, and returns that
    /// id. An object that was there under that id is dropped.
    #[inline]
    pub fn register(&mut self, value: V) -> (id: I)
        ensures
            I::next.ensures((&old(self).last_id(),), id),
            final(self).last_id() == id,
            final(self).spare() == old(self).spare(),
            hashes_well::<I>() ==> final(self)@ == old(self)@.insert(id, value),
    {
        self.id = self.id.next();
        self.inner.insert(self.id, value);
        self.id
    }

    /// The object under `id`, if there is one.
    #[inline]
    pub fn get(&self, id: I) -> (value: Option<&V>)
        ensures
            hashes_well::<I>() ==> match value {
                Some(found) => self@.contains_key(id) && *found == self@[id],
                None => !self@.contains_key(id),
            },
    {
        self.inner.get(&id)
    }

    /// The object under `id`, for writing, if there is one.
    #[inline]
    pub fn get_mut(&mut self, id: I) -> (value: Option<&mut V>)
        ensures
            final(self).last_id() == old(self).last_id(),
            final(self).spare() == old(self).spare(),
            hashes_well::<I>() ==> match value {
                Some(found) => {
                    &&& old(self)@.contains_key(id)
                    &&& *found == old(self)@[id]
                    &&& final(self)@ == old(self)@.insert(id, *final(found))
                },
                None => !old(self)@.contains_key(id) && final(self)@ == old(self)@,
            },
    {
        map_get_mut(&mut self.inner, &id)
    }

    /// Takes an object that waits to be used again, cleared, or a new default object where
    /// none waits, and puts it into the pool under the id that follows the last one.
    #[inline]
    pub fn allocate(&mut self) -> (made: (I, &V))
        requires
            hashes_well::<I>(),
        ensures
            I::next.ensures((&old(self).last_id(),), made.0),
            final(self).last_id() == made.0,
            final(self)@ == old(self)@.insert(made.0, *made.1),
            old(self).spare().len() > 0 ==> {
                &&& final(self).spare() == old(self).spare().drop_last()
                &&& exists|held: &mut V|
                    {
                        &&& *held == old(self).spare().last()
                        &&& #[trigger] call_ensures(V::clear, (held,), ())
                        &&& *final(held) == *made.1
                    }
            },
            old(self).spare().len() == 0 ==> {
                &&& final(self).spare() == old(self).spare()
                &&& V::default.ensures((), *made.1)
            },
    {
        if let Some(mut value) = self.free_list.pop() {
            value.clear();
            let id = self.register(value);
            return (id, self.get(id).unwrap());
        }
        let id = self.register(V::default());
        (id, self.get(id).unwrap())
    }

    /// As [`HashPool::allocate`], and then calls `factory` on the id and the object.
    #[inline]
    pub fn create<F: FnOnce(I, &mut V)>(&mut self, factory: F)
        requires
            hashes_well::<I>(),
            forall|id: I, object: &mut V| call_requires(factory, (id, object)),
        ensures
            I::next.ensures((&old(self).last_id(),), final(self).last_id()),
            exists|object: &mut V|
                {
                    &&& #[trigger] call_ensures(factory, (final(self).last_id(), object), ())
                    &&& final(self)@ == old(self)@.insert(final(self).last_id(), *final(object))
                    &&& old(self).spare().len() > 0 ==> exists|held: &mut V|
                        {
                            &&& *held == old(self).spare().last()
                            &&& #[trigger] call_ensures(V::clear, (held,), ())
                            &&& *final(held) == *object
                        }
                    &&& old(self).spare().len() == 0 ==> V::default.ensures((), *object)
                },
            old(self).spare().len() > 0 ==> final(self).spare() == old(self).spare().drop_last(),
            old(self).spare().len() == 0 ==> final(self).spare() == old(self).spare(),
    {
        if let Some(mut value) = self.free_list.pop() {
            value.clear();
            let id = self.register(value);
            factory(id, self.get_mut(id).unwrap());
            return ;
        }
        let id = self.register(V::default());
        factory(id, self.get_mut(id).unwrap())
    }

    /// A pass over the ids and their objects, in no order that can be told beforehand. It
    /// visits every id of the pool once, with its object.
    #[inline]
    pub fn iter(&mut self) -> (iter: Iter<'_, I, V>)
        ensures
            *final(self) == *old(self),
            hashes_well::<I>() ==> {
                &&& iter.remaining().no_duplicates()
                &&& iter.remaining().len() == old(self)@.dom().len()
                &&& forall|i: int|
                    0 <= i < iter.remaining().len() ==> {
                        &&& old(self)@.contains_key(*(#[trigger] iter.remaining()[i]).0)
                        &&& old(self)@[*iter.remaining()[i].0] == *iter.remaining()[i].1
                    }
                &&& forall|id: I| #[trigger]
                    old(self)@.contains_key(id) ==> iter.remaining().contains(
                        (&id, &old(self)@[id]),
                    )
            },
    {
        self.inner.iter()
    }

    /// A pass over the ids and their objects, for writing.
    #[inline]
    pub fn iter_mut(&mut self) -> (iter: IterMut<'_, I, V>)
        ensures
            final(self).last_id() == old(self).last_id(),
            final(self).spare() == old(self).spare(),
    {
        map_iter_mut(&mut self.inner)
    }

    /// The number of objects in the pool.
    #[inline]
    pub fn len(&self) -> (n: usize)
        ensures
            hashes_well::<I>() ==> n == self@.len(),
    {
        self.inner.len()
    }

    /// Whether the pool holds no object.
    #[inline]
    pub fn is_empty(&self) -> (empty: bool)
        ensures
            empty == self@.is_empty(),
    {
        self.inner.is_empty()
    }
}

impl<I, V> Default for HashPool<I, V> where I: PoolId, V: PoolObject {
    /// An empty pool.
    #[inline]
    fn default() -> (pool: HashPool<I, V>)
        ensures
            pool@ == Map::<I, V>::empty(),
            pool.spare() == Seq::<V>::empty(),
            I::default.ensures((), pool.last_id()),
    {
        HashPool { id: I::default(), inner: XorHashMap::default(), free_list: Vec::new() }
    }
}

} // verus!
