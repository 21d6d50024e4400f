//! A hasher for keys that are themselves well-spread numbers.

use vstd::prelude::*;

use std::collections::{HashMap, HashSet};
use std::hash::{BuildHasherDefault, Hasher};

verus! {

/// The builder that makes a hasher by `Default`. Nothing is known of what it holds.
#[verifier::external_type_specification]
#[verifier::external_body]
#[verifier::reject_recursive_types(H)]
pub struct ExBuildHasherDefault<H>(BuildHasherDefault<H>);

/// A HashMap that uses the XorHasher
pub type XorHashMap<K, V> = HashMap<K, V, BuildHasherDefault<XorHasher>>;

/// A HashSet that uses the XorHasher
pub type XorHashSet<T> = HashSet<T, BuildHasherDefault<XorHasher>>;

/// The digest after `bytes` are written to a hasher whose digest was `digest`: every byte is
/// folded into the low eight bits with xor.
pub open spec fn xor_bytes(digest: u64, bytes: Seq<u8>) -> u64
    decreases bytes.len(),
{
    if bytes.len() == 0 {
        digest
    } else {
        xor_bytes(digest, bytes.drop_last()) ^ (bytes.last() as u64)
    }
}

/// A Hasher that just returns the value for any data <= 64bits
/// otherwise it just runs xor on every byte of input.
pub struct XorHasher(u64);

impl View for XorHasher {
    type V = u64;

    /// The digest so far.
    closed spec fn view(&self) -> u64 {
        self.0
    }
}

impl Default for XorHasher {
    /// A hasher whose digest is zero.
    #[inline]
    fn default() -> (hasher: XorHasher)
        ensures
            hasher@ == 0,
    {
        XorHasher(0)
    }
}

impl Hasher for XorHasher {
    #[inline]
    fn finish(&self) -> (digest: u64)
        ensures
            digest == self@,
    {
        self.0
    }

    #[inline]
    fn write(&mut self, bytes: &[u8])
        ensures
            final(self)@ == xor_bytes(old(self)@, bytes@),
    {
        let mut index: usize = 0;
        assert(bytes@.subrange(0, 0) =~= Seq::<u8>::empty());
        while index < bytes.len()
            invariant
                index <= bytes@.len(),
                self.0 == xor_bytes(old(self).0, bytes@.subrange(0, index as int)),
            decreases bytes@.len() - index,
        {
            assert(bytes@.subrange(0, index + 1).drop_last() =~= bytes@.subrange(
                0,
                index as int,
            ));
            self.0 ^= bytes[index] as u64;
            index += 1;
        }
        assert(bytes@.subrange(0, bytes@.len() as int) =~= bytes@);
    }

    #[inline]
    fn write_u8(&mut self, i: u8)
        ensures
            final(self)@ == i,
    {
        self.0 = i as u64;
    }

    #[inline]
    fn write_u16(&mut self, i: u16)
        ensures
            final(self)@ == i,
    {
        self.0 = i as u64;
    }

    #[inline]
    fn write_u32(&mut self, i: u32)
        ensures
            final(self)@ == i,
    {
        self.0 = i as u64;
    }

    #[inline]
    fn write_u64(&mut self, i: u64)
        ensures
            final(self)@ == i,
    {
        self.0 = i;
    }

    #[inline]
    fn write_i8(&mut self, i: i8)
        ensures
            final(self)@ == i as u64,
    {
        self.0 = i as u64;
    }

    #[inline]
    fn write_i16(&mut self, i: i16)
        ensures
            final(self)@ == i as u64,
    {
        self.0 = i as u64;
    }

    #[inline]
    fn write_i32(&mut self, i: i32)
        ensures
            final(self)@ == i as u64,
    {
        self.0 = i as u64;
    }

    #[inline]
    fn write_i64(&mut self, i: i64)
        ensures
            final(self)@ == i as u64,
    {
        self.0 = i as u64;
    }
}

} // verus!
