//! Keys for seeded hashing, and the hasher that hash tables use by default.

use vstd::prelude::*;
use vstd::std_specs::hash::DefaultHasherAdditionalSpecFns;

verus! {

/// Two to the power of 64: the number of values that one key can take.
pub open spec fn key_range() -> int {
    0x1_0000_0000_0000_0000
}

/// The hash of the given writes, in the order in which they were made.
pub open spec fn hash_of(writes: Seq<Seq<u8>>) -> u64 {
    std::collections::hash_map::DefaultHasher::spec_finish(writes)
}

/// The pair of keys that seeds the hashers of one hash table.
///
/// Two states with the same keys seed their hashers alike.
#[derive(Clone, Copy)]
pub struct RandomState {
    k0: u64,
    k1: u64,
}

impl RandomState {
    /// The keys, first and second.
    pub closed spec fn keys(self) -> (u64, u64) {
        (self.k0, self.k1)
    }

    /// The 128 bits that the two keys make up, the first key on top.
    pub open spec fn seed(self) -> int {
        self.keys().0 * key_range() + self.keys().1
    }

    /// Splits 128 bits into the two keys: the upper half is the first
    /// key, the lower half the second.
    pub fn from_seed(seed: u128) -> (r: RandomState)
        ensures
            r.keys().0 == seed / 0x1_0000_0000_0000_0000,
            r.keys().1 == seed % 0x1_0000_0000_0000_0000,
            r.seed() == seed,
    {
        let high: u128 = seed >> 64;
        let low: u128 = seed & 0xFFFF_FFFF_FFFF_FFFF;
        assert(high == seed / 0x1_0000_0000_0000_0000 && high <= 0xFFFF_FFFF_FFFF_FFFF) by (bit_vector)
            requires
                high == seed >> 64,
        ;
        assert(low == seed % 0x1_0000_0000_0000_0000 && low <= 0xFFFF_FFFF_FFFF_FFFF) by (bit_vector)
            requires
                low == seed & 0xFFFF_FFFF_FFFF_FFFF,
        ;
        RandomState { k0: high as u64, k1: low as u64 }
    }

    /// The first key.
    pub fn k0(&self) -> (r: u64)
        ensures
            r == self.keys().0,
    {
        self.k0
    }

    /// The second key.
    pub fn k1(&self) -> (r: u64)
        ensures
            r == self.keys().1,
    {
        self.k1
    }
}

/// The hasher that hash tables use when none is given.
///
/// Its state is the sequence of writes made so far. Every hasher made by
/// `new` or `default` starts out the same, so equal writes give equal hashes.
pub struct DefaultHasher {
    inner: std::collections::hash_map::DefaultHasher,
}

impl View for DefaultHasher {
    type V = Seq<Seq<u8>>;

    closed spec fn view(&self) -> Seq<Seq<u8>> {
        self.inner@
    }
}

impl DefaultHasher {
    /// A hasher to which nothing has been written.
    pub fn new() -> (r: DefaultHasher)
        ensures
            r@ == Seq::<Seq<u8>>::empty(),
    {
        DefaultHasher { inner: std::collections::hash_map::DefaultHasher::new() }
    }

    /// Writes `msg` into the hasher.
    pub fn write(&mut self, msg: &[u8])
        ensures
            final(self)@ == old(self)@.push(msg@),
    {
        std::hash::Hasher::write(&mut self.inner, msg);
    }

    /// The hash of everything written so far. The hasher can be written to
    /// further.
    pub fn finish(&self) -> (r: u64)
        ensures
            r == hash_of(self@),
    {
        std::hash::Hasher::finish(&self.inner)
    }
}

impl Default for DefaultHasher {
    /// A hasher to which nothing has been written, as `new` gives.
    fn default() -> (r: DefaultHasher)
        ensures
            r@ == Seq::<Seq<u8>>::empty(),
    {
        DefaultHasher::new()
    }
}

impl std::hash::Hasher for DefaultHasher {
    /// Writes `msg` into the hasher.
    fn write(&mut self, msg: &[u8])
        ensures
            final(self)@ == old(self)@.push(msg@),
    {
        std::hash::Hasher::write(&mut self.inner, msg);
    }

    /// The hash of everything written so far.
    fn finish(&self) -> (r: u64)
        ensures
            r == hash_of(self@),
    {
        std::hash::Hasher::finish(&self.inner)
    }
}

} // verus!
