//! A bounded cache of block hashes that forgets the oldest entry first.

use crate::primitives::H256;
use vstd::prelude::*;

verus! {

/// The entries of a cache of the given limit after `hash` was offered to it:
/// unchanged where the hash is already held, otherwise the hash is appended
/// and, where the cache was full, the oldest entry leaves.
pub open spec fn inserted(entries: Seq<H256>, limit: nat, hash: H256) -> Seq<H256> {
    if entries.contains(hash) {
        entries
    } else if entries.len() >= limit {
        entries.drop_first().push(hash)
    } else {
        entries.push(hash)
    }
}

/// The entries of a cache after each of `hashes[..n]` was offered to it in turn.
pub open spec fn extended(entries: Seq<H256>, limit: nat, hashes: Seq<H256>, n: nat) -> Seq<H256>
    decreases n,
{
    if n == 0 {
        entries
    } else {
        inserted(extended(entries, limit, hashes, (n - 1) as nat), limit, hashes[n - 1])
    }
}

/// A set of hashes of bounded size, in the order of insertion.
#[derive(Debug)]
pub struct LruCache {
    limit: usize,
    entries: Vec<H256>,
}

impl LruCache {
    /// The hashes held, oldest first.
    pub closed spec fn view(&self) -> Seq<H256> {
        self.entries@
    }

    /// The largest number of hashes the cache holds.
    pub closed spec fn spec_limit(&self) -> nat {
        self.limit as nat
    }

    /// The cache is within its limit and holds no hash twice.
    pub open spec fn wf(&self) -> bool {
        &&& self.spec_limit() > 0
        &&& self@.len() <= self.spec_limit()
        &&& self@.no_duplicates()
    }

    /// An empty cache that holds up to `limit` hashes.
    pub fn new(limit: usize) -> (cache: Self)
        requires
            limit > 0,
        ensures
            cache.wf(),
            cache@ == Seq::<H256>::empty(),
            cache.spec_limit() == limit,
    {
        LruCache { limit, entries: Vec::new() }
    }

    /// The largest number of hashes the cache holds.
    pub fn limit(&self) -> (limit: usize)
        ensures
            limit == self.spec_limit(),
    {
        self.limit
    }

    /// The number of hashes held.
    pub fn len(&self) -> (len: usize)
        ensures
            len == self@.len(),
    {
        self.entries.len()
    }

    /// Whether no hash is held.
    pub fn is_empty(&self) -> (empty: bool)
        ensures
            empty == (self@.len() == 0),
    {
        self.entries.len() == 0
    }

    /// Whether the hash is held.
    pub fn contains(&self, hash: &H256) -> (found: bool)
        ensures
            found == self@.contains(*hash),
    {
        let mut i: usize = 0;
        while i < self.entries.len()
            invariant
                i <= self.entries@.len(),
                forall|k: int| 0 <= k < i ==> self.entries@[k] != *hash,
            decreases self.entries@.len() - i,
        {
            if self.entries[i] == *hash {
                return true;
            }
            i += 1;
        }
        false
    }

    /// Offers a hash to the cache. Returns whether it was new. A new hash
    /// becomes the youngest entry; where the cache was full, the oldest
    /// entry is evicted for it.
    pub fn insert(&mut self, hash: H256) -> (fresh: bool)
        requires
            old(self).wf(),
        ensures
            final(self).wf(),
            final(self).spec_limit() == old(self).spec_limit(),
            final(self)@ == inserted(old(self)@, old(self).spec_limit(), hash),
            fresh == !old(self)@.contains(hash),
            final(self)@.contains(hash),
    {
        if self.contains(&hash) {
            return false;
        }
        let ghost before = self.entries@;
        if self.entries.len() >= self.limit {
            self.entries.remove(0);
            assert(self.entries@ == before.drop_first());
        }
        let ghost kept = self.entries@;
        assert(forall|k: int| 0 <= k < kept.len() ==> kept[k] != hash);
        self.entries.push(hash);
        assert(self.entries@[kept.len() as int] == hash);
        true
    }

    /// Offers each of the hashes to the cache, in their order.
    pub fn extend(&mut self, hashes: &Vec<H256>)
        requires
            old(self).wf(),
        ensures
            final(self).wf(),
            final(self).spec_limit() == old(self).spec_limit(),
            final(self)@ == extended(old(self)@, old(self).spec_limit(), hashes@, hashes@.len()),
    {
        let mut i: usize = 0;
        while i < hashes.len()
            invariant
                i <= hashes@.len(),
                self.wf(),
                self.spec_limit() == old(self).spec_limit(),
                self@ == extended(old(self)@, old(self).spec_limit(), hashes@, i as nat),
            decreases hashes@.len() - i,
        {
            self.insert(hashes[i]);
            i += 1;
        }
    }
}

/// A cache never grows beyond its limit: whatever is offered to a cache
/// that is within its limit, it stays within it.
pub proof fn lemma_insert_keeps_limit(entries: Seq<H256>, limit: nat, hash: H256)
    requires
        limit > 0,
        entries.len() <= limit,
    ensures
        inserted(entries, limit, hash).len() <= limit,
        inserted(entries, limit, hash).contains(hash),
{
    let after = inserted(entries, limit, hash);
    if !entries.contains(hash) {
        assert(after[after.len() - 1] == hash);
    }
}

/// Whatever is offered to a cache is held by it afterwards.
pub proof fn lemma_inserted_is_held(entries: Seq<H256>, limit: nat, hash: H256)
    ensures
        inserted(entries, limit, hash).contains(hash),
{
    let after = inserted(entries, limit, hash);
    if !entries.contains(hash) {
        assert(after[after.len() - 1] == hash);
    }
}

/// A new hash offered to a full cache evicts exactly the entry that was
/// inserted first; every other entry stays, in its order, and the new hash
/// is the youngest.
pub proof fn lemma_full_cache_evicts_oldest(entries: Seq<H256>, limit: nat, hash: H256)
    requires
        limit > 0,
        entries.len() == limit,
        entries.no_duplicates(),
        !entries.contains(hash),
    ensures
        inserted(entries, limit, hash).len() == limit,
        !inserted(entries, limit, hash).contains(entries[0]),
        forall|k: int| 1 <= k < limit ==> inserted(entries, limit, hash)[k - 1] == entries[k],
        inserted(entries, limit, hash)[limit - 1] == hash,
{
    let after = inserted(entries, limit, hash);
    assert forall|k: int| 0 <= k < after.len() implies after[k] != entries[0] by {
        if k < limit - 1 {
            assert(after[k] == entries[k + 1]);
        } else {
            assert(entries.contains(entries[0]));
        }
    }
}

} // verus!
