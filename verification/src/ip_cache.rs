//! The access cache: an LRU map from peer address to the admission decision
//! taken for it, each entry valid for a time-to-live. A cached decision is
//! used only while fresh; a stale entry is dropped and the decision is taken
//! anew from the configuration. The store is `lru::LruCache`, held behind
//! trusted wrappers; times are monotonic milliseconds supplied by the caller.

use vstd::prelude::*;
use crate::addr::IpAddress;
use crate::config::Config;

verus! {

#[verifier::external_type_specification]
#[verifier::external_body]
#[verifier::reject_recursive_types(K)]
#[verifier::reject_recursive_types(V)]
#[verifier::reject_recursive_types(S)]
pub struct ExLruCache<K, V, S>(lru::LruCache<K, V, S>);

/// The entries an access-cache store holds: cache key to (decision, created
/// at).
pub uninterp spec fn lru_entries(c: lru::LruCache<(u8, u128), (bool, u64)>) -> Map<(u8, u128), (bool, u64)>;

/// The capacity an access-cache store was created with.
pub uninterp spec fn lru_capacity(c: lru::LruCache<(u8, u128), (bool, u64)>) -> nat;

/// A store with no entries.
pub open spec fn no_entries() -> Map<(u8, u128), (bool, u64)> {
    Map::empty()
}

/// Relies on lru::LruCache::new: an empty cache that holds at most `cap`
/// entries. `cap` must be positive, as LruCache::new takes a non-zero
/// capacity.
#[verifier::external_body]
pub(crate) fn lru_new(cap: usize) -> (r: lru::LruCache<(u8, u128), (bool, u64)>)
    requires
        cap >= 1,
    ensures
        lru_entries(r) == no_entries(),
        lru_capacity(r) == cap,
{
    lru::LruCache::new(std::num::NonZeroUsize::new(cap).unwrap())
}

/// Relies on lru::LruCache::get: the value of the key, or None when absent;
/// the key is refreshed in the eviction order and the contents are unchanged.
#[verifier::external_body]
pub(crate) fn lru_get(c: &mut lru::LruCache<(u8, u128), (bool, u64)>, k: (u8, u128)) -> (r: Option<(bool, u64)>)
    ensures
        lru_entries(*final(c)) == lru_entries(*old(c)),
        lru_capacity(*final(c)) == lru_capacity(*old(c)),
        r == if lru_entries(*old(c)).contains_key(k) {
            Some(lru_entries(*old(c))[k])
        } else {
            None::<(bool, u64)>
        },
{
    c.get(&k).copied()
}

/// Relies on lru::LruCache::pop: removes the key, returning its value when it
/// was present.
#[verifier::external_body]
pub(crate) fn lru_pop(c: &mut lru::LruCache<(u8, u128), (bool, u64)>, k: (u8, u128)) -> (r: Option<(bool, u64)>)
    ensures
        lru_entries(*final(c)) == lru_entries(*old(c)).remove(k),
        lru_capacity(*final(c)) == lru_capacity(*old(c)),
        r == if lru_entries(*old(c)).contains_key(k) {
            Some(lru_entries(*old(c))[k])
        } else {
            None::<(bool, u64)>
        },
{
    c.pop(&k)
}

/// Relies on lru::LruCache::put: inserts the pair; when the cache is at
/// capacity the least recently used entry is evicted first, so a cache within
/// its capacity stays within it. Which entry leaves depends on the access
/// history, so the contract says only that every remaining entry comes from
/// the old contents.
#[verifier::external_body]
pub(crate) fn lru_put(c: &mut lru::LruCache<(u8, u128), (bool, u64)>, k: (u8, u128), v: (bool, u64))
    ensures
        lru_entries(*final(c)).contains_pair(k, v),
        lru_entries(*final(c)).dom().subset_of(lru_entries(*old(c)).dom().insert(k)),
        forall|k2: (u8, u128)| k2 != k && lru_entries(*final(c)).contains_key(k2)
            ==> lru_entries(*final(c))[k2] == lru_entries(*old(c))[k2],
        lru_entries(*old(c)).dom().finite() ==> lru_entries(*final(c)).dom().finite(),
        lru_entries(*old(c)).dom().finite() && lru_entries(*old(c)).dom().len() <= lru_capacity(
            *old(c),
        ) ==> lru_entries(*final(c)).dom().len() <= lru_capacity(*final(c)),
        lru_capacity(*final(c)) == lru_capacity(*old(c)),
{
    c.put(k, v);
}

/// The cache key of an address: the family tag and the numeric value.
pub open spec fn spec_ip_key(ip: IpAddress) -> (u8, u128) {
    match ip {
        IpAddress::V4(v) => (4u8, v as u128),
        IpAddress::V6(v) => (6u8, v),
    }
}

/// The cache key of an address.
pub fn ip_key(ip: &IpAddress) -> (r: (u8, u128))
    ensures
        r == spec_ip_key(*ip),
{
    match ip {
        IpAddress::V4(v) => (4u8, *v as u128),
        IpAddress::V6(v) => (6u8, *v),
    }
}

/// Distinct addresses have distinct cache keys.
pub proof fn lemma_ip_key_injective(a: IpAddress, b: IpAddress)
    requires
        spec_ip_key(a) == spec_ip_key(b),
    ensures
        a == b,
{
}

/// A cached decision is fresh while no more than the time-to-live has passed
/// since it was taken.
pub open spec fn spec_fresh(created_at: u64, now: u64, ttl_millis: u64) -> bool {
    now - created_at <= ttl_millis
}

/// The access cache of one forwarder.
pub struct IpCache {
    cache: lru::LruCache<(u8, u128), (bool, u64)>,
    ttl_millis: u64,
}

impl IpCache {
    /// The cached decisions: address key to (decision, created at).
    pub closed spec fn entries(self) -> Map<(u8, u128), (bool, u64)> {
        lru_entries(self.cache)
    }

    /// The bound on the number of cached decisions.
    pub closed spec fn spec_capacity(self) -> nat {
        lru_capacity(self.cache)
    }

    /// The time-to-live of a cached decision.
    pub closed spec fn spec_ttl(self) -> u64 {
        self.ttl_millis
    }

    /// At most the capacity in cached decisions is ever retained: beyond it
    /// the least recently used entry is evicted.
    pub open spec fn wf(self) -> bool {
        self.entries().dom().finite() && self.entries().dom().len() <= self.spec_capacity()
    }

    /// An empty cache holding at most `capacity` decisions, each valid for
    /// the time-to-live; a zero capacity falls back to one.
    pub fn new(capacity: usize, ttl_millis: u64) -> (r: IpCache)
        ensures
            r.wf(),
            r.entries() == no_entries(),
            r.spec_capacity() == if capacity == 0 {
                1int
            } else {
                capacity as int
            },
            r.spec_ttl() == ttl_millis,
    {
        let cap: usize = if capacity == 0 {
            1
        } else {
            capacity
        };
        let r = IpCache { cache: lru_new(cap), ttl_millis };
        proof {
            assert(r.entries().dom() =~= Set::<(u8, u128)>::empty());
        }
        r
    }

    /// Decide whether the peer address is admitted, caching the decision.
    /// A cached decision is used only while fresh: then it comes straight
    /// from the cache, untouched. Otherwise any stale entry is dropped, the
    /// decision is taken from the configuration's filter, and it is cached
    /// with the present time.
    pub fn check_ip(&mut self, ip: &IpAddress, config: &Config, now: u64) -> (allowed: bool)
        requires
            old(self).wf(),
        ensures
            final(self).wf(),
            ({
                let k = spec_ip_key(*ip);
                let entries = old(self).entries();
                &&& (entries.contains_key(k) && spec_fresh(entries[k].1, now, old(self).spec_ttl())
                    ==> allowed == entries[k].0 && final(self).entries() == entries)
                &&& (!(entries.contains_key(k) && spec_fresh(entries[k].1, now, old(self).spec_ttl()))
                    ==> allowed == config@.spec_is_ip_allowed(*ip)
                        && final(self).entries().contains_pair(k, (allowed, now))
                        && final(self).entries().dom().subset_of(entries.dom().insert(k)))
            }),
            final(self).spec_ttl() == old(self).spec_ttl(),
            final(self).spec_capacity() == old(self).spec_capacity(),
    {
        let k = ip_key(ip);
        match lru_get(&mut self.cache, k) {
            Some((cached_allowed, created_at)) => {
                let fresh: bool = if now >= created_at {
                    now - created_at <= self.ttl_millis
                } else {
                    true
                };
                if fresh {
                    return cached_allowed;
                }
                lru_pop(&mut self.cache, k);
                let allowed = config.is_ip_allowed(ip);
                lru_put(&mut self.cache, k, (allowed, now));
                allowed
            },
            None => {
                let allowed = config.is_ip_allowed(ip);
                lru_put(&mut self.cache, k, (allowed, now));
                allowed
            },
        }
    }
}

} // verus!
