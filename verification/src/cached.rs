//! An asset store behind a read-through cache. The cache only ever holds
//! copies of stored payloads, so reading through it gives exactly what the
//! store alone would give.

use vstd::prelude::*;
use crate::cache::{
    filled, lemma_fill_mirrors, lemma_sweep_mirrors, lemma_touch_mirrors, mirrors, swept, touched,
    Cached, EphemeralCache,
};
use crate::name::{safe_name, AssetName};
use crate::store::{read, written, AssetStore, StoreError};

verus! {

/// An asset store with its cache.
#[derive(Debug)]
pub struct CachedStore {
    store: AssetStore,
    cache: EphemeralCache,
}

/// The cache contents after `name` was read at `now` from a store with
/// contents `assets`: unchanged for an unsafe name; else swept, and holding
/// the payload as used at `now` where the asset exists.
pub open spec fn cache_after_read(
    entries: Map<Seq<char>, Cached>,
    assets: Map<Seq<char>, Seq<u8>>,
    name: Seq<char>,
    now: nat,
    ttl: nat,
) -> Map<Seq<char>, Cached> {
    match read(assets, name) {
        Ok(bytes) => filled(swept(entries, now, ttl), name, bytes, now),
        Err(StoreError::NotFound) => swept(entries, now, ttl),
        Err(StoreError::InvalidName) => entries,
    }
}

impl CachedStore {
    #[verifier::type_invariant]
    spec fn well_formed(&self) -> bool {
        mirrors(self.cache@, self.store@)
    }

    /// The stored assets.
    pub closed spec fn assets(&self) -> Map<Seq<char>, Seq<u8>> {
        self.store@
    }

    /// The cached entries.
    pub closed spec fn cached(&self) -> Map<Seq<char>, Cached> {
        self.cache@
    }

    /// The time to live of an idle cache entry, in seconds.
    pub closed spec fn ttl(&self) -> nat {
        self.cache.ttl()
    }

    /// An empty store with an empty cache whose entries live `ttl` seconds
    /// without use.
    pub fn new(ttl: u64) -> (made: CachedStore)
        ensures
            made.assets() == Map::<Seq<char>, Seq<u8>>::empty(),
            made.cached() == Map::<Seq<char>, Cached>::empty(),
            made.ttl() == ttl,
    {
        CachedStore { store: AssetStore::new(), cache: EphemeralCache::new(ttl) }
    }

    /// Writes `bytes` under `name`. What the cache held under that name is
    /// dropped, so that it never serves a replaced payload.
    pub fn put_named(&mut self, name: &AssetName, bytes: &[u8])
        ensures
            final(self).assets() == written(old(self).assets(), name@, bytes@),
            final(self).cached() == old(self).cached().remove(name@),
            final(self).ttl() == old(self).ttl(),
            read(final(self).assets(), name@) == Ok::<Seq<u8>, StoreError>(bytes@),
    {
        proof {
            use_type_invariant(&*self);
        }
        let mut taken = CachedStore::new(0);
        core::mem::swap(self, &mut taken);
        let mut store = taken.store;
        let mut cache = taken.cache;
        let ghost before = cache@;
        store.put_named(name, bytes);
        cache.evict(name.as_str());
        proof {
            assert forall|other: Seq<char>| #[trigger]
                cache@.dom().contains(other) implies store@.dom().contains(other)
                && cache@[other].bytes == store@[other] by {
                assert(before.dom().contains(other));
            }
        }
        *self = CachedStore { store, cache };
    }

    /// Reads the asset stored under `name`, through the cache. The answer
    /// is the one the store alone would give; the store is left as it was.
    pub fn get(&mut self, name: &str, now: u64) -> (found: Result<Vec<u8>, StoreError>)
        ensures
            final(self).assets() == old(self).assets(),
            final(self).ttl() == old(self).ttl(),
            match found {
                Ok(bytes) => read(old(self).assets(), name@) == Ok::<Seq<u8>, StoreError>(bytes@),
                Err(e) => read(old(self).assets(), name@) == Err::<Seq<u8>, StoreError>(e),
            },
            final(self).cached() == cache_after_read(
                old(self).cached(),
                old(self).assets(),
                name@,
                now as nat,
                old(self).ttl(),
            ),
    {
        proof {
            use_type_invariant(&*self);
        }
        let valid = match AssetName::parse(name) {
            Some(valid) => valid,
            None => {
                return Err(StoreError::InvalidName);
            },
        };
        let mut taken = CachedStore::new(0);
        core::mem::swap(self, &mut taken);
        let store = taken.store;
        let mut cache = taken.cache;
        let ghost before = cache@;
        let ghost live = swept(before, now as nat, cache.ttl());
        proof {
            lemma_sweep_mirrors(before, store@, now as nat, cache.ttl());
        }
        let found = match cache.lookup(name, now) {
            Some(bytes) => {
                proof {
                    lemma_touch_mirrors(live, store@, name@, now as nat);
                    assert(touched(live, name@, now as nat) =~= filled(
                        live,
                        name@,
                        store@[name@],
                        now as nat,
                    ));
                }
                Ok(bytes)
            },
            None => match store.get_named(&valid) {
                Ok(bytes) => {
                    cache.insert(name, bytes.as_slice(), now);
                    proof {
                        lemma_fill_mirrors(live, store@, name@, now as nat);
                    }
                    Ok(bytes)
                },
                Err(e) => Err(e),
            },
        };
        *self = CachedStore { store, cache };
        found
    }
}

} // verus!
