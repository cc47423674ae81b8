//! The ephemeral cache: a read-through, in-memory copy of recently served
//! assets, each kept until it has been idle for longer than a time to live.
//! Time is a count of seconds handed in by the caller.

use vstd::prelude::*;
use crate::bytes::copy_bytes;

verus! {

/// Time to live of an idle entry unless configured otherwise: twelve hours,
/// in seconds.
pub const DEFAULT_TTL_SECONDS: u64 = 43_200;

/// What the cache knows of one name.
pub ghost struct Cached {
    pub bytes: Seq<u8>,
    pub last_access: nat,
}

/// One cached payload with the time it was last asked for.
#[derive(Debug)]
struct CacheEntry {
    name: String,
    bytes: Vec<u8>,
    last_access: u64,
}

/// A cache of payloads by name. Its value is a map from names to payload
/// and last access time.
#[derive(Debug)]
pub struct EphemeralCache {
    entries: Vec<CacheEntry>,
    ttl: u64,
}

/// An entry last used at `last_access` has, at `now`, been idle for longer
/// than `ttl`.
pub open spec fn idle_too_long(last_access: nat, now: nat, ttl: nat) -> bool {
    now > last_access + ttl
}

/// The entries that survive a sweep at `now`.
pub open spec fn swept(entries: Map<Seq<char>, Cached>, now: nat, ttl: nat) -> Map<
    Seq<char>,
    Cached,
> {
    Map::new(
        |name: Seq<char>|
            entries.dom().contains(name) && !idle_too_long(entries[name].last_access, now, ttl),
        |name: Seq<char>| entries[name],
    )
}

/// The entries after `name` was used at `now`.
pub open spec fn touched(entries: Map<Seq<char>, Cached>, name: Seq<char>, now: nat) -> Map<
    Seq<char>,
    Cached,
> {
    entries.insert(name, Cached { bytes: entries[name].bytes, last_access: now })
}

/// The entries after `bytes` were cached under `name` at `now`.
pub open spec fn filled(
    entries: Map<Seq<char>, Cached>,
    name: Seq<char>,
    bytes: Seq<u8>,
    now: nat,
) -> Map<Seq<char>, Cached> {
    entries.insert(name, Cached { bytes, last_access: now })
}

/// Every cached payload equals the payload of the same name in `assets`.
pub open spec fn mirrors(entries: Map<Seq<char>, Cached>, assets: Map<Seq<char>, Seq<u8>>) -> bool {
    forall|name: Seq<char>| #[trigger]
        entries.dom().contains(name) ==> assets.dom().contains(name) && entries[name].bytes
            == assets[name]
}

/// A sweep never breaks the agreement between cache and assets.
pub proof fn lemma_sweep_mirrors(
    entries: Map<Seq<char>, Cached>,
    assets: Map<Seq<char>, Seq<u8>>,
    now: nat,
    ttl: nat,
)
    requires
        mirrors(entries, assets),
    ensures
        mirrors(swept(entries, now, ttl), assets),
{
    assert forall|name: Seq<char>| #[trigger]
        swept(entries, now, ttl).dom().contains(name) implies assets.dom().contains(name) && swept(
        entries,
        now,
        ttl,
    )[name].bytes == assets[name] by {
        assert(entries.dom().contains(name));
    }
}

/// Using an entry never breaks the agreement between cache and assets.
pub proof fn lemma_touch_mirrors(
    entries: Map<Seq<char>, Cached>,
    assets: Map<Seq<char>, Seq<u8>>,
    name: Seq<char>,
    now: nat,
)
    requires
        mirrors(entries, assets),
        entries.dom().contains(name),
    ensures
        mirrors(touched(entries, name, now), assets),
{
    assert forall|other: Seq<char>| #[trigger]
        touched(entries, name, now).dom().contains(other) implies assets.dom().contains(other)
        && touched(entries, name, now)[other].bytes == assets[other] by {
        assert(entries.dom().contains(other));
    }
}

/// Caching an asset's own payload never breaks the agreement.
pub proof fn lemma_fill_mirrors(
    entries: Map<Seq<char>, Cached>,
    assets: Map<Seq<char>, Seq<u8>>,
    name: Seq<char>,
    now: nat,
)
    requires
        mirrors(entries, assets),
        assets.dom().contains(name),
    ensures
        mirrors(filled(entries, name, assets[name], now), assets),
{
    assert forall|other: Seq<char>| #[trigger]
        filled(entries, name, assets[name], now).dom().contains(other) implies assets.dom().contains(
        other,
    ) && filled(entries, name, assets[name], now)[other].bytes == assets[other] by {
        if other != name {
            assert(entries.dom().contains(other));
        }
    }
}

/// A sweep keeps nothing that has been idle for longer than the time to
/// live, and sweeping twice at one time changes nothing more.
pub proof fn lemma_sweep_bounds_idleness(entries: Map<Seq<char>, Cached>, now: nat, ttl: nat)
    ensures
        forall|name: Seq<char>| #[trigger]
            swept(entries, now, ttl).dom().contains(name) ==> !idle_too_long(
                swept(entries, now, ttl)[name].last_access,
                now,
                ttl,
            ),
        swept(swept(entries, now, ttl), now, ttl) == swept(entries, now, ttl),
{
    assert(swept(swept(entries, now, ttl), now, ttl) =~= swept(entries, now, ttl));
}

spec fn holds_in(es: Seq<CacheEntry>, name: Seq<char>) -> bool {
    exists|i: int| 0 <= i < es.len() && es[i].name@ == name
}

spec fn slot_in(es: Seq<CacheEntry>, name: Seq<char>) -> int {
    choose|i: int| 0 <= i < es.len() && es[i].name@ == name
}

spec fn distinct(es: Seq<CacheEntry>) -> bool {
    forall|i: int, j: int| 0 <= i < j < es.len() ==> es[i].name@ != es[j].name@
}

spec fn cached_of(e: CacheEntry) -> Cached {
    Cached { bytes: e.bytes@, last_access: e.last_access as nat }
}

spec fn as_map(es: Seq<CacheEntry>) -> Map<Seq<char>, Cached> {
    Map::new(|name: Seq<char>| holds_in(es, name), |name: Seq<char>| cached_of(es[slot_in(es, name)]))
}

proof fn lemma_entry(es: Seq<CacheEntry>, i: int)
    requires
        distinct(es),
        0 <= i < es.len(),
    ensures
        holds_in(es, es[i].name@),
        slot_in(es, es[i].name@) == i,
        as_map(es).dom().contains(es[i].name@),
        as_map(es)[es[i].name@] == cached_of(es[i]),
{
}

/// Appending an entry under a name not yet held fills the map.
proof fn lemma_push(es: Seq<CacheEntry>, e: CacheEntry)
    requires
        distinct(es),
        !holds_in(es, e.name@),
    ensures
        distinct(es.push(e)),
        as_map(es.push(e)) == as_map(es).insert(e.name@, cached_of(e)),
{
    let after = es.push(e);
    assert(distinct(after)) by {
        assert forall|i: int, j: int| 0 <= i < j < after.len() implies after[i].name@
            != after[j].name@ by {
            if j == es.len() {
                assert(es[i].name@ == after[i].name@);
            }
        }
    }
    assert forall|name: Seq<char>| holds_in(after, name) == (holds_in(es, name) || name
        == e.name@) by {
        if holds_in(after, name) {
            let k = slot_in(after, name);
            if k < es.len() {
                assert(es[k].name@ == name);
            }
        }
        if holds_in(es, name) {
            let k = slot_in(es, name);
            assert(after[k].name@ == name);
        }
        if name == e.name@ {
            assert(after[es.len() as int].name@ == name);
        }
    }
    assert forall|name: Seq<char>| holds_in(after, name) implies #[trigger] as_map(after)[name]
        == as_map(es).insert(e.name@, cached_of(e))[name] by {
        let k = slot_in(after, name);
        lemma_entry(after, k);
        if name != e.name@ {
            assert(es[k].name@ == name);
            lemma_entry(es, k);
        }
    }
    assert(as_map(after) =~= as_map(es).insert(e.name@, cached_of(e)));
}

/// Removing an entry removes its name from the map and nothing else.
proof fn lemma_remove(es: Seq<CacheEntry>, i: int)
    requires
        distinct(es),
        0 <= i < es.len(),
    ensures
        distinct(es.remove(i)),
        !holds_in(es.remove(i), es[i].name@),
        as_map(es.remove(i)) == as_map(es).remove(es[i].name@),
{
    let after = es.remove(i);
    assert forall|a: int, b: int| 0 <= a < b < after.len() implies after[a].name@
        != after[b].name@ by {
        let a0 = if a < i { a } else { a + 1 };
        let b0 = if b < i { b } else { b + 1 };
        assert(after[a] == es[a0]);
        assert(after[b] == es[b0]);
    }
    assert(!holds_in(after, es[i].name@)) by {
        if holds_in(after, es[i].name@) {
            let k = slot_in(after, es[i].name@);
            let k0 = if k < i { k } else { k + 1 };
            assert(after[k] == es[k0]);
        }
    }
    assert forall|name: Seq<char>| holds_in(after, name) == (holds_in(es, name) && name
        != es[i].name@) by {
        if holds_in(after, name) {
            let k = slot_in(after, name);
            let k0 = if k < i { k } else { k + 1 };
            assert(after[k] == es[k0]);
        }
        if holds_in(es, name) && name != es[i].name@ {
            let k = slot_in(es, name);
            let k1 = if k < i { k } else { k - 1 };
            assert(after[k1] == es[k]);
        }
    }
    assert forall|name: Seq<char>| holds_in(after, name) implies #[trigger] as_map(after)[name]
        == as_map(es).remove(es[i].name@)[name] by {
        let k = slot_in(after, name);
        let k0 = if k < i { k } else { k + 1 };
        assert(after[k] == es[k0]);
        lemma_entry(after, k);
        lemma_entry(es, k0);
    }
    assert(as_map(after) =~= as_map(es).remove(es[i].name@));
}

impl EphemeralCache {
    #[verifier::type_invariant]
    spec fn well_formed(&self) -> bool {
        distinct(self.entries@)
    }

    /// The cache as a map from names to payload and last access time.
    pub closed spec fn view(&self) -> Map<Seq<char>, Cached> {
        as_map(self.entries@)
    }

    /// The time to live of an idle entry, in seconds.
    pub closed spec fn ttl(&self) -> nat {
        self.ttl as nat
    }

    /// An empty cache whose entries live `ttl` seconds without use.
    pub fn new(ttl: u64) -> (cache: EphemeralCache)
        ensures
            cache@ == Map::<Seq<char>, Cached>::empty(),
            cache.ttl() == ttl,
    {
        let cache = EphemeralCache { entries: Vec::new(), ttl };
        proof {
            assert(cache@ =~= Map::<Seq<char>, Cached>::empty());
        }
        cache
    }

    /// The configured time to live, in seconds.
    pub fn time_to_live(&self) -> (ttl: u64)
        ensures
            ttl == self.ttl(),
    {
        self.ttl
    }

    /// How many entries the cache holds.
    pub fn len(&self) -> (n: usize)
        ensures
            self@.dom().finite(),
            n == self@.dom().len(),
    {
        proof {
            use_type_invariant(self);
            lemma_size(self.entries@);
        }
        self.entries.len()
    }

    fn find(&self, name: &String) -> (at: Option<usize>)
        ensures
            at.is_some() == self@.dom().contains(name@),
            at matches Some(i) ==> i < self.entries@.len() && self.entries@[i as int].name@
                == name@,
    {
        proof {
            use_type_invariant(self);
        }
        let mut i: usize = 0;
        while i < self.entries.len()
            invariant
                i <= self.entries@.len(),
                forall|k: int| 0 <= k < i ==> self.entries@[k].name@ != name@,
            decreases self.entries@.len() - i,
        {
            if self.entries[i].name == *name {
                proof {
                    assert(holds_in(self.entries@, name@));
                }
                return Some(i);
            }
            i += 1;
        }
        None
    }

    /// Whether the cache holds an entry for `name`, expired or not.
    pub fn holds(&self, name: &str) -> (found: bool)
        ensures
            found == self@.dom().contains(name@),
    {
        let key = String::from_str(name);
        self.find(&key).is_some()
    }

    /// Removes every entry that has been idle for longer than the time to
    /// live.
    pub fn sweep(&mut self, now: u64)
        ensures
            final(self)@ == swept(old(self)@, now as nat, old(self).ttl()),
            final(self).ttl() == old(self).ttl(),
    {
        proof {
            use_type_invariant(&*self);
        }
        let ttl = self.ttl;
        let mut taken = EphemeralCache::new(ttl);
        core::mem::swap(self, &mut taken);
        let mut entries = taken.entries;
        let ghost before = entries@;
        let mut i: usize = 0;
        while i < entries.len()
            invariant
                i <= entries@.len(),
                distinct(entries@),
                distinct(before),
                forall|k: int|
                    0 <= k < i ==> !idle_too_long(
                        (#[trigger] entries@[k]).last_access as nat,
                        now as nat,
                        ttl as nat,
                    ),
                forall|name: Seq<char>| #[trigger]
                    as_map(entries@).dom().contains(name) ==> as_map(before).dom().contains(name)
                        && as_map(entries@)[name] == as_map(before)[name],
                forall|name: Seq<char>| #[trigger]
                    as_map(before).dom().contains(name) && !idle_too_long(
                        as_map(before)[name].last_access,
                        now as nat,
                        ttl as nat,
                    ) ==> as_map(entries@).dom().contains(name),
            decreases entries@.len() - i,
        {
            let last = entries[i].last_access;
            if now > last && now - last > ttl {
                let ghost prior = entries@;
                proof {
                    lemma_entry(prior, i as int);
                    lemma_remove(prior, i as int);
                }
                let gone = entries.remove(i);
                proof {
                    assert forall|k: int| 0 <= k < i implies !idle_too_long(
                        (#[trigger] entries@[k]).last_access as nat,
                        now as nat,
                        ttl as nat,
                    ) by {
                        assert(entries@[k] == prior[k]);
                    }
                }
            } else {
                i += 1;
            }
        }
        *self = EphemeralCache { entries, ttl };
        proof {
            assert forall|name: Seq<char>| #[trigger]
                as_map(entries@).dom().contains(name) implies !idle_too_long(
                as_map(entries@)[name].last_access,
                now as nat,
                ttl as nat,
            ) by {
                let k = slot_in(entries@, name);
                lemma_entry(entries@, k);
            }
            assert(self@ =~= swept(as_map(before), now as nat, ttl as nat));
        }
    }

    /// Caches `bytes` under `name` as used at `now`, replacing what was
    /// cached under that name.
    pub fn insert(&mut self, name: &str, bytes: &[u8], now: u64)
        ensures
            final(self)@ == filled(old(self)@, name@, bytes@, now as nat),
            final(self).ttl() == old(self).ttl(),
    {
        proof {
            use_type_invariant(&*self);
        }
        let key = String::from_str(name);
        let at = self.find(&key);
        let ttl = self.ttl;
        let mut taken = EphemeralCache::new(ttl);
        core::mem::swap(self, &mut taken);
        let mut entries = taken.entries;
        let ghost before = entries@;
        match at {
            Some(i) => {
                proof {
                    lemma_remove(before, i as int);
                }
                let gone = entries.remove(i);
            },
            None => {},
        }
        let entry = CacheEntry { name: key, bytes: copy_bytes(bytes), last_access: now };
        proof {
            lemma_push(entries@, entry);
            assert(as_map(entries@.push(entry)) =~= filled(
                as_map(before),
                name@,
                bytes@,
                now as nat,
            ));
        }
        entries.push(entry);
        *self = EphemeralCache { entries, ttl };
    }

    /// Drops what is cached under `name`, if anything.
    pub fn evict(&mut self, name: &str)
        ensures
            final(self)@ == old(self)@.remove(name@),
            final(self).ttl() == old(self).ttl(),
    {
        proof {
            use_type_invariant(&*self);
        }
        let key = String::from_str(name);
        let at = self.find(&key);
        let ttl = self.ttl;
        let mut taken = EphemeralCache::new(ttl);
        core::mem::swap(self, &mut taken);
        let mut entries = taken.entries;
        match at {
            Some(i) => {
                proof {
                    lemma_remove(entries@, i as int);
                }
                let gone = entries.remove(i);
            },
            None => {
                proof {
                    assert(as_map(entries@).remove(name@) =~= as_map(entries@));
                }
            },
        }
        *self = EphemeralCache { entries, ttl };
    }

    /// Looks `name` up at time `now`. Entries that have been idle for too
    /// long are swept first; a hit marks the entry as used at `now` and
    /// returns a copy of its payload.
    pub fn lookup(&mut self, name: &str, now: u64) -> (hit: Option<Vec<u8>>)
        ensures
            final(self).ttl() == old(self).ttl(),
            hit.is_some() == swept(old(self)@, now as nat, old(self).ttl()).dom().contains(name@),
            match hit {
                Some(bytes) => {
                    &&& bytes@ == old(self)@[name@].bytes
                    &&& final(self)@ == touched(
                        swept(old(self)@, now as nat, old(self).ttl()),
                        name@,
                        now as nat,
                    )
                },
                None => final(self)@ == swept(old(self)@, now as nat, old(self).ttl()),
            },
    {
        self.sweep(now);
        let key = String::from_str(name);
        match self.find(&key) {
            None => None,
            Some(i) => {
                proof {
                    use_type_invariant(&*self);
                    lemma_entry(self.entries@, i as int);
                }
                let bytes = copy_bytes(self.entries[i].bytes.as_slice());
                self.insert(name, bytes.as_slice(), now);
                Some(bytes)
            },
        }
    }

    /// Returns the payload cached under `name`, or loads it, caches it and
    /// returns it. A failed load is handed on and caches nothing. Entries
    /// that have been idle for too long are swept first either way.
    pub fn get_or_load<E, F: FnOnce() -> Result<Vec<u8>, E>>(
        &mut self,
        name: &str,
        now: u64,
        loader: F,
    ) -> (loaded: Result<Vec<u8>, E>)
        requires
            loader.requires(()),
        ensures
            final(self).ttl() == old(self).ttl(),
            ({
                let live = swept(old(self)@, now as nat, old(self).ttl());
                if live.dom().contains(name@) {
                    &&& loaded matches Ok(bytes)
                    &&& bytes@ == live[name@].bytes
                    &&& final(self)@ == touched(live, name@, now as nat)
                } else {
                    &&& loader.ensures((), loaded)
                    &&& match loaded {
                        Ok(bytes) => final(self)@ == filled(live, name@, bytes@, now as nat),
                        Err(_) => final(self)@ == live,
                    }
                }
            }),
    {
        match self.lookup(name, now) {
            Some(bytes) => Ok(bytes),
            None => {
                match loader() {
                    Ok(bytes) => {
                        self.insert(name, bytes.as_slice(), now);
                        Ok(bytes)
                    },
                    Err(e) => Err(e),
                }
            },
        }
    }
}

/// The names held in the first `n` entries.
spec fn names_below(es: Seq<CacheEntry>, n: int) -> Set<Seq<char>> {
    Set::new(|name: Seq<char>| exists|i: int| 0 <= i < n && es[i].name@ == name)
}

proof fn lemma_names_below(es: Seq<CacheEntry>, n: int)
    requires
        distinct(es),
        0 <= n <= es.len(),
    ensures
        names_below(es, n).finite(),
        names_below(es, n).len() == n,
    decreases n,
{
    if n == 0 {
        assert(names_below(es, 0) =~= Set::<Seq<char>>::empty());
    } else {
        lemma_names_below(es, n - 1);
        let last = es[n - 1].name@;
        assert(names_below(es, n) =~= names_below(es, n - 1).insert(last));
        assert(!names_below(es, n - 1).contains(last));
    }
}

proof fn lemma_size(es: Seq<CacheEntry>)
    requires
        distinct(es),
    ensures
        as_map(es).dom().finite(),
        as_map(es).dom().len() == es.len(),
{
    lemma_names_below(es, es.len() as int);
    assert(names_below(es, es.len() as int) =~= as_map(es).dom());
}

} // verus!
