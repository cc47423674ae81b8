//! The asset store: immutable payloads kept under validated names.

use vstd::prelude::*;
use crate::bytes::copy_bytes;
use crate::name::{hyphenated_id, joined, safe_extension, safe_name, AssetName};

verus! {

/// Why the store turned a request down.
#[derive(Clone, Copy, Debug, PartialEq, Eq, Structural)]
pub enum StoreError {
    /// The name or extension is not safe to use as a path segment.
    InvalidName,
    /// No asset is stored under the name.
    NotFound,
}

/// One stored payload.
#[derive(Debug)]
struct Asset {
    name: String,
    bytes: Vec<u8>,
}

/// An in-process asset store. Its value is a map from names to payloads.
#[derive(Debug)]
pub struct AssetStore {
    entries: Vec<Asset>,
}

/// What reading `name` from a store with contents `assets` gives.
pub open spec fn read(assets: Map<Seq<char>, Seq<u8>>, name: Seq<char>) -> Result<
    Seq<u8>,
    StoreError,
> {
    if !safe_name(name) {
        Err(StoreError::InvalidName)
    } else if assets.dom().contains(name) {
        Ok(assets[name])
    } else {
        Err(StoreError::NotFound)
    }
}

/// The contents of a store after `bytes` were written under `name`.
pub open spec fn written(assets: Map<Seq<char>, Seq<u8>>, name: Seq<char>, bytes: Seq<u8>) -> Map<
    Seq<char>,
    Seq<u8>,
> {
    assets.insert(name, bytes)
}

/// Reading back what was just written gives the written bytes.
pub proof fn lemma_write_then_read(assets: Map<Seq<char>, Seq<u8>>, name: Seq<char>, bytes: Seq<u8>)
    requires
        safe_name(name),
    ensures
        read(written(assets, name, bytes), name) == Ok::<Seq<u8>, StoreError>(bytes),
{
}

/// A write under one name leaves every other name as it was.
pub proof fn lemma_write_keeps_others(
    assets: Map<Seq<char>, Seq<u8>>,
    name: Seq<char>,
    bytes: Seq<u8>,
    other: Seq<char>,
)
    requires
        other != name,
    ensures
        read(written(assets, name, bytes), other) == read(assets, other),
{
}

/// Two writes under distinct names both read back unchanged, in whichever
/// order they landed.
pub proof fn lemma_distinct_writes_round_trip(
    assets: Map<Seq<char>, Seq<u8>>,
    first: Seq<char>,
    first_bytes: Seq<u8>,
    second: Seq<char>,
    second_bytes: Seq<u8>,
)
    requires
        safe_name(first),
        safe_name(second),
        first != second,
    ensures
        read(written(written(assets, first, first_bytes), second, second_bytes), first) == Ok::<
            Seq<u8>,
            StoreError,
        >(first_bytes),
        read(written(written(assets, first, first_bytes), second, second_bytes), second) == Ok::<
            Seq<u8>,
            StoreError,
        >(second_bytes),
        written(written(assets, first, first_bytes), second, second_bytes) == written(
            written(assets, second, second_bytes),
            first,
            first_bytes,
        ),
{
    assert(written(written(assets, first, first_bytes), second, second_bytes) =~= written(
        written(assets, second, second_bytes),
        first,
        first_bytes,
    ));
}

/// A name that was never written reads as not found.
pub proof fn lemma_unknown_name_not_found(assets: Map<Seq<char>, Seq<u8>>, name: Seq<char>)
    requires
        safe_name(name),
        !assets.dom().contains(name),
    ensures
        read(assets, name) == Err::<Seq<u8>, StoreError>(StoreError::NotFound),
{
}

impl AssetStore {
    #[verifier::type_invariant]
    spec fn well_formed(&self) -> bool {
        &&& forall|i: int|
            0 <= i < self.entries@.len() ==> safe_name(#[trigger] self.entries@[i].name@)
        &&& forall|i: int, j: int|
            0 <= i < j < self.entries@.len() ==> self.entries@[i].name@ != self.entries@[j].name@
    }

    /// The position of `name` among the entries, where it is stored.
    spec fn slot(&self, name: Seq<char>) -> int {
        choose|i: int| 0 <= i < self.entries@.len() && self.entries@[i].name@ == name
    }

    spec fn holds(&self, name: Seq<char>) -> bool {
        exists|i: int| 0 <= i < self.entries@.len() && self.entries@[i].name@ == name
    }

    /// The store as a map from names to payloads.
    pub closed spec fn view(&self) -> Map<Seq<char>, Seq<u8>> {
        Map::new(|name: Seq<char>| self.holds(name), |name: Seq<char>| self.entries@[self.slot(name)].bytes@)
    }

    /// An empty store.
    pub fn new() -> (store: AssetStore)
        ensures
            store@ == Map::<Seq<char>, Seq<u8>>::empty(),
    {
        let store = AssetStore { entries: Vec::new() };
        proof {
            assert(store@ =~= Map::<Seq<char>, Seq<u8>>::empty());
        }
        store
    }

    /// Where `name` is stored, if it is.
    fn find(&self, name: &String) -> (at: Option<usize>)
        ensures
            at.is_some() == self@.dom().contains(name@),
            at matches Some(i) ==> i < self.entries@.len() && self.entries@[i as int].name@
                == name@ && self@[name@] == self.entries@[i as int].bytes@,
    {
        proof {
            use_type_invariant(self);
        }
        let mut i: usize = 0;
        while i < self.entries.len()
            invariant
                i <= self.entries@.len(),
                self.well_formed(),
                forall|k: int| 0 <= k < i ==> self.entries@[k].name@ != name@,
            decreases self.entries@.len() - i,
        {
            if self.entries[i].name == *name {
                proof {
                    assert(self.holds(name@));
                    assert(self.slot(name@) == i);
                }
                return Some(i);
            }
            i += 1;
        }
        None
    }

    /// How many assets are stored.
    pub fn len(&self) -> (n: usize)
        ensures
            n == self@.dom().len(),
            self@.dom().finite(),
    {
        proof {
            use_type_invariant(self);
            self.lemma_domain_size(self.entries@.len() as int);
            assert(self.names_below(self.entries@.len() as int) =~= self@.dom());
        }
        self.entries.len()
    }

    /// The names held in the first `n` entries.
    spec fn names_below(&self, n: int) -> Set<Seq<char>> {
        Set::new(|name: Seq<char>| exists|i: int| 0 <= i < n && self.entries@[i].name@ == name)
    }

    proof fn lemma_domain_size(&self, n: int)
        requires
            self.well_formed(),
            0 <= n <= self.entries@.len(),
        ensures
            self.names_below(n).finite(),
            self.names_below(n).len() == n,
        decreases n,
    {
        if n == 0 {
            assert(self.names_below(0) =~= Set::<Seq<char>>::empty());
        } else {
            self.lemma_domain_size(n - 1);
            let last = self.entries@[n - 1].name@;
            assert(self.names_below(n) =~= self.names_below(n - 1).insert(last));
            assert(!self.names_below(n - 1).contains(last));
        }
    }

    /// Whether an asset is stored under `name`.
    pub fn contains(&self, name: &str) -> (found: bool)
        ensures
            found == self@.dom().contains(name@),
    {
        let key = String::from_str(name);
        self.find(&key).is_some()
    }

    /// Writes `bytes` under `name`. An asset already stored under that name
    /// is replaced; every other asset stays as it was.
    pub fn put_named(&mut self, name: &AssetName, bytes: &[u8])
        ensures
            final(self)@ == written(old(self)@, name@, bytes@),
            read(final(self)@, name@) == Ok::<Seq<u8>, StoreError>(bytes@),
    {
        let key = name.to_text();
        let asset = Asset { name: name.to_text(), bytes: copy_bytes(bytes) };
        proof {
            use_type_invariant(&*self);
        }
        let ghost before = *self;
        let at = self.find(&key);
        let mut taken = AssetStore::new();
        core::mem::swap(self, &mut taken);
        let mut entries = taken.entries;
        match at {
            Some(i) => {
                entries.set(i, asset);
                *self = AssetStore { entries };
                proof {
                    assert forall|n: Seq<char>| self.holds(n) == before.holds(n) by {
                        if self.holds(n) {
                            let k = self.slot(n);
                            assert(before.entries@[k].name@ == n);
                        }
                        if before.holds(n) {
                            let k = before.slot(n);
                            assert(self.entries@[k].name@ == n);
                        }
                    }
                    assert forall|n: Seq<char>| self.holds(n) implies #[trigger] self@[n]
                        == written(before@, name@, bytes@)[n] by {
                        let k = self.slot(n);
                        assert(before.entries@[k].name@ == n);
                        if n != name@ {
                            assert(before.slot(n) == k);
                        }
                    }
                    assert(before.holds(name@));
                    assert(self@ =~= written(before@, name@, bytes@));
                }
            },
            None => {
                entries.push(asset);
                *self = AssetStore { entries };
                proof {
                    let last = before.entries@.len() as int;
                    assert(self.entries@[last].name@ == name@);
                    assert forall|n: Seq<char>| self.holds(n) == (before.holds(n) || n == name@) by {
                        if self.holds(n) {
                            let k = self.slot(n);
                            if k < last {
                                assert(before.entries@[k].name@ == n);
                            }
                        }
                        if before.holds(n) {
                            let k = before.slot(n);
                            assert(self.entries@[k].name@ == n);
                        }
                    }
                    assert forall|n: Seq<char>| self.holds(n) implies #[trigger] self@[n]
                        == written(before@, name@, bytes@)[n] by {
                        let k = self.slot(n);
                        if n != name@ {
                            assert(before.entries@[k].name@ == n);
                            assert(before.slot(n) == k);
                        }
                    }
                    assert(self@ =~= written(before@, name@, bytes@));
                }
            },
        }
    }

    /// Stores `bytes` under a freshly generated name that ends in a dot and
    /// `extension`, and returns the name. Fails, leaving the store as it
    /// was, exactly where the extension is not safe.
    pub fn put(&mut self, bytes: &[u8], extension: &str) -> (stored: Result<AssetName, StoreError>)
        ensures
            stored.is_ok() == safe_extension(extension@),
            match stored {
                Ok(name) => {
                    &&& exists|id: Seq<char>| hyphenated_id(id) && name@ == joined(id, extension@)
                    &&& final(self)@ == written(old(self)@, name@, bytes@)
                    &&& read(final(self)@, name@) == Ok::<Seq<u8>, StoreError>(bytes@)
                },
                Err(e) => e == StoreError::InvalidName && final(self)@ == old(self)@,
            },
    {
        match AssetName::generate(extension) {
            Some(name) => {
                self.put_named(&name, bytes);
                Ok(name)
            },
            None => Err(StoreError::InvalidName),
        }
    }

    /// Reads the asset stored under exactly `name`. Unsafe names are turned
    /// down before anything is looked up.
    pub fn get(&self, name: &str) -> (found: Result<Vec<u8>, StoreError>)
        ensures
            match found {
                Ok(bytes) => read(self@, name@) == Ok::<Seq<u8>, StoreError>(bytes@),
                Err(e) => read(self@, name@) == Err::<Seq<u8>, StoreError>(e),
            },
    {
        match AssetName::parse(name) {
            None => Err(StoreError::InvalidName),
            Some(valid) => self.get_named(&valid),
        }
    }

    /// Reads the asset stored under a validated name.
    pub fn get_named(&self, name: &AssetName) -> (found: Result<Vec<u8>, StoreError>)
        ensures
            match found {
                Ok(bytes) => read(self@, name@) == Ok::<Seq<u8>, StoreError>(bytes@),
                Err(e) => read(self@, name@) == Err::<Seq<u8>, StoreError>(e),
            },
    {
        let key = name.to_text();
        match self.find(&key) {
            Some(i) => Ok(copy_bytes(self.entries[i].bytes.as_slice())),
            None => Err(StoreError::NotFound),
        }
    }
}

} // verus!
