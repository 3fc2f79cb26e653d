//! Entity stores: the disk-backed store's root directory, and the
//! in-memory store that keeps sectors of entities by country, sector and
//! region.
use vstd::prelude::*;
use crate::text::str_eq;
use std::marker::PhantomData;
use std::path::PathBuf;

verus! {

/// An owned file-system path (`std::path::PathBuf`).
#[verifier::external_type_specification]
#[verifier::external_body]
pub struct ExPathBuf(PathBuf);

/// A disk-backed store for one entity type, rooted at a data directory.
#[derive(Debug)]
pub struct DiskEntityStore<T> {
    data_dir: PathBuf,
    phantom: PhantomData<T>,
}

impl<T> DiskEntityStore<T> {
    /// The root directory of the store.
    pub closed spec fn root(&self) -> PathBuf {
        self.data_dir
    }

    /// Creates a new disk-backed store rooted at `data_dir`.
    pub fn new(data_dir: PathBuf) -> (r: Self)
        ensures
            r.root() == data_dir,
    {
        DiskEntityStore { data_dir, phantom: PhantomData }
    }

    /// The root directory of the store.
    pub fn data_dir(&self) -> (r: &PathBuf)
        ensures
            *r == self.root(),
    {
        &self.data_dir
    }
}

/// The key of a sector in the in-memory store:
/// `<country>|<sector>|<region>`, with `-` for a sector without a region.
pub open spec fn sector_key(country: Seq<char>, sector: Seq<char>, region: Option<Seq<char>>) -> Seq<char> {
    country + "|"@ + sector + "|"@ + match region {
        Some(r) => r,
        None => "-"@,
    }
}

/// The key of a sector (see `sector_key`).
pub fn make_sector_key(country: &str, sector: &str, region: Option<&str>) -> (r: String)
    ensures
        r@ == sector_key(country@, sector@, match region { Some(x) => Some(x@), None => None }),
{
    let mut key = String::from_str(country);
    key.append("|");
    key.append(sector);
    key.append("|");
    match region {
        Some(x) => key.append(x),
        None => key.append("-"),
    }
    key
}

/// The position of the first entry with key `key`, at or after `k`.
pub open spec fn entry_position<T>(entries: Seq<(String, Vec<T>)>, key: Seq<char>, k: int) -> Option<int>
    decreases entries.len() - k,
{
    if k < 0 || k >= entries.len() {
        None
    } else if entries[k].0@ == key {
        Some(k)
    } else {
        entry_position(entries, key, k + 1)
    }
}

proof fn lemma_entry_position_bounds<T>(entries: Seq<(String, Vec<T>)>, key: Seq<char>, k: int)
    requires
        0 <= k,
    ensures
        entry_position(entries, key, k) matches Some(i) ==> k <= i < entries.len() && entries[i].0@ == key,
    decreases entries.len() - k,
{
    if k < entries.len() && entries[k].0@ != key {
        lemma_entry_position_bounds(entries, key, k + 1);
    }
}

proof fn lemma_entry_position_update<T>(entries: Seq<(String, Vec<T>)>, i: int, e: (String, Vec<T>), key: Seq<char>, k: int)
    requires
        0 <= k,
        0 <= i < entries.len(),
        e.0@ == entries[i].0@,
    ensures
        entry_position(entries.update(i, e), key, k) == entry_position(entries, key, k),
    decreases entries.len() - k,
{
    if k < entries.len() {
        lemma_entry_position_update(entries, i, e, key, k + 1);
    }
}

proof fn lemma_entry_position_push<T>(entries: Seq<(String, Vec<T>)>, e: (String, Vec<T>), key: Seq<char>, k: int)
    requires
        0 <= k <= entries.len(),
    ensures
        entry_position(entries.push(e), key, k) == match entry_position(entries, key, k) {
            Some(i) => Some(i),
            None => if e.0@ == key { Some(entries.len() as int) } else { None },
        },
    decreases entries.len() - k,
{
    if k < entries.len() {
        lemma_entry_position_push(entries, e, key, k + 1);
        assert(entries.push(e)[k] == entries[k]);
    } else {
        assert(entries.push(e)[k] == e);
        assert(entry_position(entries.push(e), key, k + 1) is None);
    }
}

/// An in-memory entity store for tests and isolated simulations: sectors
/// of entities kept by key (see `sector_key`). A missing sector reads as
/// empty.
#[derive(Debug, Clone)]
pub struct MemoryEntityStore<T> {
    sectors: Vec<(String, Vec<T>)>,
}

impl<T: Clone> MemoryEntityStore<T> {
    /// The entities stored under `key`, if a sector was saved under it.
    pub closed spec fn sector(&self, key: Seq<char>) -> Option<Seq<T>> {
        match entry_position(self.sectors@, key, 0) {
            Some(i) => Some(self.sectors@[i].1@),
            None => None,
        }
    }

    /// Creates an empty in-memory store.
    pub fn new() -> (r: Self)
        ensures
            forall|key: Seq<char>| #[trigger] r.sector(key) is None,
    {
        MemoryEntityStore { sectors: Vec::new() }
    }

    /// Loads a sector: copies of the entities saved under its key, or none
    /// when no sector was saved under it.
    pub fn load_sector(&self, country: &str, sector: &str, region: Option<&str>) -> (r: Vec<T>)
        ensures
            ({
                let key = sector_key(country@, sector@, match region { Some(x) => Some(x@), None => None });
                match self.sector(key) {
                    None => r@.len() == 0,
                    Some(es) => r@.len() == es.len() && forall|i: int| 0 <= i < es.len() ==> cloned(es[i], #[trigger] r@[i]),
                }
            }),
    {
        let key = make_sector_key(country, sector, region);
        proof {
            lemma_entry_position_bounds(self.sectors@, key@, 0);
        }
        let mut i: usize = 0;
        while i < self.sectors.len()
            invariant
                i <= self.sectors@.len(),
                key@ == sector_key(country@, sector@, match region { Some(x) => Some(x@), None => None }),
                entry_position(self.sectors@, key@, 0) == entry_position(self.sectors@, key@, i as int),
            decreases self.sectors@.len() - i,
        {
            if str_eq(self.sectors[i].0.as_str(), key.as_str()) {
                assert(entry_position(self.sectors@, key@, i as int) == Some(i as int));
                return copy_entities(&self.sectors[i].1);
            }
            i = i + 1;
        }
        Vec::new()
    }

    /// Saves a sector: copies of `entities` replace whatever was saved
    /// under its key; every other sector is kept.
    pub fn save_sector(&mut self, country: &str, sector: &str, region: Option<&str>, entities: &[T])
        ensures
            ({
                let key = sector_key(country@, sector@, match region { Some(x) => Some(x@), None => None });
                &&& final(self).sector(key) matches Some(es) && es.len() == entities@.len() && forall|i: int|
                    0 <= i < es.len() ==> cloned(entities@[i], #[trigger] es[i])
                &&& forall|other: Seq<char>| other != key ==> #[trigger] final(self).sector(other) == old(self).sector(other)
            }),
    {
        let key = make_sector_key(country, sector, region);
        let copy = copy_slice(entities);
        proof {
            lemma_entry_position_bounds(self.sectors@, key@, 0);
        }
        let mut i: usize = 0;
        while i < self.sectors.len()
            invariant
                i <= self.sectors@.len(),
                self.sectors@ == old(self).sectors@,
                key@ == sector_key(country@, sector@, match region { Some(x) => Some(x@), None => None }),
                copy@.len() == entities@.len(),
                forall|j: int| 0 <= j < entities@.len() ==> cloned(entities@[j], #[trigger] copy@[j]),
                entry_position(self.sectors@, key@, 0) == entry_position(self.sectors@, key@, i as int),
            decreases self.sectors@.len() - i,
        {
            if str_eq(self.sectors[i].0.as_str(), key.as_str()) {
                let ghost before = self.sectors@;
                let ghost k = key@;
                assert(entry_position(before, k, i as int) == Some(i as int));
                let entry = (key, copy);
                self.sectors.set(i, entry);
                proof {
                    assert(self.sectors@ == before.update(i as int, entry));
                    lemma_entry_position_update(before, i as int, entry, k, 0);
                    assert forall|other: Seq<char>| other != k implies #[trigger] self.sector(other) == old(self).sector(other) by {
                        lemma_entry_position_update(before, i as int, entry, other, 0);
                        lemma_entry_position_bounds(before, other, 0);
                    }
                }
                return;
            }
            i = i + 1;
        }
        let ghost before = self.sectors@;
        let ghost k = key@;
        let entry = (key, copy);
        self.sectors.push(entry);
        proof {
            assert(self.sectors@ == before.push(entry));
            lemma_entry_position_push(before, entry, k, 0);
            assert forall|other: Seq<char>| other != k implies #[trigger] self.sector(other) == old(self).sector(other) by {
                lemma_entry_position_push(before, entry, other, 0);
                lemma_entry_position_bounds(before, other, 0);
                assert(before.push(entry).len() == before.len() + 1);
            }
        }
    }
}

impl<T: Clone> Default for MemoryEntityStore<T> {
    fn default() -> (r: Self)
        ensures
            forall|key: Seq<char>| #[trigger] r.sector(key) is None,
    {
        MemoryEntityStore { sectors: Vec::new() }
    }
}

fn copy_entities<T: Clone>(v: &Vec<T>) -> (r: Vec<T>)
    ensures
        r@.len() == v@.len(),
        forall|i: int| 0 <= i < v@.len() ==> cloned(v@[i], #[trigger] r@[i]),
{
    copy_slice(v.as_slice())
}

fn copy_slice<T: Clone>(v: &[T]) -> (r: Vec<T>)
    ensures
        r@.len() == v@.len(),
        forall|i: int| 0 <= i < v@.len() ==> cloned(v@[i], #[trigger] r@[i]),
{
    let mut r: Vec<T> = Vec::new();
    let mut i: usize = 0;
    while i < v.len()
        invariant
            i <= v@.len(),
            r@.len() == i,
            forall|j: int| 0 <= j < i ==> cloned(v@[j], #[trigger] r@[j]),
        decreases v@.len() - i,
    {
        r.push(v[i].clone());
        i = i + 1;
    }
    r
}

} // verus!
