//! A storage that keeps its pastes in memory.

use crate::paste::{DbInterface, PasteEntry, PasteView};
use std::collections::HashMap;
use vstd::prelude::*;
use vstd::std_specs::hash::*;

verus! {

broadcast use vstd::std_specs::hash::group_hash_axioms;

/// The most that a storage in memory takes for one paste, unless it is told
/// otherwise: fifteen mebibytes.
pub const DEFAULT_MAX_DATA_SIZE: usize = 15 * 1024 * 1024;

/// Why a storage in memory refused a paste.
#[derive(Debug, Clone, Copy, PartialEq, Eq, Structural)]
pub enum MemoryError {
    /// Every identifier has been given out.
    Full,
}

/// What a storage holds after a paste was stored under `id`.
pub open spec fn after_store(pastes: Map<u64, PasteView>, id: u64, paste: PasteView) -> Map<
    u64,
    PasteView,
> {
    pastes.insert(id, paste)
}

/// What a storage holds under `id`.
pub open spec fn found(pastes: Map<u64, PasteView>, id: u64) -> Option<PasteView> {
    if pastes.contains_key(id) {
        Some(pastes[id])
    } else {
        None
    }
}

/// What a storage holds after `id` was removed.
pub open spec fn after_remove(pastes: Map<u64, PasteView>, id: u64) -> Map<u64, PasteView> {
    pastes.remove(id)
}

/// What was stored is found again, unchanged, under its identifier, and
/// nothing else in the storage has changed.
pub proof fn lemma_stored_is_found(pastes: Map<u64, PasteView>, id: u64, paste: PasteView)
    ensures
        found(after_store(pastes, id, paste), id) == Some(paste),
        forall|other: u64|
            other != id ==> found(after_store(pastes, id, paste), other) == found(pastes, other),
{
}

/// What was removed is not found any more, and removing it once more
/// changes nothing.
pub proof fn lemma_removed_is_gone(pastes: Map<u64, PasteView>, id: u64)
    ensures
        found(after_remove(pastes, id), id) is None,
        after_remove(after_remove(pastes, id), id) == after_remove(pastes, id),
        forall|other: u64|
            other != id ==> found(after_remove(pastes, id), other) == found(pastes, other),
{
    assert(after_remove(after_remove(pastes, id), id) =~= after_remove(pastes, id));
}

/// A storage in memory. Identifiers are given out in order, from zero.
pub struct MemoryDb {
    entries: HashMap<u64, PasteEntry>,
    next_id: u64,
    max_data_size: usize,
}

impl MemoryDb {
    #[verifier::type_invariant]
    closed spec fn ids_are_below_next(&self) -> bool {
        forall|id: u64| self.entries@.contains_key(id) ==> id < self.next_id
    }

    /// The pastes that the storage holds, by identifier.
    pub closed spec fn pastes(&self) -> Map<u64, PasteView> {
        self.entries@.map_values(|paste: PasteEntry| paste@)
    }

    /// The identifier that the next paste gets.
    pub closed spec fn next_id(&self) -> u64 {
        self.next_id
    }

    /// The most that the storage takes for one paste.
    pub closed spec fn limit(&self) -> usize {
        self.max_data_size
    }

    /// An empty storage that takes pastes up to the default size.
    pub fn new() -> (db: Self)
        ensures
            db.pastes() == Map::<u64, PasteView>::empty(),
            db.next_id() == 0,
            db.limit() == DEFAULT_MAX_DATA_SIZE,
    {
        Self::with_max_data_size(DEFAULT_MAX_DATA_SIZE)
    }

    /// An empty storage that takes pastes up to the given size.
    pub fn with_max_data_size(max_data_size: usize) -> (db: Self)
        ensures
            db.pastes() == Map::<u64, PasteView>::empty(),
            db.next_id() == 0,
            db.limit() == max_data_size,
    {
        let db = MemoryDb { entries: HashMap::new(), next_id: 0, max_data_size };
        assert(db.pastes() =~= Map::<u64, PasteView>::empty());
        db
    }

    /// An empty storage that gives out its identifiers from `first_id` on.
    pub fn starting_at(first_id: u64) -> (db: Self)
        ensures
            db.pastes() == Map::<u64, PasteView>::empty(),
            db.next_id() == first_id,
            db.limit() == DEFAULT_MAX_DATA_SIZE,
    {
        let db = MemoryDb {
            entries: HashMap::new(),
            next_id: first_id,
            max_data_size: DEFAULT_MAX_DATA_SIZE,
        };
        assert(db.pastes() =~= Map::<u64, PasteView>::empty());
        db
    }

    /// The paste stored under `id`, if there is one.
    pub fn find_data(&self, id: u64) -> (r: Option<PasteEntry>)
        ensures
            match r {
                Some(paste) => found(self.pastes(), id) == Some(paste@),
                None => found(self.pastes(), id) is None,
            },
    {
        match self.entries.get(&id) {
            Some(paste) => Some(paste.duplicate()),
            None => None,
        }
    }

    /// Stores a paste and returns its identifier, or `None` where every
    /// identifier has been given out.
    pub fn put_data(
        &mut self,
        data: Vec<u8>,
        file_name: Option<String>,
        mime_type: String,
        best_before: Option<i64>,
    ) -> (r: Option<u64>)
        ensures
            final(self).limit() == old(self).limit(),
            match r {
                Some(id) => {
                    &&& id == old(self).next_id()
                    &&& final(self).next_id() == id + 1
                    &&& found(old(self).pastes(), id) is None
                    &&& final(self).pastes() == after_store(
                        old(self).pastes(),
                        id,
                        (PasteEntry { data, file_name, mime_type, best_before })@,
                    )
                },
                None => {
                    &&& old(self).next_id() == u64::MAX
                    &&& final(self).next_id() == old(self).next_id()
                    &&& final(self).pastes() == old(self).pastes()
                },
            },
    {
        proof {
            use_type_invariant(&*self);
        }
        if self.next_id == u64::MAX {
            return None;
        }
        let id = self.next_id;
        let paste = PasteEntry { data, file_name, mime_type, best_before };
        let mut entries: HashMap<u64, PasteEntry> = HashMap::new();
        core::mem::swap(&mut entries, &mut self.entries);
        entries.insert(id, paste);
        self.next_id = id + 1;
        core::mem::swap(&mut entries, &mut self.entries);
        proof {
            assert(self.pastes() =~= after_store(old(self).pastes(), id, paste@));
        }
        Some(id)
    }
}

impl DbInterface for MemoryDb {
    type Error = MemoryError;

    /// A paste is stored under an identifier that held nothing, and nothing
    /// else changes; the storage fails, unchanged, only where every
    /// identifier has been given out.
    open spec fn stores(&self, paste: PasteView, after: &Self, r: Result<u64, MemoryError>) -> bool {
        &&& after.limit() == self.limit()
        &&& match r {
            Ok(id) => {
                &&& id == self.next_id()
                &&& after.next_id() == id + 1
                &&& found(self.pastes(), id) is None
                &&& after.pastes() == after_store(self.pastes(), id, paste)
            },
            Err(_) => {
                &&& self.next_id() == u64::MAX
                &&& after.next_id() == self.next_id()
                &&& after.pastes() == self.pastes()
            },
        }
    }

    fn store_data(
        &mut self,
        data: Vec<u8>,
        file_name: Option<String>,
        mime_type: String,
        best_before: Option<i64>,
    ) -> (r: Result<u64, MemoryError>) {
        match self.put_data(data, file_name, mime_type, best_before) {
            Some(id) => Ok(id),
            None => Err(MemoryError::Full),
        }
    }

    /// The answer is what the storage holds under the identifier.
    open spec fn loads(&self, id: u64, r: Result<Option<PasteView>, MemoryError>) -> bool {
        r == Ok::<Option<PasteView>, MemoryError>(found(self.pastes(), id))
    }

    fn load_data(&self, id: u64) -> (r: Result<Option<PasteEntry>, MemoryError>) {
        Ok(self.find_data(id))
    }

    /// The answer is the file name of what the storage holds under the
    /// identifier.
    open spec fn names(&self, id: u64, r: Result<Option<Seq<char>>, MemoryError>) -> bool {
        r == Ok::<Option<Seq<char>>, MemoryError>(
            match found(self.pastes(), id) {
                Some(paste) => paste.file_name,
                None => None,
            },
        )
    }

    fn get_file_name(&self, id: u64) -> (r: Result<Option<String>, MemoryError>) {
        match self.entries.get(&id) {
            Some(paste) => match &paste.file_name {
                Some(name) => Ok(Some(name.clone())),
                None => Ok(None),
            },
            None => Ok(None),
        }
    }

    /// Removing never fails, and leaves every other paste as it was.
    open spec fn removes(&self, id: u64, after: &Self, failure: Option<MemoryError>) -> bool {
        &&& failure is None
        &&& after.pastes() == after_remove(self.pastes(), id)
        &&& after.limit() == self.limit()
        &&& after.next_id() == self.next_id()
    }

    fn remove_data(&mut self, id: u64) -> (r: Result<(), MemoryError>) {
        proof {
            use_type_invariant(&*self);
        }
        let mut entries: HashMap<u64, PasteEntry> = HashMap::new();
        core::mem::swap(&mut entries, &mut self.entries);
        entries.remove(&id);
        core::mem::swap(&mut entries, &mut self.entries);
        proof {
            assert(self.pastes() =~= after_remove(old(self).pastes(), id));
        }
        Ok(())
    }

    /// The storage names the limit that it was made with.
    open spec fn limits(&self, size: usize) -> bool {
        size == self.limit()
    }

    fn max_data_size(&self) -> (size: usize) {
        self.max_data_size
    }
}

/// What the storage in memory was handed to store, it answers when asked
/// for the identifier that it gave: the same bytes, file name, MIME type and
/// expiry. So it does for the file name alone.
pub proof fn lemma_store_then_load(
    db: MemoryDb,
    paste: PasteView,
    id: u64,
    after: MemoryDb,
    loaded: Result<Option<PasteView>, MemoryError>,
    named: Result<Option<Seq<char>>, MemoryError>,
)
    requires
        db.stores(paste, &after, Ok(id)),
        after.loads(id, loaded),
        after.names(id, named),
    ensures
        loaded == Ok::<Option<PasteView>, MemoryError>(Some(paste)),
        named == Ok::<Option<Seq<char>>, MemoryError>(paste.file_name),
{
    lemma_stored_is_found(db.pastes(), id, paste);
}

/// The storage in memory never fails to remove, whether or not it holds
/// the paste: removing twice in a row succeeds twice, and the second time
/// changes nothing.
pub proof fn lemma_remove_twice(
    db: MemoryDb,
    id: u64,
    between: MemoryDb,
    first: Option<MemoryError>,
    after: MemoryDb,
    second: Option<MemoryError>,
)
    requires
        db.removes(id, &between, first),
        between.removes(id, &after, second),
    ensures
        first is None,
        second is None,
        after.pastes() == between.pastes(),
        found(after.pastes(), id) is None,
{
    lemma_removed_is_gone(db.pastes(), id);
}

} // verus!
