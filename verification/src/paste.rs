//! A stored paste, and the storage that keeps pastes.

use vstd::prelude::*;

verus! {

/// A paste representation. As simple as that.
#[derive(Debug, Clone, PartialEq, Eq)]
pub struct PasteEntry {
    /// Raw paste data.
    pub data: Vec<u8>,
    /// File name associated with the paste, if any.
    pub file_name: Option<String>,
    /// MIME type of the paste.
    pub mime_type: String,
    /// Expiration date in seconds since the epoch, if any.
    pub best_before: Option<i64>,
}

/// What a paste holds.
pub struct PasteView {
    pub data: Seq<u8>,
    pub file_name: Option<Seq<char>>,
    pub mime_type: Seq<char>,
    pub best_before: Option<i64>,
}

impl View for PasteEntry {
    type V = PasteView;

    open spec fn view(&self) -> PasteView {
        PasteView {
            data: self.data@,
            file_name: match self.file_name {
                Some(name) => Some(name@),
                None => None,
            },
            mime_type: self.mime_type@,
            best_before: self.best_before,
        }
    }
}

impl PasteEntry {
    /// A copy of the paste.
    pub fn duplicate(&self) -> (copy: Self)
        ensures
            copy@ == self@,
    {
        let mut data: Vec<u8> = Vec::new();
        let mut i: usize = 0;
        while i < self.data.len()
            invariant
                i <= self.data@.len(),
                data@ == self.data@.take(i as int),
            decreases self.data@.len() - i,
        {
            data.push(self.data[i]);
            assert(self.data@.take(i + 1) =~= self.data@.take(i as int).push(self.data@[i as int]));
            i = i + 1;
        }
        assert(data@ =~= self.data@);
        PasteEntry {
            data,
            file_name: match &self.file_name {
                Some(name) => Some(name.clone()),
                None => None,
            },
            mime_type: self.mime_type.clone(),
            best_before: self.best_before,
        }
    }
}

/// What the answer to a request for a paste holds.
pub open spec fn loaded_view<E>(r: Result<Option<PasteEntry>, E>) -> Result<Option<PasteView>, E> {
    match r {
        Ok(Some(paste)) => Ok(Some(paste@)),
        Ok(None) => Ok(None),
        Err(e) => Err(e),
    }
}

/// What the answer to a request for a file name holds.
pub open spec fn named_view<E>(r: Result<Option<String>, E>) -> Result<Option<Seq<char>>, E> {
    match r {
        Ok(Some(name)) => Ok(Some(name@)),
        Ok(None) => Ok(None),
        Err(e) => Err(e),
    }
}

/// The error of an answer that holds nothing else.
pub open spec fn failure_of<E>(r: Result<(), E>) -> Option<E> {
    match r {
        Ok(_) => None,
        Err(e) => Some(e),
    }
}

/// What a file name holds, where there is one.
pub open spec fn name_view(file_name: Option<String>) -> Option<Seq<char>> {
    match file_name {
        Some(name) => Some(name@),
        None => None,
    }
}

/// Interface to a database.
///
/// To store and retrieve pastes we only need several functions, abstract
/// enough to be used with any kind of database. The functions that change
/// what is stored take the database by `&mut`, the others by `&`: a request
/// that leaves the database as it was has written nothing.
///
/// Beside each function stands a relation that says which answers the
/// database may give. A database that does not say may give any answer:
/// what is proved of the service then holds of every answer. A database
/// that says more, as the one in memory does, makes the service say more.
///
/// Should some method return an error, the client gets to see an internal
/// server error and nothing of the error itself.
pub trait DbInterface {
    /// What the database reports when it fails.
    type Error;

    /// Whether the database, asked to store a paste, may turn into `after`
    /// and answer `r`.
    open spec fn stores(&self, paste: PasteView, after: &Self, r: Result<u64, Self::Error>) -> bool {
        true
    }

    /// Stores the data into the database and returns a unique ID that should
    /// be used later to access the data.
    fn store_data(
        &mut self,
        data: Vec<u8>,
        file_name: Option<String>,
        mime_type: String,
        best_before: Option<i64>,
    ) -> (r: Result<u64, Self::Error>)
        ensures
            old(self).stores(
                PasteView { data: data@, file_name: name_view(file_name), mime_type: mime_type@, best_before },
                final(self),
                r,
            ),
    ;

    /// Whether the database may answer a request for the paste `id` with `r`.
    open spec fn loads(&self, id: u64, r: Result<Option<PasteView>, Self::Error>) -> bool {
        true
    }

    /// Loads data from the database: the paste if found, `None` otherwise.
    fn load_data(&self, id: u64) -> (r: Result<Option<PasteEntry>, Self::Error>)
        ensures
            self.loads(id, loaded_view(r)),
    ;

    /// Whether the database may answer a request for the file name of the
    /// paste `id` with `r`.
    open spec fn names(&self, id: u64, r: Result<Option<Seq<char>>, Self::Error>) -> bool {
        true
    }

    /// Gets the file name of a paste, if it has any.
    fn get_file_name(&self, id: u64) -> (r: Result<Option<String>, Self::Error>)
        ensures
            self.names(id, named_view(r)),
    ;

    /// Whether the database, asked to remove the paste `id`, may turn into
    /// `after` and fail with `failure`, or with `None` succeed.
    open spec fn removes(&self, id: u64, after: &Self, failure: Option<Self::Error>) -> bool {
        true
    }

    /// Removes data from the database. Removing what is not there is no
    /// error.
    fn remove_data(&mut self, id: u64) -> (r: Result<(), Self::Error>)
        ensures
            old(self).removes(id, final(self), failure_of(r)),
    ;

    /// Whether the database may name `size` as the most that it takes.
    open spec fn limits(&self, size: usize) -> bool {
        true
    }

    /// Returns the maximum data size that could be handled.
    fn max_data_size(&self) -> (size: usize)
        ensures
            self.limits(size),
    ;
}

} // verus!
