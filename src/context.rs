use crate::codec::{blob_key, blob_key_for, PathError};
use crate::file_system::{FileSystem, LocalReadError};
use crate::storage::{Storage, StorageError};
use vstd::prelude::*;

verus! {

/// One call made on the local side or on the store, with what it returned.
pub enum Call {
    /// Whether `path` names a directory.
    IsDir { path: Seq<char>, answer: bool },
    /// A read of the file at `path`, with its bytes if it succeeded.
    Read { path: Seq<char>, bytes: Option<Seq<u8>> },
    /// An upload of `data` under `blob_name`, with the checksum of `data`,
    /// and the store's error if it failed.
    Upload {
        blob_name: Seq<char>,
        data: Seq<u8>,
        checksum: Seq<u8>,
        error: Option<StorageError>,
    },
    /// A delete of `blob_name`; `not_found` when the store had no such object.
    Delete { blob_name: Seq<char>, not_found: bool },
    /// A listing of the keys that begin with `prefix`, with the keys returned
    /// if it succeeded.
    List { prefix: Seq<char>, listed: Option<Seq<Seq<char>>> },
}

/// The error that a store's answer carries, if any.
pub open spec fn error_of(r: Result<(), StorageError>) -> Option<StorageError> {
    match r {
        Ok(_) => None,
        Err(e) => Some(e),
    }
}

/// The keys held in a list of strings.
pub open spec fn keys_of(v: Seq<String>) -> Seq<Seq<char>> {
    v.map_values(|s: String| s@)
}

/// What handlers work on: the store, the watched folder, and the root folder
/// that keys are relative to. Every call made through it is recorded, in
/// order, with its result. A handler is given only the context, and the
/// context offers no way to the store or the folder but these recorded
/// calls; what the contracts say of the calls a handler made is therefore
/// said of every call it made on them.
pub struct HandlerContext<S, F> {
    storage: S,
    file_system: F,
    root_folder: String,
    calls: Ghost<Seq<Call>>,
}

impl<S: Storage, F: FileSystem> HandlerContext<S, F> {
    /// The calls made through this context so far, oldest first.
    pub closed spec fn calls(&self) -> Seq<Call> {
        self.calls@
    }

    /// The root folder that keys are relative to.
    pub closed spec fn root(&self) -> Seq<char> {
        self.root_folder@
    }

    /// The store that calls go to.
    pub closed spec fn spec_storage(&self) -> S {
        self.storage
    }

    /// The watched folder that is read.
    pub closed spec fn spec_file_system(&self) -> F {
        self.file_system
    }

    /// Whether `self` and `other` hold the same store, watched folder and
    /// root folder.
    pub open spec fn same_endpoints(&self, other: &Self) -> bool {
        &&& self.spec_storage() == other.spec_storage()
        &&& self.spec_file_system() == other.spec_file_system()
        &&& self.root() == other.root()
    }

    /// A context with no calls made yet, on `storage` and `file_system`,
    /// with keys relative to `root_folder`.
    pub fn new(storage: S, file_system: F, root_folder: &str) -> (r: Self)
        ensures
            r.calls() == Seq::<Call>::empty(),
            r.spec_storage() == storage,
            r.spec_file_system() == file_system,
            r.root() == root_folder@,
    {
        HandlerContext {
            storage,
            file_system,
            root_folder: root_folder.to_owned(),
            calls: Ghost(Seq::empty()),
        }
    }

    /// The store itself, for the registry to hand to its owner. It is not
    /// public: a handler reaches the store only through the methods below,
    /// which record each call.
    pub(crate) fn storage(&self) -> (r: &S)
        ensures
            *r == self.spec_storage(),
    {
        &self.storage
    }

    /// The watched folder itself, for the registry to hand to its owner;
    /// not public, for the same reason as `storage`.
    pub(crate) fn file_system(&self) -> (r: &F)
        ensures
            *r == self.spec_file_system(),
    {
        &self.file_system
    }

    /// The blob key of `path`, relative to the root folder.
    pub fn blob_name(&self, path: &str) -> (r: Result<String, PathError>)
        ensures
            r is Ok <==> blob_key(self.root(), path@) is Ok,
            r is Ok ==> blob_key(self.root(), path@) == Ok::<Seq<char>, PathError>(r->Ok_0@),
            r is Err ==> r->Err_0 == PathError::PathOutsideRoot,
    {
        blob_key_for(self.root_folder.as_str(), path)
    }

    /// Asks the local side whether `path` names a directory.
    pub fn is_dir(&mut self, path: &str) -> (r: bool)
        ensures
            final(self).calls() == old(self).calls().push(Call::IsDir { path: path@, answer: r }),
            final(self).same_endpoints(old(self)),
    {
        let r = self.file_system.is_dir(path);
        self.calls = Ghost(self.calls@.push(Call::IsDir { path: path@, answer: r }));
        r
    }

    /// Reads the file at `path`.
    pub fn read(&mut self, path: &str) -> (r: Result<Vec<u8>, LocalReadError>)
        ensures
            final(self).calls() == old(self).calls().push(
                Call::Read {
                    path: path@,
                    bytes: match r {
                        Ok(v) => Some(v@),
                        Err(_) => None,
                    },
                },
            ),
            final(self).same_endpoints(old(self)),
    {
        let r = self.file_system.get_file_contents(path);
        self.calls = Ghost(
            self.calls@.push(
                Call::Read {
                    path: path@,
                    bytes: match r {
                        Ok(ref v) => Some(v@),
                        Err(_) => None,
                    },
                },
            ),
        );
        r
    }

    /// Uploads `data` under `blob_name`, with its checksum.
    pub fn upload(&mut self, blob_name: &str, data: Vec<u8>, checksum: Vec<u8>) -> (r: Result<
        (),
        StorageError,
    >)
        ensures
            final(self).calls() == old(self).calls().push(
                Call::Upload {
                    blob_name: blob_name@,
                    data: data@,
                    checksum: checksum@,
                    error: error_of(r),
                },
            ),
            final(self).same_endpoints(old(self)),
    {
        let ghost sent = Call::Upload {
            blob_name: blob_name@,
            data: data@,
            checksum: checksum@,
            error: None,
        };
        let r = self.storage.upload(blob_name, data, checksum);
        self.calls = Ghost(
            self.calls@.push(
                Call::Upload {
                    blob_name: sent->Upload_blob_name,
                    data: sent->data,
                    checksum: sent->checksum,
                    error: error_of(r),
                },
            ),
        );
        r
    }

    /// Deletes the object under `blob_name`.
    pub fn delete(&mut self, blob_name: &str) -> (r: Result<(), StorageError>)
        ensures
            final(self).calls() == old(self).calls().push(
                Call::Delete {
                    blob_name: blob_name@,
                    not_found: r is Err && r->Err_0 is PathNotFound,
                },
            ),
            final(self).same_endpoints(old(self)),
    {
        let r = self.storage.delete(blob_name);
        self.calls = Ghost(
            self.calls@.push(
                Call::Delete {
                    blob_name: blob_name@,
                    not_found: r is Err && r->Err_0 is PathNotFound,
                },
            ),
        );
        r
    }

    /// Lists the keys that begin with `prefix`.
    pub fn list_folder_blobs(&mut self, prefix: &str) -> (r: Result<Vec<String>, StorageError>)
        ensures
            final(self).calls() == old(self).calls().push(
                Call::List {
                    prefix: prefix@,
                    listed: match r {
                        Ok(v) => Some(keys_of(v@)),
                        Err(_) => None,
                    },
                },
            ),
            final(self).same_endpoints(old(self)),
    {
        let r = self.storage.list_folder_blobs(prefix);
        self.calls = Ghost(
            self.calls@.push(
                Call::List {
                    prefix: prefix@,
                    listed: match r {
                        Ok(ref v) => Some(keys_of(v@)),
                        Err(_) => None,
                    },
                },
            ),
        );
        r
    }
}

} // verus!
