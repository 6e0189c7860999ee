use crate::bucket::Config;
use crate::codec::{blob_key, blob_key_for, encode_file_name, encoded_key, PathError};
use vstd::prelude::*;

verus! {

/// Why a local file could not be read.
#[derive(Debug)]
pub struct LocalReadError {
    pub message: String,
}

/// Read access to the watched folder.
pub trait FileSystem {
    /// Whether `p` currently names a directory.
    fn is_dir(&self, p: &str) -> bool;

    /// All bytes of the file at `p`.
    fn get_file_contents(&self, p: &str) -> Result<Vec<u8>, LocalReadError>;
}

/// The path codec for one root folder.
pub struct LocalFileSystem {
    root_folder: String,
}

impl LocalFileSystem {
    pub fn new(config: &Config) -> (r: LocalFileSystem)
        ensures
            r.root() == config.root_folder@,
    {
        LocalFileSystem { root_folder: config.root_folder.clone() }
    }

    pub closed spec fn root(&self) -> Seq<char> {
        self.root_folder@
    }

    pub fn root_folder(&self) -> (r: &str)
        ensures
            r@ == self.root(),
    {
        self.root_folder.as_str()
    }

    /// The blob key of `p`, relative to the root folder.
    pub fn get_blob_name(&self, p: &str) -> (r: Result<String, PathError>)
        ensures
            r is Ok <==> blob_key(self.root(), p@) is Ok,
            r is Ok ==> blob_key(self.root(), p@) == Ok::<Seq<char>, PathError>(r->Ok_0@),
            r is Err ==> r->Err_0 == PathError::PathOutsideRoot,
    {
        blob_key_for(self.root_folder.as_str(), p)
    }

    /// The blob key for a path fragment that is already relative.
    pub fn encode_file_name(&self, f: &str) -> (r: String)
        ensures
            r@ == encoded_key(f@),
    {
        encode_file_name(f)
    }
}

} // verus!
