use vstd::prelude::*;

verus! {

/// Why a call on the remote store failed.
#[derive(Debug)]
pub enum StorageError {
    /// No object has the given key.
    PathNotFound,
    /// The store could not be reached.
    ConnectionError { message: String },
    /// Any other failure, as the store described it.
    UnknownError { message: String },
}

/// The error for a failed delete, from the HTTP status of the store's
/// answer, if there was one: 404 means that no object has the key; any other
/// failure is reported with `message`.
pub fn delete_failure(status: Option<u16>, message: String) -> (r: StorageError)
    ensures
        status == Some(404u16) ==> r is PathNotFound,
        status != Some(404u16) ==> r is UnknownError && r->UnknownError_message == message,
{
    match status {
        Some(404) => StorageError::PathNotFound,
        _ => StorageError::UnknownError { message },
    }
}

/// A remote object store addressed by flat string keys.
pub trait Storage {
    /// Puts `data` under `blob_name`, replacing any object there; `checksum`
    /// is the MD5 digest of `data`, for the store to check the transfer.
    fn upload(&self, blob_name: &str, data: Vec<u8>, checksum: Vec<u8>) -> Result<(), StorageError>;

    /// Deletes the object under `blob_name`; `PathNotFound` when there is
    /// none.
    fn delete(&self, blob_name: &str) -> Result<(), StorageError>;

    /// Every key that begins with `prefix`, in no particular order.
    fn list_folder_blobs(&self, prefix: &str) -> Result<Vec<String>, StorageError>;
}

/// The MD5 digest of a byte string.
pub uninterp spec fn md5_digest(data: Seq<u8>) -> Seq<u8>;

/// Relies on `md5::compute`: the 16-byte MD5 digest of the data.
#[verifier::external_body]
pub(crate) fn content_md5(data: &Vec<u8>) -> (r: Vec<u8>)
    ensures
        r@ == md5_digest(data@),
        r@.len() == 16,
{
    md5::compute(data.as_slice()).0.to_vec()
}

} // verus!
