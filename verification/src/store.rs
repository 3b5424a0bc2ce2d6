//! The data types shared by every backend.

use vstd::prelude::*;
use vstd::string::*;
use crate::checksum::Digest;

verus! {

/// The ways in which a storage operation can fail.
#[derive(Clone, Copy, Debug, PartialEq, Eq, Structural)]
pub enum StoreError {
    NotFound,
    AlreadyExists,
    PermissionDenied,
    InvalidTarget,
    IoFailure,
    BackendUnavailable,
    ChecksumMismatch,
    ConflictingUpload,
    InvalidState,
    PartialUpload,
}

impl StoreError {
    /// The error in words.
    pub fn message(&self) -> (text: String)
        ensures
            text@ == (match *self {
                StoreError::NotFound => "not found"@,
                StoreError::AlreadyExists => "already exists"@,
                StoreError::PermissionDenied => "permission denied"@,
                StoreError::InvalidTarget => "invalid target"@,
                StoreError::IoFailure => "i/o failure"@,
                StoreError::BackendUnavailable => "backend unavailable"@,
                StoreError::ChecksumMismatch => "checksum mismatch"@,
                StoreError::ConflictingUpload => "conflicting upload"@,
                StoreError::InvalidState => "invalid state"@,
                StoreError::PartialUpload => "partial upload"@,
            }),
    {
        let text = match self {
            StoreError::NotFound => "not found",
            StoreError::AlreadyExists => "already exists",
            StoreError::PermissionDenied => "permission denied",
            StoreError::InvalidTarget => "invalid target",
            StoreError::IoFailure => "i/o failure",
            StoreError::BackendUnavailable => "backend unavailable",
            StoreError::ChecksumMismatch => "checksum mismatch",
            StoreError::ConflictingUpload => "conflicting upload",
            StoreError::InvalidState => "invalid state",
            StoreError::PartialUpload => "partial upload",
        };
        text.to_owned()
    }
}

/// What a write reports back: the digest of the stored content.
#[derive(Clone, Debug, PartialEq, Eq)]
pub struct FileOperationOutput {
    pub digest: Digest,
}

/// One entry of a directory listing.
///
/// `id` is the entry's position in the listing that produced it. `modified`
/// counts seconds since the Unix epoch, in UTC.
#[derive(Clone, Debug, PartialEq, Eq)]
pub struct FileStoreResult {
    pub id: u64,
    pub name: String,
    pub size: u64,
    pub path: String,
    pub file_type: String,
    pub is_dir: bool,
    pub modified: i64,
    pub modified_by: Option<String>,
}

/// One request of the chunked upload protocol.
#[derive(Clone, Debug, PartialEq, Eq)]
pub struct UploadConfig {
    pub object_path: String,
    pub chunk_id: i64,
    pub upload_id: String,
    pub data: Vec<u8>,
}

/// The answer to one request of the chunked upload protocol.
#[derive(Clone, Debug, PartialEq, Eq)]
pub struct UploadResult {
    pub id: String,
    pub write_size: usize,
    pub is_complete: bool,
}

impl Default for UploadResult {
    fn default() -> (r: Self)
        ensures
            r.id@ == Seq::<char>::empty(),
            r.write_size == 0,
            !r.is_complete,
    {
        UploadResult { id: String::new(), write_size: 0, is_complete: false }
    }
}

} // verus!
