//! The local filesystem backend: what it decides about listings, writes,
//! deletions and uploads. Reading and writing the disk is the caller's part.

use vstd::prelude::*;
use vstd::string::*;
use uuid::Uuid;
use crate::checksum::{compute_digest, digest_of, Algorithm};
use crate::path::{extension, extension_of, file_name, file_name_of, normalize, normalized, parent, parent_of};
use crate::store::{FileOperationOutput, FileStoreResult, StoreError, UploadConfig};
use crate::upload::{begin_upload, has_live_upload, single_writer, UploadSession, UploadState};

verus! {

/// What the filesystem reports of one directory entry.
#[derive(Clone, Debug, PartialEq, Eq)]
pub struct DirectoryEntry {
    pub path: String,
    pub size: u64,
    pub is_dir: bool,
    pub modified: i64,
}

/// How a write is carried out.
#[derive(Clone, Copy, Debug, PartialEq, Eq, Structural)]
pub enum PutAction {
    CreateDirectory,
    WriteFile,
}

/// How a deletion is carried out.
#[derive(Clone, Copy, Debug, PartialEq, Eq, Structural)]
pub enum DeleteAction {
    RemoveTree,
    RemoveFile,
}

/// The backend rooted at one directory.
#[derive(Clone, Debug, PartialEq, Eq)]
pub struct FileSystemStore {
    pub root: String,
}

/// Whether `r` is the listing entry with number `id` for `e`.
pub open spec fn describes(r: FileStoreResult, id: int, e: DirectoryEntry) -> bool {
    &&& r.id == id
    &&& r.name@ == file_name_of(e.path@)
    &&& r.size == e.size
    &&& r.path@ == e.path@
    &&& r.file_type@ == extension_of(e.path@)
    &&& r.is_dir == e.is_dir
    &&& r.modified == e.modified
    &&& r.modified_by is None
}

/// Calls `uuid::Uuid::new_v4` and writes the identifier in its hyphenated
/// form. The identifier is random; trusted is only that the hyphenated form
/// has 36 characters.
#[verifier::external_body]
fn fresh_upload_id() -> (id: String)
    ensures
        id@.len() == 36,
{
    Uuid::new_v4().to_string()
}

impl FileSystemStore {
    /// The backend rooted at `root`.
    pub fn new(root: String) -> (store: Self)
        ensures
            store.root == root,
    {
        FileSystemStore { root }
    }

    /// The place of `path` below the root, in normal form.
    pub open spec fn resolved(&self, path: Seq<char>) -> Seq<char> {
        normalized(self.root@ + seq!['/'] + path)
    }

    /// The place of `path` below the root, in normal form.
    pub fn resolve(&self, path: &str) -> (full: String)
        ensures
            full@ == self.resolved(path@),
    {
        let mut joined = self.root.clone();
        proof {
            reveal_strlit("/");
            assert("/"@ =~= seq!['/']);
        }
        joined.append("/");
        joined.append(path);
        normalize(joined.as_str())
    }

    /// The listing entry with number `id` for one directory entry. A local
    /// filesystem records no identity, so `modified_by` is absent.
    pub fn describe_entry(id: u64, entry: &DirectoryEntry) -> (r: FileStoreResult)
        ensures
            describes(r, id as int, *entry),
    {
        FileStoreResult {
            id,
            name: file_name(entry.path.as_str()),
            size: entry.size,
            path: entry.path.clone(),
            file_type: extension(entry.path.as_str()),
            is_dir: entry.is_dir,
            modified: entry.modified,
            modified_by: None,
        }
    }

    /// The listing of a directory: one entry for each directory entry, in
    /// the order given, numbered from zero, so that no two entries of one
    /// listing bear the same number.
    pub fn get_dir(entries: &Vec<DirectoryEntry>) -> (listing: Vec<FileStoreResult>)
        ensures
            listing@.len() == entries@.len(),
            forall|i: int|
                0 <= i < entries@.len() ==> describes(#[trigger] listing@[i], i, entries@[i]),
            forall|i: int, j: int|
                0 <= i < j < listing@.len() ==> (#[trigger] listing@[i]).id != (
                #[trigger] listing@[j]).id,
    {
        let mut listing: Vec<FileStoreResult> = Vec::new();
        let mut i: usize = 0;
        while i < entries.len()
            invariant
                i <= entries@.len(),
                listing@.len() == i,
                forall|k: int| 0 <= k < i ==> describes(#[trigger] listing@[k], k, entries@[k]),
            decreases entries@.len() - i,
        {
            let r = Self::describe_entry(i as u64, &entries[i]);
            listing.push(r);
            i += 1;
        }
        listing
    }

    /// Only a file can be read: reading a directory fails with
    /// `InvalidTarget`.
    pub fn read_action(is_dir: bool) -> (r: Result<(), StoreError>)
        ensures
            r == (if is_dir {
                Err::<(), StoreError>(StoreError::InvalidTarget)
            } else {
                Ok::<(), StoreError>(())
            }),
    {
        if is_dir {
            Err(StoreError::InvalidTarget)
        } else {
            Ok(())
        }
    }

    /// A write of no bytes creates a directory; any other write creates or
    /// replaces one file.
    pub fn put_action(data: &[u8]) -> (action: PutAction)
        ensures
            action == (if data@.len() == 0 {
                PutAction::CreateDirectory
            } else {
                PutAction::WriteFile
            }),
    {
        if data.len() == 0 {
            PutAction::CreateDirectory
        } else {
            PutAction::WriteFile
        }
    }

    /// What a write reports: the SHA-256 digest of `stored`, the content as
    /// it reads back after the write.
    pub fn put_output(stored: &[u8]) -> (out: FileOperationOutput)
        ensures
            out.digest.wf(),
            out.digest.algorithm == Algorithm::Sha256,
            out.digest.bytes@ == digest_of(Algorithm::Sha256, stored@),
    {
        FileOperationOutput { digest: compute_digest(Algorithm::Sha256, stored) }
    }

    /// The MD5 digest of a file's content.
    pub fn file_md5sum(content: &[u8]) -> (out: FileOperationOutput)
        ensures
            out.digest.wf(),
            out.digest.algorithm == Algorithm::Md5,
            out.digest.bytes@ == digest_of(Algorithm::Md5, content@),
    {
        FileOperationOutput { digest: compute_digest(Algorithm::Md5, content) }
    }

    /// A directory is deleted with all below it, anything else alone.
    pub fn delete_action(is_dir: bool) -> (action: DeleteAction)
        ensures
            action == (if is_dir {
                DeleteAction::RemoveTree
            } else {
                DeleteAction::RemoveFile
            }),
    {
        if is_dir {
            DeleteAction::RemoveTree
        } else {
            DeleteAction::RemoveFile
        }
    }

    /// Starts an upload to the path that `u` names, under a fresh
    /// identifier of 36 characters. The session's target is the place of
    /// that path below the root, so that two spellings of one place are one
    /// target. The caller creates the directory that `staging_directory`
    /// gives for the session's staged name, and an empty file under that
    /// name.
    ///
    /// Fails with `ConflictingUpload`, and changes nothing, exactly when a
    /// live session already writes to that place.
    pub fn init_object_upload(
        &self,
        sessions: &mut Vec<UploadSession>,
        u: &UploadConfig,
        declared_length: Option<u64>,
    ) -> (r: Result<usize, StoreError>)
        ensures
            has_live_upload(old(sessions)@, self.resolved(u.object_path@)) ==> r == Err::<
                usize,
                StoreError,
            >(StoreError::ConflictingUpload) && final(sessions)@ == old(sessions)@,
            !has_live_upload(old(sessions)@, self.resolved(u.object_path@)) ==> {
                &&& r == Ok::<usize, StoreError>(old(sessions)@.len() as usize)
                &&& final(sessions)@.len() == old(sessions)@.len() + 1
                &&& final(sessions)@.drop_last() == old(sessions)@
                &&& final(sessions)@.last().id@.len() == 36
                &&& final(sessions)@.last().target_path@ == self.resolved(u.object_path@)
                &&& final(sessions)@.last().bytes_written == 0
                &&& final(sessions)@.last().declared_length == declared_length
                &&& final(sessions)@.last().state == UploadState::Initiated
            },
            r is Ok ==> has_live_upload(final(sessions)@, self.resolved(u.object_path@)),
            single_writer(old(sessions)@) ==> single_writer(final(sessions)@),
    {
        let id = fresh_upload_id();
        let target = self.resolve(u.object_path.as_str());
        let r = begin_upload(sessions, target, declared_length, id);
        proof {
            if r is Ok {
                assert(sessions@.drop_last() =~= old(sessions)@);
            }
        }
        r
    }

    /// The directory that must exist before an upload to `target` is staged.
    pub fn staging_directory(target: &str) -> (dir: String)
        ensures
            dir@ == parent_of(target@),
    {
        parent(target)
    }
}

} // verus!
