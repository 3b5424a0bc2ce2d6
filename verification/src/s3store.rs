//! The remote object backend: what it decides about listings, digests and
//! multipart uploads. Talking to the object store is the caller's part.

use vstd::prelude::*;
use vstd::string::*;
use vstd::utf8::encode_utf8;
use chrono::DateTime;
use crate::checksum::{entity_tag_digest, Digest};
use crate::path::{extension, extension_of, file_name, file_name_of, is_directory_name, names_directory, object_key, object_key_of, parent, parent_of};
use crate::store::{FileOperationOutput, FileStoreResult, StoreError, UploadConfig, UploadResult};
use crate::upload::{begin_upload, has_live_upload, single_writer, UploadSession, UploadState};

verus! {

/// The options that select a bucket.
#[derive(Clone, Debug, PartialEq, Eq)]
pub struct BucketOpt {
    pub region: Option<String>,
    pub bucket: String,
    pub verbose: bool,
}

/// The backend for one bucket in one region.
#[derive(Clone, Debug, PartialEq, Eq)]
pub struct S3Store {
    pub bucket_name: String,
    pub region: String,
}

/// What the object store reports of one object.
#[derive(Clone, Debug, PartialEq, Eq)]
pub struct RemoteObject {
    pub key: Option<String>,
    pub size: Option<i64>,
    pub last_modified: Option<String>,
    pub owner: Option<String>,
}

/// One part of a multipart upload that the object store has acknowledged.
#[derive(Clone, Debug, PartialEq, Eq)]
pub struct CompletedPart {
    pub part_number: i64,
    pub e_tag: String,
}

/// The seconds since the Unix epoch that an RFC 3339 date and time denotes,
/// as the `chrono` crate reads it; `None` where it is not such a text.
pub uninterp spec fn rfc3339_seconds(text: Seq<char>) -> Option<i64>;

/// Calls `chrono::DateTime::parse_from_rfc3339` and, on what it parsed,
/// `DateTime::timestamp`. Trusted: the result is a function of the text
/// alone, `None` where the parser reports an error.
#[verifier::external_body]
fn parse_rfc3339(text: &str) -> (seconds: Option<i64>)
    ensures
        seconds == rfc3339_seconds(text@),
{
    match DateTime::parse_from_rfc3339(text) {
        Ok(t) => Some(t.timestamp()),
        Err(_) => None,
    }
}

/// The key of an object, empty where the store reported none.
pub open spec fn key_of(o: RemoteObject) -> Seq<char> {
    match o.key {
        Some(k) => k@,
        None => Seq::<char>::empty(),
    }
}

/// Whether a listing entry can be made of `o`: its size is not negative and
/// its modification time, if it has one, is an RFC 3339 date and time.
pub open spec fn listable(o: RemoteObject) -> bool {
    &&& o.size is Some ==> o.size->Some_0 >= 0
    &&& o.last_modified is Some ==> rfc3339_seconds(o.last_modified->Some_0@) is Some
}

/// Whether `r` is the listing entry with number `id` for `o`.
///
/// A key that ends in `/` is a directory marker: it has no name and its path
/// is the key. Any other key has its last component as name and what
/// precedes that as path.
pub open spec fn describes_object(r: FileStoreResult, id: int, o: RemoteObject) -> bool {
    let key = key_of(o);
    &&& r.id == id
    &&& r.is_dir == names_directory(key)
    &&& r.name@ == (if names_directory(key) {
        Seq::<char>::empty()
    } else {
        file_name_of(key)
    })
    &&& r.path@ == (if names_directory(key) {
        key
    } else {
        parent_of(key)
    })
    &&& r.file_type@ == extension_of(key)
    &&& r.size == (match o.size {
        Some(n) => n as int,
        None => 0,
    })
    &&& r.modified == (match o.last_modified {
        Some(t) => rfc3339_seconds(t@)->Some_0,
        None => 0i64,
    })
    &&& match (r.modified_by, o.owner) {
        (Some(a), Some(b)) => a@ == b@,
        (None, None) => true,
        _ => false,
    }
}

/// How a call to the object store failed.
#[derive(Clone, Copy, Debug, PartialEq, Eq, Structural)]
pub enum RemoteFault {
    /// The store answered with this HTTP status.
    Status(u16),
    /// The request did not reach the store, or the answer did not come back.
    Dispatch,
    /// No credentials could be had.
    Credentials,
    /// Anything else.
    Other,
}

/// The error that a failed call surfaces as.
pub open spec fn fault_error(fault: RemoteFault) -> StoreError {
    match fault {
        RemoteFault::Dispatch => StoreError::BackendUnavailable,
        RemoteFault::Credentials => StoreError::PermissionDenied,
        RemoteFault::Other => StoreError::IoFailure,
        RemoteFault::Status(code) => if code == 404 {
            StoreError::NotFound
        } else if code == 401 || code == 403 {
            StoreError::PermissionDenied
        } else if code == 429 || 500 <= code <= 599 {
            StoreError::BackendUnavailable
        } else {
            StoreError::IoFailure
        },
    }
}

/// The bytes of an entity tag, none where the store sent no tag.
pub open spec fn tag_bytes(e_tag: Option<String>) -> Seq<u8> {
    match e_tag {
        Some(t) => encode_utf8(t@),
        None => encode_utf8(Seq::<char>::empty()),
    }
}

/// Whether no part number occurs twice in `parts`.
pub open spec fn distinct_parts(parts: Seq<CompletedPart>) -> bool {
    forall|i: int, j: int|
        0 <= i < j < parts.len() ==> (#[trigger] parts[i]).part_number != (
        #[trigger] parts[j]).part_number
}

/// Whether the parts stand by ascending part number.
pub open spec fn ascending_parts(parts: Seq<CompletedPart>) -> bool {
    forall|i: int, j: int|
        0 <= i < j < parts.len() ==> (#[trigger] parts[i]).part_number < (
        #[trigger] parts[j]).part_number
}

/// The place that the part with number `n` takes among `parts`: behind the
/// last part with a smaller number.
pub open spec fn insert_position(parts: Seq<CompletedPart>, n: i64) -> int
    decreases parts.len(),
{
    if parts.len() == 0 {
        0
    } else if parts.last().part_number < n {
        parts.len() as int
    } else {
        insert_position(parts.drop_last(), n)
    }
}

/// The place of a part lies within the list.
pub proof fn lemma_insert_position_in_range(parts: Seq<CompletedPart>, n: i64)
    ensures
        0 <= insert_position(parts, n) <= parts.len(),
    decreases parts.len(),
{
    if parts.len() > 0 && parts.last().part_number >= n {
        lemma_insert_position_in_range(parts.drop_last(), n);
    }
}

/// Among parts in ascending order, the place of the part with number `n` is
/// where the smaller numbers end.
pub proof fn lemma_insert_position(parts: Seq<CompletedPart>, n: i64, at: int)
    requires
        0 <= at <= parts.len(),
        forall|k: int| 0 <= k < at ==> (#[trigger] parts[k]).part_number < n,
        forall|k: int| at <= k < parts.len() ==> (#[trigger] parts[k]).part_number >= n,
    ensures
        insert_position(parts, n) == at,
    decreases parts.len(),
{
    if parts.len() > 0 {
        if at == parts.len() {
            assert(parts[parts.len() - 1].part_number < n);
        } else {
            assert(parts[parts.len() - 1].part_number >= n);
            let init = parts.drop_last();
            assert forall|k: int| 0 <= k < at implies (#[trigger] init[k]).part_number < n by {
                assert(init[k] == parts[k]);
            }
            assert forall|k: int| at <= k < init.len() implies (#[trigger] init[k]).part_number
                >= n by {
                assert(init[k] == parts[k]);
            }
            lemma_insert_position(init, n, at);
        }
    }
}

/// Parts in ascending order bear each number once.
pub proof fn lemma_ascending_is_distinct(parts: Seq<CompletedPart>)
    requires
        ascending_parts(parts),
    ensures
        distinct_parts(parts),
{
}

/// Whether `parts` holds the part with number `n`.
pub open spec fn holds_part(parts: Seq<CompletedPart>, n: i64) -> bool {
    exists|i: int| 0 <= i < parts.len() && (#[trigger] parts[i]).part_number == n
}

impl S3Store {
    /// The backend for `bucket_name` in `region`.
    pub fn new(bucket_name: &str, region: String) -> (store: Self)
        ensures
            store.bucket_name@ == bucket_name@,
            store.region == region,
    {
        S3Store { bucket_name: bucket_name.to_owned(), region }
    }

    /// The backend for the bucket that `options` name, in the region they
    /// name or, where they name none, in `default_region`.
    pub fn from_options(options: &BucketOpt, default_region: &str) -> (store: Self)
        ensures
            store.bucket_name@ == options.bucket@,
            store.region@ == (match options.region {
                Some(r) => r@,
                None => default_region@,
            }),
    {
        let region = match &options.region {
            Some(r) => r.clone(),
            None => default_region.to_owned(),
        };
        S3Store { bucket_name: options.bucket.clone(), region }
    }

    /// The listing entry with number `id` for one object. Fails with
    /// `IoFailure` exactly when the object is not listable.
    pub fn describe_object(id: u64, object: &RemoteObject) -> (r: Result<
        FileStoreResult,
        StoreError,
    >)
        ensures
            r is Ok <==> listable(*object),
            r is Ok ==> describes_object(r->Ok_0, id as int, *object),
            r is Err ==> r->Err_0 == StoreError::IoFailure,
    {
        let size: u64 = match object.size {
            Some(n) => {
                if n < 0 {
                    return Err(StoreError::IoFailure);
                }
                n as u64
            },
            None => 0,
        };
        let modified: i64 = match &object.last_modified {
            Some(text) => match parse_rfc3339(text.as_str()) {
                Some(seconds) => seconds,
                None => {
                    return Err(StoreError::IoFailure);
                },
            },
            None => 0,
        };
        let key = match &object.key {
            Some(k) => k.clone(),
            None => String::new(),
        };
        let is_dir = is_directory_name(key.as_str());
        let name = if is_dir {
            String::new()
        } else {
            file_name(key.as_str())
        };
        let file_type = extension(key.as_str());
        let path = if is_dir {
            key
        } else {
            parent(key.as_str())
        };
        let modified_by = match &object.owner {
            Some(who) => Some(who.clone()),
            None => None,
        };
        Ok(FileStoreResult { id, name, size, path, file_type, is_dir, modified, modified_by })
    }

    /// The listing for the objects that the store reports under `prefix`,
    /// those of all pages in the order given, numbered from zero, so that no
    /// two entries of one listing bear the same number.
    ///
    /// Where the store reports no object at all under a prefix that is not
    /// empty, nothing exists there: the listing fails with `NotFound`. The
    /// empty prefix is the bucket itself, which lists as empty. The listing
    /// fails with `IoFailure` exactly when one of the objects is not
    /// listable.
    pub fn get_dir(prefix: &str, objects: &Vec<RemoteObject>) -> (r: Result<
        Vec<FileStoreResult>,
        StoreError,
    >)
        ensures
            objects@.len() == 0 && prefix@.len() > 0 ==> r == Err::<
                Vec<FileStoreResult>,
                StoreError,
            >(StoreError::NotFound),
            objects@.len() == 0 && prefix@.len() == 0 ==> r is Ok && r->Ok_0@.len() == 0,
            objects@.len() > 0 ==> {
                &&& r is Ok <==> forall|i: int|
                    0 <= i < objects@.len() ==> listable(#[trigger] objects@[i])
                &&& r is Err ==> r->Err_0 == StoreError::IoFailure
            },
            r is Ok ==> {
                &&& r->Ok_0@.len() == objects@.len()
                &&& forall|i: int|
                    0 <= i < objects@.len() ==> describes_object(
                        #[trigger] r->Ok_0@[i],
                        i,
                        objects@[i],
                    )
                &&& forall|i: int, j: int|
                    0 <= i < j < objects@.len() ==> (#[trigger] r->Ok_0@[i]).id != (
                    #[trigger] r->Ok_0@[j]).id
            },
    {
        let mut listing: Vec<FileStoreResult> = Vec::new();
        if objects.len() == 0 && !prefix.is_empty() {
            return Err(StoreError::NotFound);
        }
        let mut i: usize = 0;
        while i < objects.len()
            invariant
                i <= objects@.len(),
                listing@.len() == i,
                forall|k: int| 0 <= k < i ==> listable(#[trigger] objects@[k]),
                forall|k: int|
                    0 <= k < i ==> describes_object(#[trigger] listing@[k], k, objects@[k]),
            decreases objects@.len() - i,
        {
            match Self::describe_object(i as u64, &objects[i]) {
                Ok(entry) => {
                    listing.push(entry);
                },
                Err(e) => {
                    assert(!listable(objects@[i as int]));
                    return Err(e);
                },
            }
            i += 1;
        }
        Ok(listing)
    }

    /// The token with which the next page of a listing is asked for, or
    /// `None` after the last page.
    pub fn next_page(is_truncated: Option<bool>, token: Option<String>) -> (next: Option<String>)
        ensures
            next == (if is_truncated == Some(true) {
                token
            } else {
                None
            }),
    {
        match is_truncated {
            Some(true) => token,
            _ => None,
        }
    }

    /// The content of an object that was read. A response without a body
    /// fails with `BackendUnavailable`.
    pub fn get_object(body: Option<Vec<u8>>) -> (r: Result<Vec<u8>, StoreError>)
        ensures
            r == (match body {
                Some(bytes) => Ok::<Vec<u8>, StoreError>(bytes),
                None => Err::<Vec<u8>, StoreError>(StoreError::BackendUnavailable),
            }),
    {
        match body {
            Some(bytes) => Ok(bytes),
            None => Err(StoreError::BackendUnavailable),
        }
    }

    /// What a write reports: the digest that stands for the entity tag of
    /// the object written, the empty tag where the store sent none.
    pub fn put_output(e_tag: &Option<String>) -> (out: FileOperationOutput)
        ensures
            out.digest.wf(),
            out.digest.algorithm == entity_tag_digest(tag_bytes(*e_tag)).0,
            out.digest.bytes@ == entity_tag_digest(tag_bytes(*e_tag)).1,
    {
        proof {
            reveal_strlit("");
            assert(""@ =~= Seq::<char>::empty());
        }
        let digest = match e_tag {
            Some(t) => Digest::from_entity_tag(t.as_str()),
            None => Digest::from_entity_tag(""),
        };
        FileOperationOutput { digest }
    }

    /// The key under which the object of an upload request is held.
    pub fn upload_key(u: &UploadConfig) -> (key: String)
        ensures
            key@ == object_key_of(u.object_path@),
    {
        object_key(u.object_path.as_str())
    }

    /// Starts a multipart upload to the path that `u` names, under the
    /// identifier that the object store issued, empty where it sent none.
    ///
    /// Fails with `ConflictingUpload`, and changes nothing, exactly when a
    /// live session already writes to that path.
    pub fn init_object_upload(
        sessions: &mut Vec<UploadSession>,
        u: &UploadConfig,
        declared_length: Option<u64>,
        upload_id: Option<String>,
    ) -> (r: Result<usize, StoreError>)
        ensures
            has_live_upload(old(sessions)@, u.object_path@) ==> r == Err::<usize, StoreError>(
                StoreError::ConflictingUpload,
            ) && final(sessions)@ == old(sessions)@,
            !has_live_upload(old(sessions)@, u.object_path@) ==> {
                &&& r == Ok::<usize, StoreError>(old(sessions)@.len() as usize)
                &&& final(sessions)@.len() == old(sessions)@.len() + 1
                &&& final(sessions)@.drop_last() == old(sessions)@
                &&& final(sessions)@.last().id@ == (match upload_id {
                    Some(id) => id@,
                    None => Seq::<char>::empty(),
                })
                &&& final(sessions)@.last().target_path@ == u.object_path@
                &&& final(sessions)@.last().bytes_written == 0
                &&& final(sessions)@.last().declared_length == declared_length
                &&& final(sessions)@.last().state == UploadState::Initiated
            },
            r is Ok ==> has_live_upload(final(sessions)@, u.object_path@),
            single_writer(old(sessions)@) ==> single_writer(final(sessions)@),
    {
        let id = match upload_id {
            Some(id) => id,
            None => String::new(),
        };
        let r = begin_upload(sessions, u.object_path.clone(), declared_length, id);
        proof {
            if r is Ok {
                assert(sessions@.drop_last() =~= old(sessions)@);
            }
        }
        r
    }

    /// Decides, before anything is sent, what becomes of the chunk of `u`:
    /// `Ok(false)` where the part `u.chunk_id` was acknowledged before, so
    /// that nothing is to be sent and nothing to be finalised; `Ok(true)`
    /// where the chunk is to be sent; the session's error where the session
    /// would refuse it.
    pub fn admit_chunk(session: &UploadSession, parts: &PartList, u: &UploadConfig) -> (r: Result<
        bool,
        StoreError,
    >)
        ensures
            holds_part(parts@, u.chunk_id) ==> r == Ok::<bool, StoreError>(false),
            !holds_part(parts@, u.chunk_id) && session.accepts(u.data@.len()) ==> r == Ok::<
                bool,
                StoreError,
            >(true),
            !holds_part(parts@, u.chunk_id) && !session.accepts(u.data@.len()) ==> r == Err::<
                bool,
                StoreError,
            >(
                if session.is_live() {
                    StoreError::IoFailure
                } else {
                    StoreError::InvalidState
                },
            ),
    {
        if parts.holds(u.chunk_id) {
            return Ok(false);
        }
        match session.admits(u) {
            Ok(_) => Ok(true),
            Err(e) => Err(e),
        }
    }

    /// Takes the chunk of `u` after the object store has stored it as the part
    /// `u.chunk_id` and answered with `e_tag`, the empty tag where it sent
    /// none.
    ///
    /// A part that was acknowledged before changes nothing: the call reports
    /// no bytes written, so a chunk that is sent again counts once. Any other
    /// part is offered to the session; where the session takes it, the part
    /// is recorded at its place by part number, and where the session reports
    /// completion the caller must make the completion call. Where the session
    /// refuses it, nothing changes and the session's error is returned.
    pub fn write_chunk(
        session: &mut UploadSession,
        parts: &mut PartList,
        u: &UploadConfig,
        e_tag: Option<String>,
    ) -> (r: Result<UploadResult, StoreError>)
        ensures
            holds_part(old(parts)@, u.chunk_id) ==> {
                &&& *final(session) == *old(session)
                &&& final(parts)@ == old(parts)@
                &&& r is Ok
                &&& r->Ok_0.id@ == old(session).id@
                &&& r->Ok_0.write_size == 0
                &&& r->Ok_0.is_complete == old(session).exposes_target()
            },
            !holds_part(old(parts)@, u.chunk_id) ==> {
                &&& *final(session) == old(session).after_write(u.data@.len())
                &&& r is Ok <==> old(session).accepts(u.data@.len())
                &&& r is Err ==> final(parts)@ == old(parts)@
                &&& r is Err ==> r->Err_0 == (if old(session).is_live() {
                    StoreError::IoFailure
                } else {
                    StoreError::InvalidState
                })
                &&& r is Ok ==> {
                    &&& r->Ok_0.id@ == old(session).id@
                    &&& r->Ok_0.write_size == u.data@.len()
                    &&& r->Ok_0.is_complete == final(session).exposes_target()
                    &&& final(parts)@.len() == old(parts)@.len() + 1
                    &&& final(parts)@.remove(insert_position(old(parts)@, u.chunk_id))
                        == old(parts)@
                    &&& final(parts)@[insert_position(old(parts)@, u.chunk_id)].part_number
                        == u.chunk_id
                    &&& final(parts)@[insert_position(old(parts)@, u.chunk_id)].e_tag@ == (
                    match e_tag {
                        Some(t) => t@,
                        None => Seq::<char>::empty(),
                    })
                }
            },
    {
        if parts.holds(u.chunk_id) {
            return Ok(
                UploadResult {
                    id: session.id.clone(),
                    write_size: 0,
                    is_complete: session.is_complete(),
                },
            );
        }
        let result = match session.write_chunk(u) {
            Ok(result) => result,
            Err(e) => {
                return Err(e);
            },
        };
        let tag = match e_tag {
            Some(t) => t,
            None => String::new(),
        };
        let ghost at = insert_position(parts@, u.chunk_id);
        proof {
            lemma_insert_position_in_range(parts@, u.chunk_id);
        }
        let fresh = parts.acknowledge(u.chunk_id, tag);
        assert(parts@.remove(at) =~= old(parts)@);
        Ok(result)
    }

    /// The error that a failed call surfaces as. Of the HTTP statuses, 404
    /// is `NotFound`, 401 and 403 are `PermissionDenied`, 429 and the 5xx
    /// are `BackendUnavailable`, the rest `IoFailure`.
    pub fn error_for_fault(fault: RemoteFault) -> (e: StoreError)
        ensures
            e == fault_error(fault),
    {
        match fault {
            RemoteFault::Dispatch => StoreError::BackendUnavailable,
            RemoteFault::Credentials => StoreError::PermissionDenied,
            RemoteFault::Other => StoreError::IoFailure,
            RemoteFault::Status(code) => {
                if code == 404 {
                    StoreError::NotFound
                } else if code == 401 || code == 403 {
                    StoreError::PermissionDenied
                } else if code == 429 || (500 <= code && code <= 599) {
                    StoreError::BackendUnavailable
                } else {
                    StoreError::IoFailure
                }
            },
        }
    }
}

/// The parts of one multipart upload that the object store has acknowledged,
/// by ascending part number, whatever the order in which they were
/// acknowledged. No part number occurs twice. This is the list that the
/// completion call must give.
#[derive(Debug, PartialEq, Eq)]
pub struct PartList {
    parts: Vec<CompletedPart>,
}

impl PartList {
    #[verifier::type_invariant]
    spec fn in_order(self) -> bool {
        ascending_parts(self.parts@)
    }

    /// The parts acknowledged so far.
    pub closed spec fn view(&self) -> Seq<CompletedPart> {
        self.parts@
    }

    /// No part is acknowledged yet.
    pub fn new() -> (list: Self)
        ensures
            list@.len() == 0,
    {
        PartList { parts: Vec::new() }
    }

    /// The parts acknowledged so far, by ascending part number.
    pub fn parts(&self) -> (parts: &Vec<CompletedPart>)
        ensures
            parts@ == self@,
            ascending_parts(parts@),
            distinct_parts(parts@),
    {
        proof {
            use_type_invariant(self);
            lemma_ascending_is_distinct(self.parts@);
        }
        &self.parts
    }

    /// Whether the part `chunk_id` was acknowledged.
    pub fn holds(&self, chunk_id: i64) -> (b: bool)
        ensures
            b == holds_part(self@, chunk_id),
    {
        let mut i: usize = 0;
        while i < self.parts.len()
            invariant
                i <= self.parts@.len(),
                forall|k: int| 0 <= k < i ==> (#[trigger] self.parts@[k]).part_number != chunk_id,
            decreases self.parts@.len() - i,
        {
            if self.parts[i].part_number == chunk_id {
                return true;
            }
            i += 1;
        }
        false
    }

    /// Records that the object store acknowledged the part `chunk_id` with
    /// the entity tag `e_tag`.
    ///
    /// A part that was acknowledged before is not recorded again: the call
    /// returns `false` and changes nothing, so a chunk that is sent twice
    /// counts once. Otherwise the part takes its place by part number:
    /// after the parts with a smaller number and before those with a
    /// greater one.
    pub fn acknowledge(&mut self, chunk_id: i64, e_tag: String) -> (fresh: bool)
        ensures
            fresh == !holds_part(old(self)@, chunk_id),
            !fresh ==> final(self)@ == old(self)@,
            fresh ==> final(self)@ == old(self)@.insert(
                insert_position(old(self)@, chunk_id),
                (CompletedPart { part_number: chunk_id, e_tag }),
            ),
            fresh ==> {
                &&& 0 <= insert_position(old(self)@, chunk_id) <= old(self)@.len()
                &&& forall|k: int|
                    0 <= k < insert_position(old(self)@, chunk_id) ==> (#[trigger] old(
                        self,
                    )@[k]).part_number < chunk_id
                &&& forall|k: int|
                    insert_position(old(self)@, chunk_id) <= k < old(self)@.len() ==> (
                    #[trigger] old(self)@[k]).part_number > chunk_id
            },
            ascending_parts(final(self)@),
    {
        proof {
            use_type_invariant(&*self);
        }
        if self.holds(chunk_id) {
            return false;
        }
        let mut at: usize = 0;
        while at < self.parts.len() && self.parts[at].part_number < chunk_id
            invariant
                at <= self.parts@.len(),
                self.parts@ == old(self).parts@,
                forall|k: int| 0 <= k < at ==> (#[trigger] self.parts@[k]).part_number < chunk_id,
            decreases self.parts@.len() - at,
        {
            at += 1;
        }
        let mut parts: Vec<CompletedPart> = Vec::new();
        std::mem::swap(&mut parts, &mut self.parts);
        proof {
            assert forall|k: int| at <= k < parts@.len() implies (#[trigger] parts@[k]).part_number
                > chunk_id by {
                if at < k {
                    assert(parts@[at as int].part_number < parts@[k].part_number);
                }
            }
            lemma_insert_position(parts@, chunk_id, at as int);
        }
        let ghost before = parts@;
        parts.insert(at, CompletedPart { part_number: chunk_id, e_tag });
        proof {
            assert forall|i: int, j: int| 0 <= i < j < parts@.len() implies (
            #[trigger] parts@[i]).part_number < (#[trigger] parts@[j]).part_number by {
                let a = if i < at { i } else { i - 1 };
                let b = if j < at { j } else { j - 1 };
                if i != at {
                    assert(parts@[i] == before[a]);
                }
                if j != at {
                    assert(parts@[j] == before[b]);
                }
                if i != at && j != at {
                    assert(before[a].part_number < before[b].part_number);
                }
            }
        }
        std::mem::swap(&mut parts, &mut self.parts);
        true
    }
}

} // verus!
