//! The chunked upload session: a state machine shared by every backend.
//!
//! A backend stages the bytes of an upload under a temporary name and moves
//! them to the target only when the session completes. The functions here
//! decide; the backend performs what they decide.

use vstd::prelude::*;
use vstd::string::*;
use crate::path::{normalize, normalized};
use crate::store::{StoreError, UploadConfig, UploadResult};

verus! {

/// The states of an upload.
#[derive(Clone, Copy, Debug, PartialEq, Eq, Structural)]
pub enum UploadState {
    Initiated,
    Writing,
    Completed,
    Aborted,
}

/// One incremental upload to `target_path`.
#[derive(Debug, PartialEq, Eq)]
pub struct UploadSession {
    pub id: String,
    pub target_path: String,
    pub bytes_written: u64,
    pub declared_length: Option<u64>,
    pub state: UploadState,
}

/// The sum of the chunk lengths.
pub open spec fn total_len(lens: Seq<nat>) -> nat
    decreases lens.len(),
{
    if lens.len() == 0 {
        0
    } else {
        total_len(lens.drop_last()) + lens.last()
    }
}

/// The marker that sets staged names apart from the names of objects.
pub open spec fn staging_marker() -> Seq<char> {
    ".upload-"@
}

/// The temporary name under which the bytes of an upload to `target` are
/// kept until the upload completes.
pub open spec fn staging_name(target: Seq<char>, id: Seq<char>) -> Seq<char> {
    target + staging_marker() + id
}

/// Whether `name` bears the staging marker. The names of objects must not
/// bear it: what does is staged data, to be reclaimed where no live session
/// owns it.
pub open spec fn is_staged(name: Seq<char>) -> bool {
    exists|i: int|
        0 <= i && i + 8 <= name.len() && (#[trigger] name.subrange(i, i + 8)) == staging_marker()
}

/// Tells staged names from the names of objects.
pub fn is_staged_name(name: &str) -> (b: bool)
    ensures
        b == is_staged(name@),
{
    let marker = ".upload-".to_owned();
    let n = name.unicode_len();
    if n < 8 {
        return false;
    }
    let mut i: usize = 0;
    while i <= n - 8
        invariant
            n == name@.len(),
            8 <= n,
            i + 7 <= n,
            marker@ == staging_marker(),
            forall|k: int| 0 <= k < i ==> (#[trigger] name@.subrange(k, k + 8)) != staging_marker(),
        decreases n - i,
    {
        let piece = name.substring_char(i, i + 8).to_owned();
        if piece == marker {
            return true;
        }
        i += 1;
    }
    false
}

/// Every staged name bears the staging marker.
pub proof fn lemma_staging_name_is_staged(target: Seq<char>, id: Seq<char>)
    ensures
        is_staged(staging_name(target, id)),
{
    reveal_strlit(".upload-");
    let name = staging_name(target, id);
    let at = target.len() as int;
    assert(name.subrange(at, at + 8) =~= staging_marker());
}

impl UploadSession {
    /// A live session still takes chunks.
    pub open spec fn is_live(&self) -> bool {
        self.state == UploadState::Initiated || self.state == UploadState::Writing
    }

    /// Whether a chunk of `len` bytes is taken: the session is live and the
    /// byte count stays within its range.
    pub open spec fn accepts(&self, len: nat) -> bool {
        self.is_live() && self.bytes_written + len <= u64::MAX
    }

    /// The session after a chunk of `len` bytes was offered to it.
    pub open spec fn after_write(self, len: nat) -> UploadSession {
        if self.accepts(len) {
            let total = (self.bytes_written + len) as u64;
            UploadSession {
                bytes_written: total,
                state: if self.declared_length == Some(total) {
                    UploadState::Completed
                } else {
                    UploadState::Writing
                },
                ..self
            }
        } else {
            self
        }
    }

    /// The session after chunks of the given lengths were offered in order.
    pub open spec fn after_chunks(self, lens: Seq<nat>) -> UploadSession
        decreases lens.len(),
    {
        if lens.len() == 0 {
            self
        } else {
            self.after_chunks(lens.drop_last()).after_write(lens.last())
        }
    }

    /// The object is visible under its target path only once the session has
    /// completed.
    pub open spec fn exposes_target(&self) -> bool {
        self.state == UploadState::Completed
    }

    /// Whether the session has completed.
    pub fn is_complete(&self) -> (b: bool)
        ensures
            b == (self.state == UploadState::Completed),
    {
        match self.state {
            UploadState::Completed => true,
            _ => false,
        }
    }

    /// Whether the session still takes chunks.
    pub fn is_active(&self) -> (b: bool)
        ensures
            b == self.is_live(),
    {
        match self.state {
            UploadState::Initiated | UploadState::Writing => true,
            _ => false,
        }
    }

    /// The temporary name that holds the session's bytes until completion.
    pub fn staging_path(&self) -> (p: String)
        ensures
            p@ == staging_name(self.target_path@, self.id@),
            p@ != self.target_path@,
    {
        let mut p = self.target_path.clone();
        p.append(".upload-");
        p.append(self.id.as_str());
        proof {
            lemma_staging_name_is_not_target(self.target_path@, self.id@);
        }
        p
    }

    /// Decides, before anything is written, whether a chunk is taken:
    /// `InvalidState` on a session that is no longer live, `IoFailure` where
    /// the byte count would leave its range.
    pub fn admits(&self, u: &UploadConfig) -> (r: Result<(), StoreError>)
        ensures
            r is Ok <==> self.accepts(u.data@.len()),
            r is Err ==> r->Err_0 == (if self.is_live() {
                StoreError::IoFailure
            } else {
                StoreError::InvalidState
            }),
    {
        if !self.is_active() {
            return Err(StoreError::InvalidState);
        }
        if u.data.len() as u64 > u64::MAX - self.bytes_written {
            return Err(StoreError::IoFailure);
        }
        Ok(())
    }

    /// Takes one chunk.
    ///
    /// On a live session the chunk is appended after the bytes written so
    /// far; when the declared length is reached exactly the session completes
    /// and the backend must finalise. On a session that is no longer live the
    /// call fails with `InvalidState`, and with `IoFailure` where the byte
    /// count would leave its range; the session is then unchanged.
    pub fn write_chunk(&mut self, u: &UploadConfig) -> (r: Result<UploadResult, StoreError>)
        ensures
            *final(self) == old(self).after_write(u.data@.len()),
            final(self).bytes_written >= old(self).bytes_written,
            r is Ok <==> old(self).accepts(u.data@.len()),
            r is Err ==> r == Err::<UploadResult, StoreError>(
                if old(self).is_live() {
                    StoreError::IoFailure
                } else {
                    StoreError::InvalidState
                },
            ),
            r is Ok ==> {
                &&& r->Ok_0.id@ == old(self).id@
                &&& r->Ok_0.write_size == u.data@.len()
                &&& r->Ok_0.is_complete == (old(self).declared_length == Some(
                    (old(self).bytes_written + u.data@.len()) as u64,
                ))
                &&& r->Ok_0.is_complete == final(self).exposes_target()
            },
    {
        if !self.is_active() {
            return Err(StoreError::InvalidState);
        }
        let len = u.data.len();
        if len as u64 > u64::MAX - self.bytes_written {
            return Err(StoreError::IoFailure);
        }
        let total: u64 = self.bytes_written + len as u64;
        let done = match self.declared_length {
            Some(expected) => expected == total,
            None => false,
        };
        self.bytes_written = total;
        self.state = if done {
            UploadState::Completed
        } else {
            UploadState::Writing
        };
        Ok(UploadResult { id: self.id.clone(), write_size: len, is_complete: done })
    }

    /// Completes the upload whatever length was declared.
    ///
    /// Returns `Ok(true)` where the backend must now finalise (the session
    /// was live), `Ok(false)` where the session had completed before, and
    /// `InvalidState` after an abort.
    pub fn complete(&mut self) -> (r: Result<bool, StoreError>)
        ensures
            old(self).state == UploadState::Aborted ==> r == Err::<bool, StoreError>(
                StoreError::InvalidState,
            ) && *final(self) == *old(self),
            old(self).state != UploadState::Aborted ==> r == Ok::<bool, StoreError>(
                old(self).is_live(),
            ) && *final(self) == (UploadSession { state: UploadState::Completed, ..*old(self) }),
    {
        match self.state {
            UploadState::Aborted => Err(StoreError::InvalidState),
            UploadState::Completed => Ok(false),
            _ => {
                self.state = UploadState::Completed;
                Ok(true)
            },
        }
    }

    /// Abandons the upload.
    ///
    /// Returns `true` where the backend must now discard the staged bytes
    /// (the session was live); on a session that had ended the call changes
    /// nothing and returns `false`.
    pub fn abort(&mut self) -> (discard: bool)
        ensures
            discard == old(self).is_live(),
            old(self).is_live() ==> *final(self) == (UploadSession {
                state: UploadState::Aborted,
                ..*old(self)
            }),
            !old(self).is_live() ==> *final(self) == *old(self),
    {
        if self.is_active() {
            self.state = UploadState::Aborted;
            true
        } else {
            false
        }
    }
}

/// Whether a live session in `sessions` writes to `path`. Two paths with the
/// same normal form name the same target.
pub open spec fn has_live_upload(sessions: Seq<UploadSession>, path: Seq<char>) -> bool {
    exists|i: int|
        0 <= i < sessions.len() && (#[trigger] sessions[i]).is_live() && normalized(
            sessions[i].target_path@,
        ) == normalized(path)
}

/// At most one live session writes to any target, however its path is
/// spelled.
pub open spec fn single_writer(sessions: Seq<UploadSession>) -> bool {
    forall|i: int, j: int|
        0 <= i < j < sessions.len() && (#[trigger] sessions[i]).is_live() && (
        #[trigger] sessions[j]).is_live() ==> normalized(sessions[i].target_path@) != normalized(
            sessions[j].target_path@,
        )
}

/// Looks for a live session that writes to `path`.
pub fn find_live_upload(sessions: &Vec<UploadSession>, path: &String) -> (found: Option<usize>)
    ensures
        found is Some <==> has_live_upload(sessions@, path@),
        found is Some ==> {
            &&& found->Some_0 < sessions@.len()
            &&& sessions@[found->Some_0 as int].is_live()
            &&& normalized(sessions@[found->Some_0 as int].target_path@) == normalized(path@)
        },
{
    let key = normalize(path.as_str());
    let mut i: usize = 0;
    while i < sessions.len()
        invariant
            i <= sessions@.len(),
            key@ == normalized(path@),
            forall|k: int|
                0 <= k < i ==> !((#[trigger] sessions@[k]).is_live() && normalized(
                    sessions@[k].target_path@,
                ) == normalized(path@)),
        decreases sessions@.len() - i,
    {
        if sessions[i].is_active() {
            let target = normalize(sessions[i].target_path.as_str());
            if target == key {
                return Some(i);
            }
        }
        i += 1;
    }
    None
}

/// Looks for the session with the identifier `id`: the first one, where
/// several bear it.
pub fn find_upload(sessions: &Vec<UploadSession>, id: &String) -> (found: Option<usize>)
    ensures
        found is None <==> forall|k: int|
            0 <= k < sessions@.len() ==> (#[trigger] sessions@[k]).id@ != id@,
        found is Some ==> {
            &&& found->Some_0 < sessions@.len()
            &&& sessions@[found->Some_0 as int].id@ == id@
            &&& forall|k: int| 0 <= k < found->Some_0 ==> (#[trigger] sessions@[k]).id@ != id@
        },
{
    let mut i: usize = 0;
    while i < sessions.len()
        invariant
            i <= sessions@.len(),
            forall|k: int| 0 <= k < i ==> (#[trigger] sessions@[k]).id@ != id@,
        decreases sessions@.len() - i,
    {
        if sessions[i].id == *id {
            return Some(i);
        }
        i += 1;
    }
    None
}

/// Starts an upload to `path` under the backend-issued `id`.
///
/// Fails with `ConflictingUpload`, and changes nothing, exactly when a live
/// session already writes to `path`. Otherwise the new session is added at
/// the end of `sessions`, in state `Initiated` with no bytes written, and
/// its index is returned.
pub fn begin_upload(
    sessions: &mut Vec<UploadSession>,
    path: String,
    declared_length: Option<u64>,
    id: String,
) -> (r: Result<usize, StoreError>)
    ensures
        has_live_upload(old(sessions)@, path@) ==> r == Err::<usize, StoreError>(
            StoreError::ConflictingUpload,
        ) && final(sessions)@ == old(sessions)@,
        !has_live_upload(old(sessions)@, path@) ==> r == Ok::<usize, StoreError>(
            old(sessions)@.len() as usize,
        ) && final(sessions)@ == old(sessions)@.push(
            (UploadSession {
                id,
                target_path: path,
                bytes_written: 0,
                declared_length,
                state: UploadState::Initiated,
            }),
        ),
        r is Ok ==> has_live_upload(final(sessions)@, path@),
        single_writer(old(sessions)@) ==> single_writer(final(sessions)@),
{
    if find_live_upload(sessions, &path).is_some() {
        return Err(StoreError::ConflictingUpload);
    }
    let index = sessions.len();
    sessions.push(
        UploadSession {
            id,
            target_path: path,
            bytes_written: 0,
            declared_length,
            state: UploadState::Initiated,
        },
    );
    assert(sessions@[index as int].is_live());
    Ok(index)
}

/// A staged name never equals the name of the object it is staged for.
pub proof fn lemma_staging_name_is_not_target(target: Seq<char>, id: Seq<char>)
    ensures
        staging_name(target, id) != target,
        staging_name(target, id).len() > target.len(),
{
    reveal_strlit(".upload-");
    assert(staging_marker().len() == 8);
}

/// Until a session has completed it does not expose its target. A session
/// that was begun and has taken chunks short of its declared length, or any
/// chunks where no length was declared, is still live, and everything it has
/// written lies under its staged name, which is not the target's.
pub proof fn lemma_no_exposure_before_completion(s: UploadSession, lens: Seq<nat>)
    requires
        s.is_live(),
        s.declared_length is Some ==> s.bytes_written + total_len(lens)
            < s.declared_length->Some_0,
    ensures
        !s.after_chunks(lens).exposes_target(),
        s.after_chunks(lens).is_live(),
        s.after_chunks(lens).declared_length == s.declared_length,
        s.after_chunks(lens).bytes_written <= s.bytes_written + total_len(lens),
        staging_name(s.target_path@, s.id@) != s.target_path@,
    decreases lens.len(),
{
    lemma_staging_name_is_not_target(s.target_path@, s.id@);
    if lens.len() > 0 {
        lemma_no_exposure_before_completion(s, lens.drop_last());
    }
}

/// While a session has not completed, it has taken every chunk offered: its
/// byte count is the sum of their lengths, so each chunk lies directly after
/// the chunks before it. Once completed, the byte count is the declared
/// length.
pub proof fn lemma_progress(s: UploadSession, lens: Seq<nat>)
    requires
        s.is_live(),
        s.bytes_written + total_len(lens) <= u64::MAX,
    ensures
        ({
            let r = s.after_chunks(lens);
            &&& r.id == s.id
            &&& r.target_path == s.target_path
            &&& r.declared_length == s.declared_length
            &&& r.state != UploadState::Aborted
            &&& r.is_live() ==> r.bytes_written == s.bytes_written + total_len(lens)
            &&& r.state == UploadState::Completed ==> r.declared_length == Some(r.bytes_written)
        }),
    decreases lens.len(),
{
    if lens.len() > 0 {
        lemma_progress(s, lens.drop_last());
    }
}

/// A session with a declared length completes exactly at the first chunk
/// with which the bytes written reach that length: after the chunks `lens`
/// it has completed if and only if some non-empty prefix of them brings the
/// byte count to the declared length.
pub proof fn lemma_completes_at_declared_length(s: UploadSession, lens: Seq<nat>)
    requires
        s.is_live(),
        s.declared_length is Some,
        s.bytes_written + total_len(lens) <= u64::MAX,
    ensures
        s.after_chunks(lens).state == UploadState::Completed <==> exists|k: int|
            1 <= k <= lens.len() && s.bytes_written + #[trigger] total_len(lens.take(k))
                == s.declared_length->Some_0,
    decreases lens.len(),
{
    let goal = exists|k: int|
        1 <= k <= lens.len() && s.bytes_written + #[trigger] total_len(lens.take(k))
            == s.declared_length->Some_0;
    if lens.len() == 0 {
        assert(!goal);
    } else {
        let init = lens.drop_last();
        let n = lens.len() as int;
        lemma_progress(s, init);
        lemma_progress(s, lens);
        lemma_completes_at_declared_length(s, init);
        assert(lens.take(n) == lens);
        assert forall|k: int| 1 <= k <= init.len() implies init.take(k) == lens.take(k) by {}
        let prev = s.after_chunks(init);
        if prev.state == UploadState::Completed {
            let k = choose|k: int|
                1 <= k <= init.len() && s.bytes_written + #[trigger] total_len(init.take(k))
                    == s.declared_length->Some_0;
            assert(init.take(k) == lens.take(k));
            assert(goal);
        } else {
            if goal {
                let k = choose|k: int|
                    1 <= k <= lens.len() && s.bytes_written + #[trigger] total_len(lens.take(k))
                        == s.declared_length->Some_0;
                if k < n {
                    assert(init.take(k) == lens.take(k));
                    assert(false);
                }
            }
            if s.after_chunks(lens).state == UploadState::Completed {
                assert(s.bytes_written + total_len(lens.take(n)) == s.declared_length->Some_0);
            }
        }
    }
}

} // verus!
