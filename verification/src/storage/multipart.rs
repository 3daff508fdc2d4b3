//! The life of multipart uploads: which of them accept parts, and how parts are stored and taken
//! back.
use crate::config::AccessKeyId;
use crate::s3::types::{BucketName, ObjectKey, PartNumber, UploadId};
use crate::storage::error::{StoreError, StoreErrorView};
use crate::storage::files::{ActionView, FileAction, FileOutcome, OutcomeView};
use crate::storage::model::{
    find_part, insert_part, law_stored_parts_are_found, lemma_find_part, lemma_parts_before,
    opt_key_id, parts_ascend, parts_before, remove_part, CommittedPart, EntryView, PartMetadata,
    PartTable, PartView, SessionView, UploadMetadata, UploadMetadataView, UploadSession,
    UploadState,
};
use crate::storage::part_commit::{part_commit_start, PartCommit};
use crate::storage::part_files::{
    part_backup_file, part_backup_path, part_file, part_path, staged_part_file, staged_part_path,
};
use crate::storage::sessions::{find, held_sessions, hold, new_map, no_sessions, release};
use crate::text::result_view;
use crate::time::{nanos_between, Instant};
use dashmap::DashMap;
use vstd::prelude::*;

verus! {

// ---------------------------------------------------------------------------------------------
// Sessions
// ---------------------------------------------------------------------------------------------
/// The multipart uploads of an endpoint.
pub struct FileMultipartStore {
    sessions: DashMap<String, UploadSession>,
}

impl View for FileMultipartStore {
    type V = Map<Seq<char>, SessionView>;

    closed spec fn view(&self) -> Map<Seq<char>, SessionView> {
        held_sessions(self.sessions)
    }
}

/// A session that was just started.
pub open spec fn new_session(
    upload_id: Seq<char>,
    bucket: Seq<char>,
    key: Seq<char>,
    owner: Option<Seq<char>>,
    metadata: UploadMetadataView,
    now: (int, int),
) -> SessionView {
    SessionView {
        upload_id,
        bucket,
        key,
        initiated: now,
        state: UploadState::Open,
        owner,
        metadata,
        parts: Seq::empty(),
    }
}

/// Whether a store holds an open session under an ID.
pub open spec fn is_open_upload(sessions: Map<Seq<char>, SessionView>, id: Seq<char>) -> bool {
    sessions.dom().contains(id) && sessions[id].state == UploadState::Open
}

/// The open session under an ID.
pub open spec fn open_upload(sessions: Map<Seq<char>, SessionView>, id: Seq<char>) -> Result<
    SessionView,
    StoreErrorView,
> {
    if is_open_upload(sessions, id) {
        Ok(sessions[id])
    } else {
        Err(StoreErrorView::NoSuchUpload)
    }
}

/// A session in another state.
pub open spec fn in_state(session: SessionView, state: UploadState) -> SessionView {
    SessionView { state, ..session }
}

/// A session with other parts.
pub open spec fn with_parts(session: SessionView, parts: Seq<EntryView>) -> SessionView {
    SessionView { parts, ..session }
}

/// The metadata of a part that is stored now.
pub open spec fn committed_part(number: nat, part: CommittedPart, now: (int, int)) -> PartView {
    PartView {
        number,
        size: part.size as nat,
        etag: part.etag@,
        md5: part.md5@,
        checksums: part.checksums@,
        last_modified: now,
    }
}

/// Makes the metadata of a part that is stored now.
pub fn part_metadata(part_number: PartNumber, part: CommittedPart, now: Instant) -> (metadata:
    PartMetadata)
    ensures
        metadata@ == committed_part(part_number@, part, now@),
{
    PartMetadata {
        part_number,
        size: part.size,
        etag: part.etag,
        md5: part.md5,
        checksums: part.checksums,
        last_modified: now,
    }
}

/// The parts before a part was stored: with the one that it replaced, or without it.
pub open spec fn restored_parts(
    parts: Seq<EntryView>,
    number: nat,
    previous: Option<PartView>,
) -> Seq<EntryView> {
    match previous {
        Some(part) => insert_part(parts, number, part),
        None => remove_part(parts, number),
    }
}

/// The view of an optional part.
pub open spec fn opt_part(part: Option<PartMetadata>) -> Option<PartView> {
    match part {
        Some(p) => Some(p@),
        None => None,
    }
}

/// Whether a session that is found when the endpoint starts is kept: it is open, and it is not so
/// old that it has to be aborted.
pub open spec fn is_kept_at_startup(
    session: SessionView,
    now: (int, int),
    abort_after: Option<nat>,
) -> bool {
    session.state == UploadState::Open && (abort_after is Some ==> nanos_between(
        now,
        session.initiated,
    ) < abort_after->0 * 1_000_000_000)
}

/// Tests whether a session that is found when the endpoint starts is kept.
pub fn keep_at_startup(session: &UploadSession, now: Instant, abort_after_seconds: Option<u64>) -> (
result: bool)
    ensures
        result == is_kept_at_startup(
            session@,
            now@,
            match abort_after_seconds {
                Some(seconds) => Some(seconds as nat),
                None => None,
            },
        ),
{
    if !session.is_open() {
        return false;
    }
    match abort_after_seconds {
        None => true,
        Some(seconds) => now.nanos_since(session.initiated) < seconds as i128 * 1_000_000_000,
    }
}

impl FileMultipartStore {
    /// A store without uploads.
    pub fn new() -> (store: Self)
        ensures
            store@ == no_sessions(),
    {
        FileMultipartStore { sessions: new_map() }
    }

    /// Starts an upload under a new random ID. It is held once it is registered.
    pub fn create_upload(
        bucket: BucketName,
        key: ObjectKey,
        owner_access_key_id: Option<AccessKeyId>,
        metadata: UploadMetadata,
        now: Instant,
    ) -> (session: UploadSession)
        ensures
            session@ == new_session(
                session@.upload_id,
                bucket@,
                key@,
                opt_key_id(owner_access_key_id),
                metadata@,
                now@,
            ),
            crate::encoding::is_canonical_uuid(session@.upload_id),
    {
        UploadSession {
            upload_id: UploadId::new(),
            bucket,
            key,
            initiated: now,
            state: UploadState::Open,
            owner_access_key_id,
            metadata,
            parts: PartTable::new(),
        }
    }

    /// Holds a session under its ID.
    pub fn register(&mut self, session: UploadSession)
        ensures
            final(self)@ == old(self)@.insert(session@.upload_id, session@),
    {
        let id = session.upload_id.clone();
        hold(&mut self.sessions, id.as_str(), session);
    }

    /// Forgets a session.
    pub fn forget(&mut self, upload_id: &UploadId)
        ensures
            final(self)@ == old(self)@.remove(upload_id@),
    {
        release(&mut self.sessions, upload_id.as_str());
    }

    /// Returns a snapshot of an upload session.
    pub fn get_upload(&self, upload_id: &UploadId) -> (result: Option<UploadSession>)
        ensures
            match result {
                Some(session) => self@.dom().contains(upload_id@) && session@ == self@[upload_id@],
                None => !self@.dom().contains(upload_id@),
            },
    {
        find(&self.sessions, upload_id.as_str())
    }

    /// Returns a snapshot of an upload session that is open.
    pub fn get_open_upload(&self, upload_id: &UploadId) -> (result: Result<
        UploadSession,
        StoreError,
    >)
        ensures
            result_view(result) == open_upload(self@, upload_id@),
    {
        match find(&self.sessions, upload_id.as_str()) {
            None => Err(StoreError::NoSuchUpload),
            Some(session) => {
                if session.is_open() {
                    Ok(session)
                } else {
                    Err(StoreError::NoSuchUpload)
                }
            },
        }
    }

    /// Starts to upload a part of an open upload: names the file in which it is staged under an ID.
    pub fn create_temp_part(
        &self,
        upload_id: &UploadId,
        part_number: PartNumber,
        temp_id: &str,
    ) -> (result: Result<String, StoreError>)
        ensures
            result_view(result) == match open_upload(self@, upload_id@) {
                Ok(_) => Ok(staged_part_file(upload_id@, part_number@, temp_id@)),
                Err(error) => Err(error),
            },
    {
        match self.get_open_upload(upload_id) {
            Ok(_) => Ok(staged_part_path(upload_id, part_number, temp_id)),
            Err(error) => Err(error),
        }
    }

    /// Starts to publish a staged part of an open upload, and returns the part that it replaces. The
    /// file of such a part is kept under an ID until the session is written.
    pub fn commit_part(
        &self,
        upload_id: &UploadId,
        part_number: PartNumber,
        staged: String,
        backup_id: &str,
    ) -> (result: Result<(PartCommit, Option<PartMetadata>), StoreError>)
        ensures
            match result {
                Ok((commit, previous)) => {
                    &&& is_open_upload(self@, upload_id@)
                    &&& opt_part(previous) == find_part(self@[upload_id@].parts, part_number@)
                    &&& commit@ == part_commit_start(
                        staged@,
                        part_file(upload_id@, part_number@),
                        if previous is Some {
                            Some(part_backup_file(upload_id@, part_number@, backup_id@))
                        } else {
                            None
                        },
                    )
                },
                Err(error) => {
                    &&& !is_open_upload(self@, upload_id@)
                    &&& error@ == StoreErrorView::NoSuchUpload
                },
            },
    {
        let session = match self.get_open_upload(upload_id) {
            Ok(session) => session,
            Err(error) => {
                return Err(error);
            },
        };
        let part = part_path(upload_id, part_number);
        match session.parts.get(part_number) {
            Some(previous) => {
                let backup = part_backup_path(upload_id, part_number, backup_id);
                Ok((PartCommit::new(staged, part, Some(backup)), Some(previous.clone())))
            },
            None => Ok((PartCommit::new(staged, part, None), None)),
        }
    }

    /// Starts to write a complete part of an open upload from memory: the change that is to be made
    /// before the part is stored.
    pub fn write_part(&self, upload_id: &UploadId, part_number: PartNumber, bytes: Vec<u8>) -> (
    result: Result<FileAction, StoreError>)
        ensures
            result_view(result) == match open_upload(self@, upload_id@) {
                Ok(_) => Ok(
                    ActionView::Write {
                        path: part_file(upload_id@, part_number@),
                        contents: bytes@,
                    },
                ),
                Err(error) => Err(error),
            },
    {
        match self.get_open_upload(upload_id) {
            Ok(_) => Ok(
                FileAction::Write { path: part_path(upload_id, part_number), contents: bytes },
            ),
            Err(error) => Err(error),
        }
    }

    /// Stores a part of an open upload under its number, in place of one that is stored under it,
    /// and returns the session as it is then.
    pub fn store_part(&mut self, upload_id: &UploadId, part: PartMetadata) -> (result: Result<
        UploadSession,
        StoreError,
    >)
        ensures
            match result {
                Ok(session) => {
                    &&& is_open_upload(old(self)@, upload_id@)
                    &&& session@ == with_parts(
                        old(self)@[upload_id@],
                        insert_part(old(self)@[upload_id@].parts, part@.number, part@),
                    )
                    &&& final(self)@ == old(self)@.insert(upload_id@, session@)
                },
                Err(error) => {
                    &&& !is_open_upload(old(self)@, upload_id@)
                    &&& error@ == StoreErrorView::NoSuchUpload
                    &&& final(self)@ == old(self)@
                },
            },
    {
        let mut session = match self.get_open_upload(upload_id) {
            Ok(session) => session,
            Err(error) => {
                return Err(error);
            },
        };
        session.parts.insert(part.part_number, part);
        hold(&mut self.sessions, upload_id.as_str(), session.clone());
        Ok(session)
    }

    /// Takes back a part that was stored: the part that it replaced is there again, or none.
    pub fn restore_part(
        &mut self,
        upload_id: &UploadId,
        part_number: PartNumber,
        previous: Option<PartMetadata>,
    )
        ensures
            final(self)@ == if old(self)@.dom().contains(upload_id@) {
                old(self)@.insert(
                    upload_id@,
                    with_parts(
                        old(self)@[upload_id@],
                        restored_parts(
                            old(self)@[upload_id@].parts,
                            part_number@,
                            opt_part(previous),
                        ),
                    ),
                )
            } else {
                old(self)@
            },
    {
        match find(&self.sessions, upload_id.as_str()) {
            None => {},
            Some(session) => {
                let mut session = session;
                match previous {
                    Some(part) => session.parts.insert(part_number, part),
                    None => session.parts.remove(part_number),
                }
                hold(&mut self.sessions, upload_id.as_str(), session);
            },
        }
    }

    /// Puts a session into another state and returns it as it is then.
    pub fn mark_upload_state(&mut self, upload_id: &UploadId, state: UploadState) -> (result: Option<
        UploadSession,
    >)
        ensures
            match result {
                Some(session) => {
                    &&& old(self)@.dom().contains(upload_id@)
                    &&& session@ == in_state(old(self)@[upload_id@], state)
                    &&& final(self)@ == old(self)@.insert(upload_id@, session@)
                },
                None => !old(self)@.dom().contains(upload_id@) && final(self)@ == old(self)@,
            },
    {
        match find(&self.sessions, upload_id.as_str()) {
            None => None,
            Some(session) => {
                let mut session = session;
                session.state = state;
                hold(&mut self.sessions, upload_id.as_str(), session.clone());
                Some(session)
            },
        }
    }

    /// Starts to complete an open upload: from then on it accepts neither parts nor other control
    /// operations.
    pub fn begin_completion(&mut self, upload_id: &UploadId) -> (result: Result<
        UploadSession,
        StoreError,
    >)
        ensures
            match result {
                Ok(session) => {
                    &&& is_open_upload(old(self)@, upload_id@)
                    &&& session@ == in_state(old(self)@[upload_id@], UploadState::Completing)
                    &&& final(self)@ == old(self)@.insert(upload_id@, session@)
                },
                Err(error) => {
                    &&& !is_open_upload(old(self)@, upload_id@)
                    &&& error@ == StoreErrorView::NoSuchUpload
                    &&& final(self)@ == old(self)@
                },
            },
    {
        let mut session = match self.get_open_upload(upload_id) {
            Ok(session) => session,
            Err(error) => {
                return Err(error);
            },
        };
        session.state = UploadState::Completing;
        hold(&mut self.sessions, upload_id.as_str(), session.clone());
        Ok(session)
    }

    /// Starts to abort an open upload: returns the session as it is to be written and registered
    /// before its files are removed.
    pub fn abort_upload(&self, upload_id: &UploadId) -> (result: Result<UploadSession, StoreError>)
        ensures
            result_view(result) == match open_upload(self@, upload_id@) {
                Ok(session) => Ok(in_state(session, UploadState::Aborted)),
                Err(error) => Err(error),
            },
    {
        let mut session = match self.get_open_upload(upload_id) {
            Ok(session) => session,
            Err(error) => {
                return Err(error);
            },
        };
        session.state = UploadState::Aborted;
        Ok(session)
    }

    /// Ends an abort once the removal of the upload's files was tried: the upload is forgotten where
    /// they are gone, and stays aborted where they are not.
    pub fn finish_abort(&mut self, upload_id: &UploadId, outcome: FileOutcome) -> (result: Result<
        (),
        StoreError,
    >)
        ensures
            match outcome@ {
                OutcomeView::Failed(text) => {
                    &&& result is Err
                    &&& result->Err_0@ == StoreErrorView::Io(text)
                    &&& final(self)@ == old(self)@
                },
                _ => result is Ok && final(self)@ == old(self)@.remove(upload_id@),
            },
    {
        match outcome {
            FileOutcome::Failed(text) => Err(StoreError::Io(text)),
            _ => {
                self.forget(upload_id);
                Ok(())
            },
        }
    }

    /// Opens an upload again whose completion failed.
    pub fn restore_open_upload(&mut self, upload_id: &UploadId) -> (result: Option<UploadSession>)
        ensures
            match result {
                Some(session) => {
                    &&& old(self)@.dom().contains(upload_id@)
                    &&& session@ == in_state(old(self)@[upload_id@], UploadState::Open)
                    &&& final(self)@ == old(self)@.insert(upload_id@, session@)
                },
                None => !old(self)@.dom().contains(upload_id@) && final(self)@ == old(self)@,
            },
    {
        self.mark_upload_state(upload_id, UploadState::Open)
    }
}

/// A completion that fails leaves no trace in the upload: opened again, it is what it was.
pub proof fn law_failed_completion_restores_the_upload(session: SessionView)
    requires
        session.state == UploadState::Open,
    ensures
        in_state(in_state(session, UploadState::Completing), UploadState::Open) == session,
{
}

/// While an upload is being completed, and after it was completed or aborted, it is not open: it
/// accepts no part and no second completion.
pub proof fn law_only_open_uploads_accept_parts(
    sessions: Map<Seq<char>, SessionView>,
    id: Seq<char>,
    state: UploadState,
)
    requires
        sessions.dom().contains(id),
        state != UploadState::Open,
    ensures
        open_upload(sessions.insert(id, in_state(sessions[id], state)), id) == Err::<
            SessionView,
            _,
        >(StoreErrorView::NoSuchUpload),
{
}

/// Taking a stored part back restores the parts: the part that was replaced is there again, or no
/// part is stored under the number, as before.
pub proof fn law_stored_parts_can_be_taken_back(
    parts: Seq<EntryView>,
    number: nat,
    part: PartView,
)
    requires
        parts_ascend(parts),
    ensures
        restored_parts(
            insert_part(parts, number, part),
            number,
            find_part(parts, number),
        ) == parts,
{
    let i = parts_before(parts, number);
    lemma_parts_before(parts, number);
    lemma_find_part(parts, number);
    law_stored_parts_are_found(parts, number, part, number);
    let new = insert_part(parts, number, part);
    let j = parts_before(new, number);
    lemma_parts_before(new, number);
    if i < parts.len() && parts[i].key == number {
        assert(new[i] == (EntryView { key: number, part }));
        assert(j == i) by {
            if j < i {
                assert(new[j] == parts[j]);
            }
            if j > i {
                assert(new[i].key < number);
            }
        }
        assert(find_part(parts, number) == Some(parts[i].part));
        assert(new.update(i, parts[i]) =~= parts);
    } else {
        assert(new[i] == (EntryView { key: number, part }));
        assert(j == i) by {
            if j < i {
                assert(new[j] == parts[j]);
            }
            if j > i {
                assert(new[i].key < number);
            }
        }
        assert forall|k: int| 0 <= k < parts.len() implies (#[trigger] parts[k]).key
            != number by {
            if k > i {
                assert(parts[i].key < parts[k].key);
            }
        }
        assert(find_part(parts, number) is None);
        assert(new.remove(i) =~= parts);
    }
}

} // verus!
