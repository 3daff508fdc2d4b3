//! The plain form in which an upload session is stored, and how it is read back.
use crate::collections::TextMap;
use crate::config::{access_key_id_error, config_error_message, AccessKeyId};
use crate::encoding::is_canonical_uuid;
use crate::s3::types::{
    domain_error_message, is_part_number, parse_bucket_name, parse_object_key, BucketName,
    DomainError, ETag, ObjectKey, PartNumber, UploadId,
};
use crate::storage::error::{StoreError, StoreErrorView};
use crate::storage::model::{
    insert_part, lemma_parts_before, parts_ascend, EntryView, PartMetadata, PartTable, PartView,
    SessionView, UploadMetadata, UploadMetadataView, UploadSession, UploadState,
};
use crate::text::{has_control, opt_text, same};
use crate::time::Instant;
use vstd::prelude::*;

verus! {

// ---------------------------------------------------------------------------------------------
// Lifecycle states
// ---------------------------------------------------------------------------------------------
/// The name under which a state is stored.
pub open spec fn state_name(state: UploadState) -> Seq<char> {
    match state {
        UploadState::Open => "Open"@,
        UploadState::Completing => "Completing"@,
        UploadState::Completed => "Completed"@,
        UploadState::Aborted => "Aborted"@,
    }
}

/// The state with a name.
pub open spec fn state_named(name: Seq<char>) -> Option<UploadState> {
    if name == "Open"@ {
        Some(UploadState::Open)
    } else if name == "Completing"@ {
        Some(UploadState::Completing)
    } else if name == "Completed"@ {
        Some(UploadState::Completed)
    } else if name == "Aborted"@ {
        Some(UploadState::Aborted)
    } else {
        None
    }
}

/// The state that is meant by what is stored: a session that was stored without a state is open.
pub open spec fn stored_state(name: Option<Seq<char>>) -> Option<UploadState> {
    match name {
        Some(name) => state_named(name),
        None => Some(UploadState::Open),
    }
}

/// Each state is the one with its own name.
pub proof fn law_state_names_are_read_back(state: UploadState)
    ensures
        stored_state(Some(state_name(state))) == Some(state),
{
    reveal_strlit("Open");
    reveal_strlit("Completing");
    reveal_strlit("Completed");
    reveal_strlit("Aborted");
    assert("Open"@.len() != "Completing"@.len());
    assert("Completing"@.len() != "Completed"@.len());
    assert("Completed"@.len() != "Aborted"@.len());
    assert("Aborted"@.len() != "Open"@.len());
    assert("Aborted"@.len() != "Completing"@.len());
    assert("Open"@.len() != "Completed"@.len());
}

fn name_of_state(state: UploadState) -> (name: &'static str)
    ensures
        name@ == state_name(state),
{
    match state {
        UploadState::Open => "Open",
        UploadState::Completing => "Completing",
        UploadState::Completed => "Completed",
        UploadState::Aborted => "Aborted",
    }
}

fn read_state(name: &Option<String>) -> (state: Option<UploadState>)
    ensures
        state == stored_state(opt_text(*name)),
{
    let name = match name {
        Some(name) => name.as_str(),
        None => {
            return Some(UploadState::default());
        },
    };
    if same(name, "Open") {
        Some(UploadState::Open)
    } else if same(name, "Completing") {
        Some(UploadState::Completing)
    } else if same(name, "Completed") {
        Some(UploadState::Completed)
    } else if same(name, "Aborted") {
        Some(UploadState::Aborted)
    } else {
        None
    }
}

// ---------------------------------------------------------------------------------------------
// Parts
// ---------------------------------------------------------------------------------------------
/// A part as it is stored.
#[derive(Debug)]
pub struct StoredPart {
    /// The number under which the part is stored.
    pub key: u16,
    /// The number that the part itself holds.
    pub part_number: u16,
    /// Part size in bytes.
    pub size: u64,
    /// Part ETag.
    pub etag: String,
    /// Raw MD5 digest bytes.
    pub md5: Vec<u8>,
    /// Checksum headers.
    pub checksums: TextMap,
    /// Part commit timestamp.
    pub last_modified: Instant,
}

/// A [`StoredPart`] as a mathematical value.
#[verifier::ext_equal]
pub struct StoredPartView {
    pub key: nat,
    pub number: nat,
    pub size: nat,
    pub etag: Seq<char>,
    pub md5: Seq<u8>,
    pub checksums: Seq<(Seq<char>, Seq<char>)>,
    pub last_modified: (int, int),
}

impl View for StoredPart {
    type V = StoredPartView;

    open spec fn view(&self) -> StoredPartView {
        StoredPartView {
            key: self.key as nat,
            number: self.part_number as nat,
            size: self.size as nat,
            etag: self.etag@,
            md5: self.md5@,
            checksums: self.checksums@,
            last_modified: self.last_modified@,
        }
    }
}

/// The views of stored parts.
pub open spec fn stored_part_views(parts: Seq<StoredPart>) -> Seq<StoredPartView> {
    parts.map_values(|part: StoredPart| part@)
}

/// How a part is stored.
pub open spec fn stored_part(entry: EntryView) -> StoredPartView {
    StoredPartView {
        key: entry.key,
        number: entry.part.number,
        size: entry.part.size,
        etag: entry.part.etag,
        md5: entry.part.md5,
        checksums: entry.part.checksums,
        last_modified: entry.part.last_modified,
    }
}

/// Whether a stored entity tag is one.
pub open spec fn is_stored_etag(etag: Seq<char>) -> bool {
    etag.len() > 0 && !has_control(etag)
}

/// Whether a part is one that is read back: its numbers are part numbers, and its tag is a tag.
pub open spec fn is_stored_part(entry: EntryView) -> bool {
    &&& is_part_number(entry.key as int)
    &&& is_part_number(entry.part.number as int)
    &&& is_stored_etag(entry.part.etag)
}

/// The part that is read from a stored one, or what is wrong with it. It keeps its own number beside
/// the one under which it is stored.
pub open spec fn restored_part(part: StoredPartView) -> Result<EntryView, Seq<char>> {
    if !is_part_number(part.key as int) || !is_part_number(part.number as int) {
        Err(domain_error_message(DomainError::InvalidPartNumber))
    } else if !is_stored_etag(part.etag) {
        Err(domain_error_message(DomainError::InvalidETag))
    } else {
        Ok(
            EntryView {
                key: part.key,
                part: PartView {
                    number: part.number,
                    size: part.size,
                    etag: part.etag,
                    md5: part.md5,
                    checksums: part.checksums,
                    last_modified: part.last_modified,
                },
            },
        )
    }
}

/// The parts that are read from stored ones, or what is wrong with the first that is refused.
pub open spec fn restored_parts(parts: Seq<StoredPartView>) -> Result<Seq<EntryView>, Seq<char>>
    decreases parts.len(),
{
    if parts.len() == 0 {
        Ok(Seq::empty())
    } else {
        match restored_parts(parts.drop_last()) {
            Err(text) => Err(text),
            Ok(before) => match restored_part(parts.last()) {
                Err(text) => Err(text),
                Ok(entry) => Ok(insert_part(before, entry.key, entry.part)),
            },
        }
    }
}

fn domain_text(error: DomainError) -> (text: String)
    ensures
        text@ == domain_error_message(error),
{
    error.message().to_owned()
}

fn restore_part(part: StoredPart) -> (result: Result<(PartNumber, PartMetadata), String>)
    ensures
        match result {
            Ok((key, restored)) => restored_part(part@) == Ok::<EntryView, Seq<char>>(
                EntryView { key: key@, part: restored@ },
            ),
            Err(text) => restored_part(part@) == Err::<EntryView, Seq<char>>(text@),
        },
{
    let key = match PartNumber::parse(part.key) {
        Ok(key) => key,
        Err(error) => return Err(domain_text(error)),
    };
    let part_number = match PartNumber::parse(part.part_number) {
        Ok(part_number) => part_number,
        Err(error) => return Err(domain_text(error)),
    };
    let etag = match ETag::parse(part.etag.as_str()) {
        Ok(etag) => etag,
        Err(error) => return Err(domain_text(error)),
    };
    let restored = PartMetadata {
        part_number,
        size: part.size,
        etag,
        md5: part.md5,
        checksums: part.checksums,
        last_modified: part.last_modified,
    };
    Ok((key, restored))
}

proof fn lemma_first_refused(parts: Seq<StoredPartView>, count: int)
    requires
        0 <= count <= parts.len(),
        restored_parts(parts.take(count)) is Err,
    ensures
        restored_parts(parts) == restored_parts(parts.take(count)),
    decreases parts.len() - count,
{
    if count < parts.len() {
        assert(parts.take(count + 1).drop_last() =~= parts.take(count));
        lemma_first_refused(parts, count + 1);
    } else {
        assert(parts.take(count) =~= parts);
    }
}

fn restore_parts(parts: Vec<StoredPart>) -> (result: Result<PartTable, String>)
    ensures
        match result {
            Ok(table) => restored_parts(stored_part_views(parts@)) == Ok::<
                Seq<EntryView>,
                Seq<char>,
            >(table@),
            Err(text) => restored_parts(stored_part_views(parts@)) == Err::<
                Seq<EntryView>,
                Seq<char>,
            >(text@),
        },
{
    let ghost views = stored_part_views(parts@);
    let mut rest = parts;
    let mut table = PartTable::new();
    let mut read: usize = 0;
    let total: usize = rest.len();
    proof {
        assert(views.take(0) =~= Seq::empty());
        assert(views.skip(0) =~= views);
    }
    while read < total
        invariant
            read <= total,
            views == stored_part_views(parts@),
            total == views.len(),
            stored_part_views(rest@) == views.skip(read as int),
            restored_parts(views.take(read as int)) == Ok::<Seq<EntryView>, Seq<char>>(table@),
        decreases total - read,
    {
        assert(stored_part_views(rest@).len() == rest@.len());
        assert(stored_part_views(rest@)[0] == rest@[0]@);
        let ghost before = rest@;
        let part = rest.remove(0);
        proof {
            let next = views.take(read + 1);
            assert(next.drop_last() =~= views.take(read as int));
            assert(next.last() == part@);
            assert(stored_part_views(rest@) =~= views.skip(read + 1)) by {
                assert forall|i: int| 0 <= i < rest@.len() implies rest@[i]@ == views.skip(
                    read + 1,
                )[i] by {
                    assert(stored_part_views(before)[i + 1] == before[i + 1]@);
                    assert(views.skip(read as int)[i + 1] == views.skip(read + 1)[i]);
                }
            }
        }
        match restore_part(part) {
            Ok((key, part)) => table.insert(key, part),
            Err(text) => {
                proof {
                    lemma_first_refused(views, read + 1);
                }
                return Err(text);
            },
        }
        read += 1;
    }
    assert(views.take(total as int) =~= views);
    Ok(table)
}

fn store_parts(parts: &PartTable) -> (stored: Vec<StoredPart>)
    ensures
        stored_part_views(stored@) == parts@.map_values(|entry: EntryView| stored_part(entry)),
{
    let mut stored: Vec<StoredPart> = Vec::new();
    let mut i: usize = 0;
    while i < parts.len()
        invariant
            i <= parts@.len(),
            stored@.len() == i,
            forall|j: int| 0 <= j < i ==> (#[trigger] stored@[j])@ == stored_part(parts@[j]),
        decreases parts@.len() - i,
    {
        let part = parts.part_at(i);
        stored.push(
            StoredPart {
                key: parts.key_at(i).get(),
                part_number: part.part_number.get(),
                size: part.size,
                etag: part.etag.as_str().to_owned(),
                md5: vstd::slice::slice_to_vec(part.md5.as_slice()),
                checksums: part.checksums.clone(),
                last_modified: part.last_modified,
            },
        );
        i += 1;
    }
    assert(stored_part_views(stored@) =~= parts@.map_values(|entry: EntryView| stored_part(entry)));
    stored
}

// ---------------------------------------------------------------------------------------------
// Sessions
// ---------------------------------------------------------------------------------------------
/// An upload session as it is stored.
#[derive(Debug)]
pub struct StoredSession {
    /// Upload ID.
    pub upload_id: String,
    /// Target bucket.
    pub bucket: String,
    /// Target object key.
    pub key: String,
    /// Upload initiation timestamp.
    pub initiated: Instant,
    /// The name of the lifecycle state, if one was stored.
    pub state: Option<String>,
    /// Access key that initiated a signed upload, if any.
    pub owner_access_key_id: Option<String>,
    /// Metadata captured at create-multipart-upload time.
    pub metadata: UploadMetadata,
    /// Uploaded parts.
    pub parts: Vec<StoredPart>,
}

/// A [`StoredSession`] as a mathematical value.
#[verifier::ext_equal]
pub struct StoredSessionView {
    pub upload_id: Seq<char>,
    pub bucket: Seq<char>,
    pub key: Seq<char>,
    pub initiated: (int, int),
    pub state: Option<Seq<char>>,
    pub owner: Option<Seq<char>>,
    pub metadata: UploadMetadataView,
    pub parts: Seq<StoredPartView>,
}

impl View for StoredSession {
    type V = StoredSessionView;

    open spec fn view(&self) -> StoredSessionView {
        StoredSessionView {
            upload_id: self.upload_id@,
            bucket: self.bucket@,
            key: self.key@,
            initiated: self.initiated@,
            state: opt_text(self.state),
            owner: opt_text(self.owner_access_key_id),
            metadata: self.metadata@,
            parts: stored_part_views(self.parts@),
        }
    }
}

/// How a session is stored.
pub open spec fn stored_session(session: SessionView) -> StoredSessionView {
    StoredSessionView {
        upload_id: session.upload_id,
        bucket: session.bucket,
        key: session.key,
        initiated: session.initiated,
        state: Some(state_name(session.state)),
        owner: session.owner,
        metadata: session.metadata,
        parts: session.parts.map_values(|entry: EntryView| stored_part(entry)),
    }
}

/// What is wrong with what is stored of a session beside its parts.
pub open spec fn stored_session_error(stored: StoredSessionView) -> Option<Seq<char>> {
    if !is_canonical_uuid(stored.upload_id) {
        Some(domain_error_message(DomainError::InvalidUploadId))
    } else if parse_bucket_name(stored.bucket) is Err {
        Some(domain_error_message(parse_bucket_name(stored.bucket)->Err_0))
    } else if parse_object_key(stored.key) is Err {
        Some(domain_error_message(parse_object_key(stored.key)->Err_0))
    } else if stored_state(stored.state) is None {
        Some("unknown upload state"@)
    } else if stored.owner is Some && access_key_id_error(stored.owner->0) is Some {
        Some(config_error_message(access_key_id_error(stored.owner->0)->0))
    } else {
        None
    }
}

/// The session that is read from a stored one, or what is wrong with what is stored.
pub open spec fn restored_session(stored: StoredSessionView) -> Result<SessionView, Seq<char>> {
    match stored_session_error(stored) {
        Some(text) => Err(text),
        None => match restored_parts(stored.parts) {
            Err(text) => Err(text),
            Ok(parts) => Ok(
                SessionView {
                    upload_id: stored.upload_id,
                    bucket: stored.bucket,
                    key: stored.key,
                    initiated: stored.initiated,
                    state: stored_state(stored.state)->0,
                    owner: stored.owner,
                    metadata: stored.metadata,
                    parts,
                },
            ),
        },
    }
}

fn read_owner(owner: &Option<String>) -> (result: Result<Option<AccessKeyId>, String>)
    ensures
        match result {
            Ok(None) => owner is None,
            Ok(Some(id)) => opt_text(*owner) == Some(id@) && access_key_id_error(id@) is None,
            Err(text) => owner is Some && access_key_id_error((owner->0)@) is Some && text@
                == config_error_message(access_key_id_error((owner->0)@)->0),
        },
{
    match owner {
        Some(owner) => match AccessKeyId::parse(owner.as_str()) {
            Ok(id) => Ok(Some(id)),
            Err(error) => Err(error.message()),
        },
        None => Ok(None),
    }
}

impl StoredSession {
    /// How a session is stored.
    pub fn of(session: &UploadSession) -> (stored: Self)
        ensures
            stored@ == stored_session(session@),
    {
        StoredSession {
            upload_id: session.upload_id.as_str().to_owned(),
            bucket: session.bucket.as_str().to_owned(),
            key: session.key.as_str().to_owned(),
            initiated: session.initiated,
            state: Some(name_of_state(session.state).to_owned()),
            owner_access_key_id: match &session.owner_access_key_id {
                Some(id) => Some(id.as_str().to_owned()),
                None => None,
            },
            metadata: session.metadata.clone(),
            parts: store_parts(&session.parts),
        }
    }

    /// Reads the session back. A session that was stored without a state is open.
    ///
    /// Returns an error when an identifier, the state, a part number or an ETag is not one.
    pub fn restore(self) -> (result: Result<UploadSession, StoreError>)
        ensures
            match result {
                Ok(session) => restored_session(self@) == Ok::<SessionView, Seq<char>>(session@),
                Err(error) => match restored_session(self@) {
                    Ok(_) => false,
                    Err(text) => error@ == StoreErrorView::Json(text),
                },
            },
    {
        let upload_id = match UploadId::parse(self.upload_id.as_str()) {
            Ok(id) => id,
            Err(error) => return Err(StoreError::Json(domain_text(error))),
        };
        let bucket = match BucketName::parse(self.bucket.as_str()) {
            Ok(bucket) => bucket,
            Err(error) => return Err(StoreError::Json(domain_text(error))),
        };
        let key = match ObjectKey::parse(self.key.as_str()) {
            Ok(key) => key,
            Err(error) => return Err(StoreError::Json(domain_text(error))),
        };
        let state = match read_state(&self.state) {
            Some(state) => state,
            None => return Err(StoreError::Json("unknown upload state".to_owned())),
        };
        let owner_access_key_id = match read_owner(&self.owner_access_key_id) {
            Ok(owner) => owner,
            Err(text) => return Err(StoreError::Json(text)),
        };
        match restore_parts(self.parts) {
            Ok(parts) => Ok(
                UploadSession {
                    upload_id,
                    bucket,
                    key,
                    initiated: self.initiated,
                    state,
                    owner_access_key_id,
                    metadata: self.metadata,
                    parts,
                },
            ),
            Err(text) => Err(StoreError::Json(text)),
        }
    }
}

proof fn lemma_parts_are_restored(parts: Seq<EntryView>)
    requires
        parts_ascend(parts),
        forall|i: int|
            0 <= i < parts.len() ==> is_stored_part(#[trigger] parts[i]),
    ensures
        restored_parts(parts.map_values(|entry: EntryView| stored_part(entry))) == Ok::<
            Seq<EntryView>,
            Seq<char>,
        >(parts),
    decreases parts.len(),
{
    let stored = parts.map_values(|entry: EntryView| stored_part(entry));
    if parts.len() > 0 {
        let before = parts.drop_last();
        assert forall|i: int| 0 <= i < before.len() implies is_stored_part(
            #[trigger] before[i],
        ) by {
            assert(before[i] == parts[i]);
        }
        assert(parts_ascend(before));
        lemma_parts_are_restored(before);
        assert(stored.drop_last() =~= before.map_values(|entry: EntryView| stored_part(entry)));
        let last = parts.last();
        assert(last == parts[parts.len() - 1]);
        assert(stored.last() == stored_part(last));
        assert(restored_part(stored.last())->Ok_0 =~= last);
        lemma_parts_before(before, last.key);
        if before.len() > 0 {
            assert(before[before.len() - 1] == parts[parts.len() - 2]);
        }
        assert(insert_part(before, last.key, last.part) =~= parts);
    } else {
        assert(stored =~= Seq::empty());
        assert(parts =~= Seq::empty());
    }
}

/// What is stored of a session is read back as it was, where its identifiers, its part numbers
/// and the tags of its parts are such.
pub proof fn law_stored_sessions_are_restored(session: SessionView)
    requires
        is_canonical_uuid(session.upload_id),
        parse_bucket_name(session.bucket) == Ok::<Seq<char>, DomainError>(session.bucket),
        parse_object_key(session.key) == Ok::<Seq<char>, DomainError>(session.key),
        session.owner is Some ==> access_key_id_error(session.owner->0) is None,
        parts_ascend(session.parts),
        forall|i: int|
            0 <= i < session.parts.len() ==> is_stored_part(#[trigger] session.parts[i]),
    ensures
        restored_session(stored_session(session)) == Ok::<SessionView, Seq<char>>(session),
{
    law_state_names_are_read_back(session.state);
    lemma_parts_are_restored(session.parts);
}

/// A session that was stored without a state is open.
pub proof fn law_sessions_without_a_state_are_open(stored: StoredSessionView)
    requires
        stored.state is None,
        restored_session(stored) is Ok,
    ensures
        restored_session(stored)->Ok_0.state == UploadState::Open,
{
}

} // verus!
