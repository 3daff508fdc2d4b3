use sha2::Digest as _;
use std::collections::BTreeMap;

use s3_endpoint::body::checksum::ChecksumRequest;
use s3_endpoint::body::digests::CrcEngines;
use s3_endpoint::body::upload::{StagedUploadSummary, UploadedBody};
use s3_endpoint::collections::TextMap;
use s3_endpoint::config::UploadLimits;
use s3_endpoint::error::S3Error;
use s3_endpoint::http::HeaderMap;
use s3_endpoint::s3::types::{
    BucketName, ContentLength, ETag, ObjectKey, PartNumber, RequestId, S3Target, UploadId,
};
use s3_endpoint::handlers::get_object::get_object_response;
use s3_endpoint::response::ResponseBody;
use s3_endpoint::storage::checksum::{ChecksumAlgorithm, ChecksumType};
use s3_endpoint::storage::commit::{CommitPaths, ObjectCommit};
use s3_endpoint::storage::complete_checksum::MultipartCompleteChecksumState;
use s3_endpoint::storage::completion::{
    assemble_parts, completed_metadata, processed_object_metadata, put_object_metadata,
    validate_requested_parts,
};
use s3_endpoint::storage::error::{map_store_error, StoreError};
use s3_endpoint::storage::files::{FileAction, FileOutcome};
use s3_endpoint::storage::model::{
    CommittedPart, CompletedPart, PartMetadata, UploadMetadata, UploadSession, UploadState,
};
use s3_endpoint::storage::multipart::{keep_at_startup, part_metadata, FileMultipartStore};
use s3_endpoint::storage::object::{
    metadata_counterpart, metadata_path, object_counterpart, object_path, removal_result,
    FileObjectStore,
};
use s3_endpoint::storage::part_commit::{PartAction, PartCommit, SessionWrite};
use s3_endpoint::storage::part_files::{
    is_stale_file, part_backup_path, part_path, session_path, staged_part_path,
    staged_session_path,
};
use s3_endpoint::storage::publication::{Publication, PublicationStep, UploadSource};
use s3_endpoint::storage::staged::StagedObject;
use s3_endpoint::storage::stored::{StoredPart, StoredSession};
use s3_endpoint::time::Instant;

type Files = BTreeMap<String, Vec<u8>>;

fn perform(action: &FileAction, files: &mut Files) -> FileOutcome {
    match action {
        FileAction::CreateParent { .. } => FileOutcome::Done,
        FileAction::Write { path, contents } => {
            files.insert(path.clone(), contents.clone());
            FileOutcome::Done
        }
        FileAction::HardLink { from, to } => match files.get(from).cloned() {
            Some(bytes) => {
                files.insert(to.clone(), bytes);
                FileOutcome::Done
            }
            None => FileOutcome::Missing,
        },
        FileAction::Rename { from, to } => match files.remove(from) {
            Some(bytes) => {
                files.insert(to.clone(), bytes);
                FileOutcome::Done
            }
            None => FileOutcome::Missing,
        },
        FileAction::Remove { path } => match files.remove(path) {
            Some(_) => FileOutcome::Done,
            None => FileOutcome::Missing,
        },
    }
}

/// Runs a publication in which the action at one position fails.
fn run_commit(
    mut commit: ObjectCommit,
    files: &mut Files,
    fault: Option<usize>,
) -> Result<(), StoreError> {
    let mut position = 0;
    while let Some(action) = commit.action() {
        let outcome = if fault == Some(position) {
            FileOutcome::Failed("disk full".to_owned())
        } else {
            perform(&action, files)
        };
        commit.report(outcome);
        position += 1;
    }
    commit.result()
}

fn bucket() -> BucketName {
    BucketName::parse("test-bucket").expect("bucket")
}

fn key() -> ObjectKey {
    ObjectKey::parse("key.txt").expect("key")
}

fn at(seconds: i64) -> Instant {
    Instant::new(seconds, 0).expect("instant")
}

fn number(value: u16) -> PartNumber {
    PartNumber::parse(value).expect("part number")
}

fn part(value: u16, size: u64, etag: &str) -> PartMetadata {
    part_metadata(
        number(value),
        CommittedPart {
            size,
            md5: vec![value as u8; 16],
            etag: ETag::parse(etag).expect("etag"),
            checksums: TextMap::new(),
        },
        at(5),
    )
}

fn session(state: UploadState, initiated: Instant) -> UploadSession {
    let mut session = FileMultipartStore::create_upload(
        bucket(),
        key(),
        None,
        UploadMetadata::default(),
        initiated,
    );
    session.state = state;
    session
}

fn stored_session(json: &str) -> StoredSession {
    let value: serde_json::Value = serde_json::from_str(json).expect("json");
    let text = |name: &str| value.get(name).map(|v| v.as_str().expect(name).to_owned());
    let initiated = text("initiated").expect("initiated");
    assert_eq!(initiated, "2026-06-16T00:00:00Z");
    let parts = value["parts"].as_object().expect("parts");
    StoredSession {
        upload_id: text("upload_id").expect("upload ID"),
        bucket: text("bucket").expect("bucket"),
        key: text("key").expect("key"),
        initiated: at(1_781_568_000),
        state: text("state"),
        owner_access_key_id: text("owner_access_key_id"),
        metadata: UploadMetadata::default(),
        parts: parts
            .iter()
            .map(|(key, part)| StoredPart {
                key: key.parse().expect("key"),
                part_number: part["part_number"].as_u64().expect("number") as u16,
                size: part["size"].as_u64().expect("size"),
                etag: part["etag"].as_str().expect("etag").to_owned(),
                md5: Vec::new(),
                checksums: TextMap::new(),
                last_modified: at(1_781_568_000),
            })
            .collect(),
    }
}

#[test]
fn stored_sessions_are_read_back_with_their_states_and_parts() {
    let json = |state: &str, number: u16, etag: &str| {
        format!(
            r#"{{
              "upload_id": "67e55044-10b1-426f-9247-bb680e5fe0c8",
              "bucket": "test-bucket",
              "key": "key.txt",
              "initiated": "2026-06-16T00:00:00Z",
              "state": "{state}",
              "owner_access_key_id": "AKID",
              "metadata": {{}},
              "parts": {{
                "2": {{"part_number": {number}, "size": 7, "etag": "{etag}"}},
                "1": {{"part_number": 1, "size": 5, "etag": "tag"}}
              }}
            }}"#
        )
    };
    for (name, state) in [
        ("Open", UploadState::Open),
        ("Completing", UploadState::Completing),
        ("Completed", UploadState::Completed),
        ("Aborted", UploadState::Aborted),
    ] {
        let session = stored_session(&json(name, 2, "tag")).restore().expect("session");
        assert_eq!(session.state, state);
        assert_eq!(session.owner_access_key_id.as_ref().expect("owner").as_str(), "AKID");
        assert_eq!(session.parts.len(), 2);
        assert_eq!(session.parts.part_at(0).part_number, number(1));
        assert_eq!(session.parts.part_at(1).size, 7);
        let again = StoredSession::of(&session).restore().expect("again");
        assert_eq!(again, session);
    }
    let moved = stored_session(&json("Open", 9, "tag")).restore().expect("session");
    assert_eq!(moved.parts.get(number(2)).expect("part").size, 7);
    assert_eq!(moved.parts.get(number(2)).expect("part").part_number, number(9));
    assert_eq!(moved.parts.key_at(1), number(2));
    assert!(moved.parts.get(number(9)).is_none());
    assert_eq!(StoredSession::of(&moved).restore().expect("again"), moved);

    for (json, text) in [
        (json("open", 2, "tag"), "unknown upload state"),
        (json("Open", 0, "tag"), "part number must be in the range 1..=10000"),
        (json("Open", 2, ""), "ETag contains invalid characters"),
    ] {
        match stored_session(&json).restore() {
            Err(StoreError::Json(found)) => assert_eq!(found, text),
            other => panic!("{other:?}"),
        }
    }
}

#[test]
fn upload_session_deserialization_defaults_missing_state_to_open() {
    let upload_id = UploadId::new();
    let upload_id_value = upload_id.as_str();
    let json = format!(
        r#"{{
          "upload_id": "{upload_id_value}",
          "bucket": "test-bucket",
          "key": "key.txt",
          "initiated": "2026-06-16T00:00:00Z",
          "metadata": {{}},
          "parts": {{}}
        }}"#
    );

    let session = stored_session(&json).restore().expect("session");

    assert_eq!(session.state, UploadState::Open);
    assert!(session.owner_access_key_id.is_none());
    assert!(session.is_open());
}

#[test]
fn upload_metadata_serializes_checksum_enums_as_s3_values() {
    let metadata = UploadMetadata {
        checksum_algorithm: Some(ChecksumAlgorithm::Crc32c),
        checksum_type: Some(ChecksumType::FullObject),
        ..UploadMetadata::default()
    };

    let algorithm = metadata.checksum_algorithm.expect("algorithm").as_str();
    let kind = metadata.checksum_type.expect("type").as_str();

    assert_eq!(algorithm, "CRC32C");
    assert_eq!(kind, "FULL_OBJECT");
    assert_eq!(
        ChecksumAlgorithm::from_name(algorithm),
        Some(ChecksumAlgorithm::Crc32c)
    );
}

#[test]
fn multipart_store_rejects_part_creation_for_non_open_upload() {
    let mut store = FileMultipartStore::new();
    let session = session(UploadState::Completing, at(0));
    let upload_id = session.upload_id.clone();
    store.register(session);

    let result = store.create_temp_part(&upload_id, number(1), "temp");

    assert!(matches!(result, Err(StoreError::NoSuchUpload)));
}

#[test]
fn multipart_completion_failure_restores_upload_to_open() {
    let mut store = FileMultipartStore::new();
    let upload = session(UploadState::Open, at(0));
    let upload_id = upload.upload_id.clone();
    store.register(upload);
    let completing = store.begin_completion(&upload_id).expect("completing");

    let result = validate_requested_parts(
        &completing,
        &vec![CompletedPart {
            part_number: number(1),
            etag: ETag::parse("\"missing\"").expect("etag"),
        }],
        &UploadLimits::default(),
    );
    assert!(matches!(result, Err(StoreError::InvalidPart)));
    assert!(store.create_temp_part(&upload_id, number(1), "temp").is_err());
    store.restore_open_upload(&upload_id);

    let upload = store.get_upload(&upload_id).expect("upload remains");
    assert_eq!(upload.state, UploadState::Open);
    store
        .create_temp_part(&upload_id, number(1), "temp")
        .expect("part creation after failed completion");
}

#[test]
fn multipart_store_startup_removes_terminal_upload_sessions() {
    let mut store = FileMultipartStore::new();
    let mut ids = Vec::new();
    for state in [UploadState::Open, UploadState::Completed, UploadState::Aborted] {
        let session = session(state, at(0));
        ids.push(session.upload_id.clone());
        if keep_at_startup(&session, at(10), None) {
            store.register(session);
        }
    }

    assert!(store.get_upload(&ids[0]).is_some());
    assert!(store.get_upload(&ids[1]).is_none());
    assert!(store.get_upload(&ids[2]).is_none());
}

#[test]
fn multipart_store_startup_removes_expired_open_upload_sessions() {
    let now: i64 = 1_781_697_600;
    let session = session(UploadState::Open, at(now - 2 * 60 * 60));

    assert!(!keep_at_startup(&session, at(now), Some(60 * 60)));
    assert!(keep_at_startup(&session, at(now), Some(3 * 60 * 60)));
}

#[test]
fn multipart_complete_checksum_state_is_empty_without_requested_checksums() {
    let headers = HeaderMap::new();
    let request = ChecksumRequest::from_headers(&headers).expect("checksum request");

    let engines = CrcEngines::new();
    let state = MultipartCompleteChecksumState::new(&request, &engines);
    let enabled = state.enabled_digests();

    assert!(!enabled.md5);
    assert!(!enabled.sha1);
    assert!(!enabled.sha256);
    assert!(!enabled.sha512);
    assert!(!enabled.crc32);
    assert!(!enabled.crc32c);
}

#[test]
fn multipart_complete_checksum_state_enables_requested_digests() {
    let mut headers = HeaderMap::new();
    headers.insert("content-md5", "AAAAAAAAAAAAAAAAAAAAAA==");
    headers.insert("x-amz-checksum-crc32c", "AAAAAA==");
    headers.insert(
        "x-amz-checksum-sha1",
        &base64::Engine::encode(&base64::engine::general_purpose::STANDARD, [0_u8; 20]),
    );
    let request = ChecksumRequest::from_headers(&headers).expect("checksum request");

    let engines = CrcEngines::new();
    let state = MultipartCompleteChecksumState::new(&request, &engines);
    let enabled = state.enabled_digests();

    assert!(enabled.md5);
    assert!(enabled.sha1);
    assert!(!enabled.sha256);
    assert!(!enabled.sha512);
    assert!(!enabled.crc32);
    assert!(enabled.crc32c);
}

#[test]
fn objects_are_stored_under_the_digest_of_bucket_and_key() {
    let digest = {
        hex::encode(sha2::Sha256::digest(b"test-bucket\0key.txt"))
    };
    let shard = &digest[..2];
    assert_eq!(
        object_path(&bucket(), &key()),
        format!("objects/{shard}/{digest}.data")
    );
    assert_eq!(
        metadata_path(&bucket(), &key()),
        format!("metadata/{shard}/{digest}.json")
    );
    assert_eq!(
        metadata_counterpart(&format!("{digest}.data")),
        Some(metadata_path(&bucket(), &key()))
    );
    assert_eq!(
        object_counterpart(&format!("{digest}.json")),
        Some(object_path(&bucket(), &key()))
    );
    assert_eq!(metadata_counterpart("notes.txt"), None);
    assert_eq!(metadata_counterpart("a.data"), Some("metadata/a.json".to_owned()));
    assert_eq!(metadata_counterpart("é.data"), Some("metadata/é/é.json".to_owned()));

    let store = FileObjectStore::new("/srv/data".to_owned());
    assert_eq!(store.resolve("tmp/x"), "/srv/data/tmp/x");
    let store = FileObjectStore::new("/srv/data/".to_owned());
    assert_eq!(store.resolve("tmp/x"), "/srv/data/tmp/x");
}

#[test]
fn a_new_object_is_published_with_its_metadata() {
    let paths = CommitPaths::new("id", "tmp/id.part".to_owned(), &bucket(), &key());
    let mut files = Files::new();
    files.insert("tmp/id.part".to_owned(), b"hello".to_vec());
    run_commit(ObjectCommit::new(paths, b"{}".to_vec()), &mut files, None).expect("commit");
    assert_eq!(files.len(), 2);
    assert_eq!(files[&object_path(&bucket(), &key())], b"hello");
    assert_eq!(files[&metadata_path(&bucket(), &key())], b"{}");
}

#[test]
fn a_failed_publication_leaves_the_old_object_or_the_new_one() {
    let mut before = Files::new();
    before.insert(object_path(&bucket(), &key()), b"old".to_vec());
    before.insert(metadata_path(&bucket(), &key()), b"{old}".to_vec());
    let mut staged = before.clone();
    staged.insert("tmp/id.part".to_owned(), b"new".to_vec());
    let mut after = Files::new();
    after.insert(object_path(&bucket(), &key()), b"new".to_vec());
    after.insert(metadata_path(&bucket(), &key()), b"{new}".to_vec());

    for fault in 0..9 {
        let mut files = staged.clone();
        let paths = CommitPaths::new("id", "tmp/id.part".to_owned(), &bucket(), &key());
        let result = run_commit(
            ObjectCommit::new(paths, b"{new}".to_vec()),
            &mut files,
            Some(fault),
        );
        assert!(result.is_err());
        if fault < 7 {
            assert_eq!(files, before);
        } else {
            assert_eq!(files, after);
        }
    }
    let mut files = staged.clone();
    let paths = CommitPaths::new("id", "tmp/id.part".to_owned(), &bucket(), &key());
    run_commit(ObjectCommit::new(paths, b"{new}".to_vec()), &mut files, None).expect("commit");
    assert_eq!(files, after);
}

#[test]
fn staged_objects_are_committed_from_their_directory() {
    let staged = StagedObject::new("tmp".to_owned(), "id".to_owned());
    assert_eq!(staged.path(), "tmp/id.part");
    assert_eq!(staged.replacement_path("other"), "tmp/other.replace");
    let store = FileObjectStore::new("/srv".to_owned());
    let mut files = Files::new();
    files.insert("tmp/id.part".to_owned(), b"hello".to_vec());
    let commit = store.commit_staged_object(staged, &bucket(), &key(), b"{}".to_vec());
    run_commit(commit, &mut files, None).expect("commit");
    assert_eq!(files[&object_path(&bucket(), &key())], b"hello");
}

#[test]
fn deleting_removes_both_files_and_missing_objects_are_deleted() {
    let store = FileObjectStore::new("/srv".to_owned());
    let mut files = Files::new();
    files.insert(object_path(&bucket(), &key()), b"old".to_vec());
    files.insert(metadata_path(&bucket(), &key()), b"{}".to_vec());
    for _ in 0..2 {
        let first = perform(&store.begin_deletion(&bucket(), &key()), &mut files);
        if let Some(action) = store.delete_object(&bucket(), &key(), first).expect("deletion") {
            removal_result(perform(&action, &mut files)).expect("removed");
        }
        assert!(files.is_empty());
    }
    assert!(matches!(
        store.delete_object(&bucket(), &key(), FileOutcome::Failed("busy".to_owned())),
        Err(StoreError::Io(text)) if text == "busy"
    ));
    assert!(store.head_object(None, true).is_none());
    assert!(removal_result(FileOutcome::Missing).is_ok());
    assert!(removal_result(FileOutcome::Failed("busy".to_owned())).is_err());
}

#[test]
fn multipart_files_have_names_of_their_own() {
    let id = UploadId::parse("550e8400-e29b-41d4-a716-446655440000").expect("id");
    let dir = "multipart/550e8400-e29b-41d4-a716-446655440000";
    assert_eq!(part_path(&id, number(7)), format!("{dir}/parts/00007.part"));
    assert_eq!(part_path(&id, number(10_000)), format!("{dir}/parts/10000.part"));
    assert_eq!(staged_part_path(&id, number(123), "t"), format!("{dir}/00123.t.tmp"));
    assert_eq!(
        part_backup_path(&id, number(123), "t"),
        format!("{dir}/00123.t.rollback.tmp")
    );
    assert_eq!(session_path(&id), format!("{dir}/session.json"));
    assert_eq!(staged_session_path(&id, "t"), format!("{dir}/session.t.tmp"));
    assert!(is_stale_file("00123.t.tmp"));
    assert!(!is_stale_file("session.json"));
}

/// Runs the publication of a part on files and on a store, with one action that fails.
fn run_part_commit(
    store: &mut FileMultipartStore,
    upload_id: &UploadId,
    new_part: &PartMetadata,
    files: &mut Files,
    fault: Option<usize>,
) -> Result<(), StoreError> {
    let staged = staged_part_path(upload_id, new_part.part_number, "t");
    let (mut commit, previous): (PartCommit, Option<PartMetadata>) =
        store.commit_part(upload_id, new_part.part_number, staged, "b")?;
    let mut position = 0;
    while let Some(action) = commit.action() {
        let fails = fault == Some(position);
        position += 1;
        match action {
            PartAction::File(change) => {
                let outcome = if fails {
                    FileOutcome::Failed("disk full".to_owned())
                } else {
                    perform(&change, files)
                };
                commit.report(outcome);
            }
            PartAction::Record => {
                let result = store.store_part(upload_id, new_part.clone());
                commit.report_result(result.map(|_| ()));
            }
            PartAction::Persist => commit.report_result(if fails {
                Err(StoreError::Json("bad".to_owned()))
            } else {
                Ok(())
            }),
            PartAction::TakeBack => {
                store.restore_part(upload_id, new_part.part_number, previous.clone());
                commit.report_result(Ok(()));
            }
        }
    }
    commit.result()
}

#[test]
fn parts_are_replaced_or_left_as_they_were() {
    let mut store = FileMultipartStore::new();
    let upload = session(UploadState::Open, at(0));
    let id = upload.upload_id.clone();
    store.register(upload);
    let mut files = Files::new();
    files.insert(staged_part_path(&id, number(2), "t"), b"one".to_vec());
    run_part_commit(&mut store, &id, &part(2, 3, "\"one\""), &mut files, None).expect("first");
    assert_eq!(files.len(), 1);
    assert_eq!(files[&part_path(&id, number(2))], b"one");

    let before = files.clone();
    for fault in [0, 1, 2, 4] {
        let mut changed = before.clone();
        changed.insert(staged_part_path(&id, number(2), "t"), b"two".to_vec());
        let result =
            run_part_commit(&mut store, &id, &part(2, 3, "\"two\""), &mut changed, Some(fault));
        assert!(result.is_err());
        assert_eq!(changed, before);
        let session = store.get_upload(&id).expect("session");
        assert_eq!(session.parts.get(number(2)).expect("part").etag.as_str(), "\"one\"");
    }

    files.insert(staged_part_path(&id, number(2), "t"), b"two".to_vec());
    run_part_commit(&mut store, &id, &part(2, 3, "\"two\""), &mut files, None).expect("second");
    assert_eq!(files.len(), 1);
    assert_eq!(files[&part_path(&id, number(2))], b"two");
    let session = store.get_upload(&id).expect("session");
    assert_eq!(session.parts.get(number(2)).expect("part").etag.as_str(), "\"two\"");

    store.begin_completion(&id).expect("completing");
    assert!(matches!(
        store.commit_part(&id, number(2), String::new(), "b"),
        Err(StoreError::NoSuchUpload)
    ));
    assert!(store.write_part(&id, number(2), Vec::new()).is_err());
}

#[test]
fn parts_replace_files_that_were_left_over() {
    for fault in [None, Some(0), Some(1)] {
        let mut store = FileMultipartStore::new();
        let upload = session(UploadState::Open, at(0));
        let id = upload.upload_id.clone();
        store.register(upload);
        let mut files = Files::new();
        files.insert(part_path(&id, number(2)), b"left over".to_vec());
        files.insert(staged_part_path(&id, number(2), "t"), b"one".to_vec());
        let part = part(2, 3, "\"one\"");
        let result = run_part_commit(&mut store, &id, &part, &mut files, fault);
        assert_eq!(result.is_ok(), fault.is_none());
        assert_eq!(files.len(), 1);
        let expected: &[u8] = if fault.is_none() { b"one" } else { b"left over" };
        assert_eq!(files[&part_path(&id, number(2))], expected);
    }
}

#[test]
fn sessions_are_written_whole_or_not_at_all() {
    for fault in [None, Some(0), Some(1), Some(2)] {
        let mut files = Files::new();
        files.insert("session.json".to_owned(), b"{old}".to_vec());
        let before = files.clone();
        let mut write = SessionWrite::new(
            "session.json".to_owned(),
            "session.t.tmp".to_owned(),
            b"{new}".to_vec(),
        );
        let mut position = 0;
        while let Some(action) = write.action() {
            let outcome = if fault == Some(position) {
                FileOutcome::Failed("disk full".to_owned())
            } else {
                perform(&action, &mut files)
            };
            write.report(outcome);
            position += 1;
        }
        match fault {
            None => {
                assert!(write.result().is_ok());
                assert_eq!(files.len(), 1);
                assert_eq!(files["session.json"], b"{new}");
            }
            Some(_) => {
                assert!(write.result().is_err());
                assert_eq!(files, before);
            }
        }
    }
}

#[test]
fn aborted_uploads_are_forgotten_once_their_files_are_gone() {
    let mut store = FileMultipartStore::new();
    let upload = session(UploadState::Open, at(0));
    let id = upload.upload_id.clone();
    store.register(upload);
    let aborted = store.abort_upload(&id).expect("aborted");
    assert_eq!(aborted.state, UploadState::Aborted);
    store.register(aborted);
    assert!(store.abort_upload(&id).is_err());
    assert!(store.finish_abort(&id, FileOutcome::Failed("busy".to_owned())).is_err());
    assert_eq!(store.get_upload(&id).expect("session").state, UploadState::Aborted);
    store.finish_abort(&id, FileOutcome::Missing).expect("gone");
    assert!(store.get_upload(&id).is_none());
    assert!(store.mark_upload_state(&id, UploadState::Completed).is_none());
}

#[test]
fn completed_objects_are_made_of_the_requested_parts() {
    let mut upload = session(UploadState::Open, at(0));
    upload.parts.insert(number(1), part(1, 5, "\"a\""));
    upload.parts.insert(number(2), part(2, 3, "\"b\""));
    upload.parts.insert(number(3), part(3, 1, "\"c\""));
    let limits = UploadLimits {
        min_non_final_part_size: 5,
        max_object_size: 8,
        ..UploadLimits::default()
    };
    let wanted = |list: &[(u16, &str)]| -> Vec<CompletedPart> {
        list.iter()
            .map(|(n, etag)| CompletedPart {
                part_number: number(*n),
                etag: ETag::parse(etag).expect("etag"),
            })
            .collect()
    };
    let parts = validate_requested_parts(&upload, &wanted(&[(1, "\"a\""), (2, "\"b\"")]), &limits)
        .expect("parts");
    assert_eq!(parts.len(), 2);
    assert!(matches!(
        validate_requested_parts(&upload, &wanted(&[(1, "\"x\"")]), &limits),
        Err(StoreError::InvalidPart)
    ));
    assert!(matches!(
        validate_requested_parts(&upload, &wanted(&[(2, "\"b\""), (3, "\"c\"")]), &limits),
        Err(StoreError::EntityTooSmall)
    ));

    let request = ChecksumRequest::from_headers(&HeaderMap::new()).expect("request");
    let (bytes, md5, size) = assemble_parts(
        &parts,
        &vec![b"hello".to_vec(), b" yo".to_vec()],
        &request,
        &limits,
    )
    .expect("assembled");
    assert_eq!(bytes, b"hello yo");
    assert_eq!(size, 8);
    let expected = {
        let mut hasher = md5::Md5::new();
        hasher.update([1_u8; 16]);
        hasher.update([2_u8; 16]);
        hex::encode(hasher.finalize())
    };
    assert_eq!(md5, expected);
    let tight = UploadLimits { max_object_size: 7, ..limits };
    assert!(matches!(
        assemble_parts(&parts, &vec![b"hello".to_vec(), b" yo".to_vec()], &request, &tight),
        Err(StoreError::EntityTooLarge)
    ));
    let mut headers = HeaderMap::new();
    headers.insert("x-amz-checksum-crc32", "AAAAAA==");
    let wrong = ChecksumRequest::from_headers(&headers).expect("request");
    assert!(matches!(
        assemble_parts(&parts, &vec![b"hello".to_vec(), b" yo".to_vec()], &wrong, &limits),
        Err(StoreError::Checksum(_))
    ));

    let engines = CrcEngines::new();
    let mut summary = StagedUploadSummary::new(&engines);
    summary.update(b"hello");
    summary.update(b" yo");
    let body = summary.finish();
    let metadata = completed_metadata(
        upload.clone(), &md5, 2, &body, &request, false, &limits, at(9),
    )
    .expect("metadata");
    assert_eq!(metadata.etag.as_str(), format!("\"{expected}-2\""));
    assert_eq!(metadata.size, 8);
    let mut ranged = HeaderMap::new();
    ranged.insert("range", "bytes=4-6");
    let id = RequestId::parse("request-1").expect("request id");
    let response = get_object_response(&ranged, "", &metadata, &id).expect("response");
    assert_eq!(response.status, 206);
    let ResponseBody::Object { start, length } = response.body else {
        panic!("ranges are sent");
    };
    let sent = &bytes[start as usize..][..length.expect("length") as usize];
    assert_eq!(sent, b"o y");
    let processed =
        completed_metadata(upload.clone(), &md5, 2, &body, &request, true, &limits, at(9))
            .expect("metadata");
    let whole = {
        hex::encode(md5::Md5::digest(b"hello yo"))
    };
    assert_eq!(processed.etag.as_str(), format!("\"{whole}\""));
    assert!(
        completed_metadata(upload, &md5, 2, &body, &request, true, &tight, at(9)).is_err()
    );
}

#[test]
fn uploaded_objects_are_described_by_the_bytes_that_are_published() {
    let target = S3Target { bucket: bucket(), key: key(), virtual_hosted: false };
    let mut checksums = TextMap::new();
    checksums.insert("x-amz-checksum-crc32", "NhCmhg==");
    let uploaded = UploadedBody {
        size: ContentLength::new(5),
        md5_digest: vec![0xab; 16],
        checksums,
    };
    let object = put_object_metadata(&target, &uploaded, UploadMetadata::default(), at(3));
    assert_eq!(object.size, 5);
    assert_eq!(object.etag.as_str(), format!("\"{}\"", "ab".repeat(16)));
    assert_eq!(object.checksums.get("x-amz-checksum-crc32"), Some("NhCmhg=="));

    let engines = CrcEngines::new();
    let mut summary = StagedUploadSummary::new(&engines);
    summary.update(b"123456789");
    let body = summary.finish();
    let limits = UploadLimits::default();
    let object = processed_object_metadata(
        &target, &uploaded, &body, UploadMetadata::default(), &limits, at(3),
    )
    .expect("metadata");
    assert_eq!(object.size, 9);
    assert_eq!(object.etag.as_str(), "\"25f9e794323b453885f5181f1b624d0b\"");
    assert_eq!(object.checksums.get("x-amz-checksum-crc32"), Some("y/Q5Jg=="));
    let tight = UploadLimits { max_object_size: 8, ..limits };
    assert!(matches!(
        processed_object_metadata(
            &target, &uploaded, &body, UploadMetadata::default(), &tight, at(3),
        ),
        Err(StoreError::EntityTooLarge)
    ));
}

#[test]
fn store_errors_are_answered() {
    for (error, code, message) in [
        (StoreError::NoSuchUpload, "NoSuchUpload", None),
        (
            StoreError::InvalidPart,
            "InvalidPart",
            Some("One or more parts could not be found or the ETag did not match."),
        ),
        (
            StoreError::EntityTooSmall,
            "EntityTooSmall",
            Some("Your proposed upload is smaller than the minimum allowed object size."),
        ),
        (
            StoreError::EntityTooLarge,
            "EntityTooLarge",
            Some("Your proposed upload exceeds the maximum allowed size."),
        ),
        (
            StoreError::Checksum(S3Error::bad_digest("no match")),
            "BadDigest",
            Some("no match"),
        ),
        (
            StoreError::Processor(S3Error::access_denied("virus")),
            "AccessDenied",
            Some("virus"),
        ),
        (
            StoreError::Io("x".to_owned()),
            "InternalError",
            Some("storage operation failed: storage I/O failed"),
        ),
        (
            StoreError::Json("x".to_owned()),
            "InternalError",
            Some("storage operation failed: failed to encode or decode storage metadata"),
        ),
        (
            StoreError::InvalidPath("p".to_owned()),
            "InternalError",
            Some("storage operation failed: invalid storage path: p"),
        ),
        (
            StoreError::InvalidUploadId,
            "InternalError",
            Some("storage operation failed: invalid upload ID"),
        ),
    ] {
        let answer = map_store_error(error);
        assert_eq!(answer.code(), code);
        if let Some(message) = message {
            assert_eq!(answer.message(), message);
        }
    }
}

fn published_in(
    source: UploadSource,
    failing: Option<PublicationStep>,
) -> (Vec<PublicationStep>, Result<(), &'static str>) {
    let mut publication = Publication::new(source);
    let mut steps = Vec::new();
    while let Some(step) = publication.due() {
        steps.push(step);
        publication = publication.report(if failing == Some(step) {
            Err("failed")
        } else {
            Ok(())
        });
    }
    (steps, publication.result())
}

#[test]
fn objects_are_published_step_by_step() {
    let (steps, result) = published_in(UploadSource::Body { processed: false }, None);
    assert_eq!(
        steps,
        vec![
            PublicationStep::Stage,
            PublicationStep::Fill,
            PublicationStep::Describe,
            PublicationStep::Commit,
        ]
    );
    assert_eq!(result, Ok(()));
    let (steps, _) = published_in(UploadSource::Body { processed: true }, None);
    assert_eq!(steps[2..4], [PublicationStep::Process, PublicationStep::Summarize]);
    let (steps, result) = published_in(UploadSource::Parts, None);
    assert_eq!(steps[0], PublicationStep::Validate);
    assert_eq!(
        steps[7..],
        [
            PublicationStep::MarkCompleted,
            PublicationStep::RemoveSession,
            PublicationStep::RemoveFiles,
        ]
    );
    assert_eq!(result, Ok(()));
}

#[test]
fn failed_publications_are_undone() {
    let (steps, result) =
        published_in(UploadSource::Body { processed: false }, Some(PublicationStep::Fill));
    assert_eq!(
        steps,
        vec![PublicationStep::Stage, PublicationStep::Fill, PublicationStep::Discard]
    );
    assert_eq!(result, Err("failed"));
    let (steps, result) = published_in(UploadSource::Parts, Some(PublicationStep::Validate));
    assert_eq!(steps, vec![PublicationStep::Validate, PublicationStep::Restore]);
    assert_eq!(result, Err("failed"));
    for failing in [PublicationStep::Process, PublicationStep::Commit] {
        let (steps, result) = published_in(UploadSource::Parts, Some(failing));
        assert_eq!(steps.last(), Some(&PublicationStep::Restore));
        assert!(!steps.contains(&PublicationStep::Discard));
        assert_eq!(result, Err("failed"));
    }
    let (steps, result) = published_in(UploadSource::Parts, Some(PublicationStep::RemoveSession));
    assert_eq!(steps.last(), Some(&PublicationStep::RemoveFiles));
    assert_eq!(result, Ok(()));
}
