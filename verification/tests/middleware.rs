use s3_endpoint::collections::TextMap;
use s3_endpoint::middleware::{
    map_processor_error, processors_are_empty, FoundFile, ProcessAction, ProcessorRun,
    UploadProcessorAction, UploadProcessorContext, UploadProcessorError, UploadProcessorFn,
    UploadProcessorHandle, UploadProcessorOperation, UploadProcessorRequest,
};
use s3_endpoint::s3::types::{BucketName, ContentLength, ObjectKey, RequestId};
use s3_endpoint::storage::error::StoreError;
use s3_endpoint::storage::files::{FileAction, FileOutcome};
use s3_endpoint::storage::staged::StagedObject;

fn run_of(count: usize) -> ProcessorRun {
    let ids = (0..count).map(|i| format!("r{i}")).collect();
    ProcessorRun::new(StagedObject::new("tmp".to_owned(), "id".to_owned()), ids)
}

fn removed(run: &ProcessorRun) -> Option<String> {
    match run.action() {
        Some(ProcessAction::File(FileAction::Remove { path })) => Some(path),
        _ => None,
    }
}

fn asked(run: &ProcessorRun) -> Option<usize> {
    match run.action() {
        Some(ProcessAction::Ask { index, .. }) => Some(index),
        _ => None,
    }
}

#[test]
fn uploads_without_processors_are_left_alone() {
    let run = run_of(0);
    assert!(run.action().is_none());
    assert_eq!(run.result().expect("staged").path(), "tmp/id.part");
    assert!(processors_are_empty::<u8>(&[]));
    assert!(!processors_are_empty(&[1_u8]));
}

#[test]
fn processors_are_asked_in_order_and_may_keep_the_bytes() {
    let run = run_of(2);
    assert_eq!(asked(&run), Some(0));
    let run = run.answered(Ok(UploadProcessorAction::Keep));
    assert_eq!(removed(&run), Some("tmp/r0.replace".to_owned()));
    let run = run.changed(FileOutcome::Missing);
    assert_eq!(asked(&run), Some(1));
    let run = run.answered(Ok(UploadProcessorAction::Keep)).changed(FileOutcome::Done);
    assert!(run.action().is_none());
    assert!(run.result().is_ok());
}

#[test]
fn replaced_bytes_take_the_place_of_staged_ones() {
    let run = run_of(1).answered(Ok(UploadProcessorAction::Replace));
    assert!(matches!(
        run.action(),
        Some(ProcessAction::Inspect { path }) if path == "tmp/r0.replace"
    ));
    let run = run.inspected(FoundFile::File);
    assert_eq!(removed(&run), Some("tmp/id.part".to_owned()));
    let run = run.changed(FileOutcome::Done);
    assert!(matches!(
        run.action(),
        Some(ProcessAction::File(FileAction::Rename { from, to }))
            if from == "tmp/r0.replace" && to == "tmp/id.part"
    ));
    let run = run.changed(FileOutcome::Done);
    assert!(run.action().is_none());
    assert!(run.result().is_ok());
}

#[test]
fn replacements_that_fail_discard_the_upload() {
    let replaced = || run_of(2).answered(Ok(UploadProcessorAction::Replace));
    for (run, message) in [
        (
            replaced().inspected(FoundFile::Other("/data/tmp/r0.replace".to_owned())),
            "failed to replace staged upload: invalid storage path: /data/tmp/r0.replace",
        ),
        (
            replaced().inspected(FoundFile::Failed("gone".to_owned())),
            "failed to replace staged upload: storage I/O failed",
        ),
        (
            replaced()
                .inspected(FoundFile::File)
                .changed(FileOutcome::Failed("busy".to_owned())),
            "failed to replace staged upload: storage I/O failed",
        ),
        (
            replaced()
                .inspected(FoundFile::File)
                .changed(FileOutcome::Done)
                .changed(FileOutcome::Missing),
            "failed to replace staged upload: storage I/O failed",
        ),
        (
            run_of(2)
                .answered(Ok(UploadProcessorAction::Keep))
                .changed(FileOutcome::Failed("busy".to_owned())),
            "failed to remove unused upload processor replacement file: busy",
        ),
    ] {
        assert_eq!(removed(&run), Some("tmp/id.part".to_owned()));
        let run = run.changed(FileOutcome::Failed("busy".to_owned()));
        assert!(run.action().is_none());
        let error = run.result().expect_err("failed");
        assert_eq!(error.code(), "InternalError");
        assert_eq!(error.message(), message);
    }
}

#[test]
fn rejected_uploads_are_discarded() {
    let run = run_of(2).answered(Err(UploadProcessorError::Rejected("virus".to_owned())));
    assert_eq!(removed(&run), Some("tmp/r0.replace".to_owned()));
    let run = run.changed(FileOutcome::Missing);
    assert_eq!(removed(&run), Some("tmp/id.part".to_owned()));
    let run = run.changed(FileOutcome::Done);
    assert!(run.action().is_none());
    let error = run.result().expect_err("rejected");
    assert_eq!(error.status(), 403);
    assert_eq!(error.message(), "virus");
}

#[test]
fn processor_errors_are_answered() {
    let error = map_processor_error(UploadProcessorError::Failed("crash".to_owned()));
    assert_eq!(error.status(), 500);
    assert_eq!(error.message(), "upload processor failed: crash");
    let error = UploadProcessorError::from_store(&StoreError::NoSuchUpload);
    assert_eq!(error.message(), "multipart upload does not exist");
}

#[test]
fn handles_say_what_processors_are_given() {
    let context = UploadProcessorContext {
        request_id: RequestId::parse("request-1").expect("request id"),
        bucket: BucketName::parse("test-bucket").expect("bucket"),
        key: ObjectKey::parse("key.txt").expect("key"),
        operation: UploadProcessorOperation::PutObject,
        original_size: ContentLength::new(5),
        content_type: Some("text/plain".to_owned()),
        user_metadata: TextMap::new(),
    };
    let handle = UploadProcessorHandle::from_request(UploadProcessorRequest {
        context: &context,
        current_path: "tmp/id.part",
        replacement_path: "tmp/r0.replace",
    });
    assert_eq!(handle.context(), &context);
    assert_eq!(handle.current_path(), "tmp/id.part");
    assert_eq!(handle.replacement_path(), "tmp/r0.replace");
    assert_eq!(handle.keep(), UploadProcessorAction::Keep);
    assert_eq!(handle.replace(), UploadProcessorAction::Replace);
    assert!(matches!(
        handle.reject("no"),
        Err(UploadProcessorError::Rejected(text)) if text == "no"
    ));
    assert!(matches!(
        handle.fail("no"),
        Err(UploadProcessorError::Failed(text)) if text == "no"
    ));
    let named = UploadProcessorFn::new("uppercase", 7_u8);
    assert_eq!(named.name(), "uppercase");
    assert_eq!(*named.handler(), 7);
}
