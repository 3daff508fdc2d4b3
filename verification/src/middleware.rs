//! Typed S3-aware upload middleware.
//!
//! Upload processors run after S3 request authentication, payload decoding, and client checksum
//! validation, but before object bytes are committed to storage. This module decides what is done
//! with the staged bytes between one processor and the next.
use crate::collections::TextMap;
use crate::error::{access_denied, internal, ErrorView, S3Error};
use crate::s3::types::{BucketName, ContentLength, ObjectKey, RequestId};
use crate::storage::error::{store_error_message, StoreError, StoreErrorView};
use crate::storage::files::{outcome_text, ActionView, FileAction, FileOutcome, OutcomeView};
use crate::storage::model::clone_opt;
use crate::storage::staged::{replacement_in, staged_in, StagedObject, StagedView};
use crate::text::{opt_text, texts};
use vstd::prelude::*;

verus! {

/// Operation that produced a staged object for processing.
#[derive(Clone, Copy, Debug, PartialEq, Eq, Structural)]
pub enum UploadProcessorOperation {
    /// A single-request `PutObject` upload.
    PutObject,
    /// A completed multipart upload after parts have been assembled.
    CompleteMultipartUpload,
}

/// Stable upload metadata available to processors.
#[derive(Debug, PartialEq, Eq)]
pub struct UploadProcessorContext {
    /// Request ID returned to the client for this S3 request.
    pub request_id: RequestId,
    /// Bucket being written.
    pub bucket: BucketName,
    /// Object key being written.
    pub key: ObjectKey,
    /// S3 operation that produced the staged object.
    pub operation: UploadProcessorOperation,
    /// Decoded client-upload size before processors run.
    pub original_size: ContentLength,
    /// Optional `Content-Type` metadata supplied by the client.
    pub content_type: Option<String>,
    /// User metadata headers keyed by lowercase `x-amz-meta-*` names.
    pub user_metadata: TextMap,
}

impl Clone for UploadProcessorContext {
    fn clone(&self) -> (copy: Self)
        ensures
            copy@ == self@,
    {
        UploadProcessorContext {
            request_id: self.request_id.clone(),
            bucket: self.bucket.clone(),
            key: self.key.clone(),
            operation: self.operation,
            original_size: self.original_size,
            content_type: clone_opt(&self.content_type),
            user_metadata: self.user_metadata.clone(),
        }
    }
}

/// An [`UploadProcessorContext`] as a mathematical value.
#[verifier::ext_equal]
pub struct ProcessorContextView {
    pub request_id: Seq<char>,
    pub bucket: Seq<char>,
    pub key: Seq<char>,
    pub operation: UploadProcessorOperation,
    pub original_size: nat,
    pub content_type: Option<Seq<char>>,
    pub user_metadata: Seq<(Seq<char>, Seq<char>)>,
}

impl View for UploadProcessorContext {
    type V = ProcessorContextView;

    open spec fn view(&self) -> ProcessorContextView {
        ProcessorContextView {
            request_id: self.request_id@,
            bucket: self.bucket@,
            key: self.key@,
            operation: self.operation,
            original_size: self.original_size@,
            content_type: opt_text(self.content_type),
            user_metadata: self.user_metadata@,
        }
    }
}

/// Per-processor file paths.
pub struct UploadProcessorRequest<'a> {
    /// Upload metadata and target identity.
    pub context: &'a UploadProcessorContext,
    /// Path to the current staged object bytes.
    pub current_path: &'a str,
    /// Reserved path where a processor may write replacement bytes.
    pub replacement_path: &'a str,
}

/// A processor with a name for diagnostics.
pub struct UploadProcessorFn<F> {
    name: String,
    handler: F,
}

impl<F> UploadProcessorFn<F> {
    /// The diagnostic name.
    pub closed spec fn spec_name(&self) -> Seq<char> {
        self.name@
    }

    /// The processor.
    pub closed spec fn spec_handler(&self) -> F {
        self.handler
    }

    /// Gives a processor a name.
    pub fn new(name: &str, handler: F) -> (processor: Self)
        ensures
            processor.spec_name() == name@,
            processor.spec_handler() == handler,
    {
        UploadProcessorFn { name: name.to_owned(), handler }
    }

    /// Returns the diagnostic processor name.
    pub fn name(&self) -> (name: &str)
        ensures
            name@ == self.spec_name(),
    {
        self.name.as_str()
    }

    /// Returns the processor.
    pub fn handler(&self) -> (handler: &F)
        ensures
            *handler == self.spec_handler(),
    {
        &self.handler
    }
}

/// Owned convenience handle passed to upload processors.
#[derive(Debug)]
pub struct UploadProcessorHandle {
    context: UploadProcessorContext,
    current_path: String,
    replacement_path: String,
}

impl UploadProcessorHandle {
    /// What the handle says of the upload.
    pub closed spec fn spec_context(&self) -> ProcessorContextView {
        self.context@
    }

    /// The path of the staged bytes.
    pub closed spec fn spec_current_path(&self) -> Seq<char> {
        self.current_path@
    }

    /// The path that is reserved for replacement bytes.
    pub closed spec fn spec_replacement_path(&self) -> Seq<char> {
        self.replacement_path@
    }

    /// Makes a handle of what a processor is given.
    pub fn from_request(request: UploadProcessorRequest<'_>) -> (handle: Self)
        ensures
            handle.spec_context() == request.context@,
            handle.spec_current_path() == request.current_path@,
            handle.spec_replacement_path() == request.replacement_path@,
    {
        UploadProcessorHandle {
            context: request.context.clone(),
            current_path: request.current_path.to_owned(),
            replacement_path: request.replacement_path.to_owned(),
        }
    }

    /// Upload metadata and target identity.
    pub fn context(&self) -> (context: &UploadProcessorContext)
        ensures
            context@ == self.spec_context(),
    {
        &self.context
    }

    /// Path to the current staged object bytes.
    pub fn current_path(&self) -> (path: &str)
        ensures
            path@ == self.spec_current_path(),
    {
        self.current_path.as_str()
    }

    /// Reserved path where replacement bytes may be written.
    pub fn replacement_path(&self) -> (path: &str)
        ensures
            path@ == self.spec_replacement_path(),
    {
        self.replacement_path.as_str()
    }

    /// Keeps the current staged bytes unchanged.
    pub fn keep(&self) -> (action: UploadProcessorAction)
        ensures
            action == UploadProcessorAction::Keep,
    {
        UploadProcessorAction::Keep
    }

    /// Replaces current staged bytes with the file written to the replacement path.
    pub fn replace(&self) -> (action: UploadProcessorAction)
        ensures
            action == UploadProcessorAction::Replace,
    {
        UploadProcessorAction::Replace
    }

    /// Rejects the upload with an S3 `AccessDenied` response.
    pub fn reject(&self, message: &str) -> (result: Result<
        UploadProcessorAction,
        UploadProcessorError,
    >)
        ensures
            result is Err,
            result->Err_0@ == ProcessorErrorView::Rejected(message@),
    {
        Err(UploadProcessorError::Rejected(message.to_owned()))
    }

    /// Fails the upload with an S3 `InternalError` response.
    pub fn fail(&self, message: &str) -> (result: Result<
        UploadProcessorAction,
        UploadProcessorError,
    >)
        ensures
            result is Err,
            result->Err_0@ == ProcessorErrorView::Failed(message@),
    {
        Err(UploadProcessorError::Failed(message.to_owned()))
    }
}

/// Processor decision for a staged upload.
#[derive(Clone, Copy, Debug, PartialEq, Eq, Structural)]
pub enum UploadProcessorAction {
    /// Keep the current staged bytes unchanged.
    Keep,
    /// Replace current staged bytes with the file written to the replacement path.
    Replace,
}

/// Error returned by an upload processor.
#[derive(Debug)]
pub enum UploadProcessorError {
    /// The upload is intentionally rejected, for example because a scanner found unsafe content.
    Rejected(String),
    /// The processor failed internally and the upload result is unknown.
    Failed(String),
}

/// An [`UploadProcessorError`] as a mathematical value.
#[verifier::ext_equal]
pub enum ProcessorErrorView {
    Rejected(Seq<char>),
    Failed(Seq<char>),
}

impl View for UploadProcessorError {
    type V = ProcessorErrorView;

    open spec fn view(&self) -> ProcessorErrorView {
        match self {
            UploadProcessorError::Rejected(message) => ProcessorErrorView::Rejected(message@),
            UploadProcessorError::Failed(message) => ProcessorErrorView::Failed(message@),
        }
    }
}

/// What an error of a processor says.
pub open spec fn processor_message(error: ProcessorErrorView) -> Seq<char> {
    match error {
        ProcessorErrorView::Rejected(message) => message,
        ProcessorErrorView::Failed(message) => message,
    }
}

impl UploadProcessorError {
    /// What the error says.
    pub fn message(&self) -> (message: String)
        ensures
            message@ == processor_message(self@),
    {
        match self {
            UploadProcessorError::Rejected(message) => message.clone(),
            UploadProcessorError::Failed(message) => message.clone(),
        }
    }

    /// The failure of a processor for which the store failed.
    pub fn from_store(error: &StoreError) -> (result: Self)
        ensures
            result@ == ProcessorErrorView::Failed(store_error_message(error@)),
    {
        UploadProcessorError::Failed(error.message())
    }
}

/// What a client is answered where a processor returned an error.
pub open spec fn processor_answer(error: ProcessorErrorView) -> ErrorView {
    match error {
        ProcessorErrorView::Rejected(message) => access_denied(message),
        ProcessorErrorView::Failed(message) => internal("upload processor failed: "@ + message),
    }
}

/// Maps an error of a processor to the answer that a client gets.
pub fn map_processor_error(error: UploadProcessorError) -> (result: S3Error)
    ensures
        result@ == processor_answer(error@),
{
    match error {
        UploadProcessorError::Rejected(message) => S3Error::access_denied(message.as_str()),
        UploadProcessorError::Failed(message) => S3Error::internal(
            "upload processor failed: ".to_owned().concat(message.as_str()).as_str(),
        ),
    }
}

/// Returns whether no upload processors are configured.
pub fn processors_are_empty<P>(processors: &[P]) -> (result: bool)
    ensures
        result == (processors@.len() == 0),
{
    processors.len() == 0
}

// ---------------------------------------------------------------------------------------------
// Running the processors
// ---------------------------------------------------------------------------------------------
/// What is found where replacement bytes should be.
#[derive(Debug)]
pub enum FoundFile {
    /// A regular file.
    File,
    /// Something that is not a regular file, at the path that was looked at.
    Other(String),
    /// Nothing could be found; the text says why.
    Failed(String),
}

/// What the run of the processors asks for.
#[derive(Debug)]
pub enum ProcessAction {
    /// Ask a processor.
    Ask {
        /// The index of the processor.
        index: usize,
        /// The staged bytes.
        current_path: String,
        /// Where the processor may write replacement bytes.
        replacement_path: String,
    },
    /// Look at what is at a path.
    Inspect {
        /// The path.
        path: String,
    },
    /// Change a file.
    File(FileAction),
}

/// A [`ProcessAction`] as a mathematical value.
#[verifier::ext_equal]
pub enum ProcessActionView {
    Ask { index: nat, current_path: Seq<char>, replacement_path: Seq<char> },
    Inspect { path: Seq<char> },
    File(ActionView),
}

impl View for ProcessAction {
    type V = ProcessActionView;

    open spec fn view(&self) -> ProcessActionView {
        match self {
            ProcessAction::Ask { index, current_path, replacement_path } => ProcessActionView::Ask {
                index: *index as nat,
                current_path: current_path@,
                replacement_path: replacement_path@,
            },
            ProcessAction::Inspect { path } => ProcessActionView::Inspect { path: path@ },
            ProcessAction::File(action) => ProcessActionView::File(action@),
        }
    }
}

/// Where the run of the processors stands.
#[derive(Clone, Copy, Debug, PartialEq, Eq, Structural)]
pub enum ProcessStep {
    /// A processor is asked.
    Ask,
    /// The bytes are kept: a replacement that is not used is removed.
    DropUnused,
    /// The processor returned an error: a replacement that is not used is removed.
    DropRejected,
    /// The bytes are replaced: the replacement is looked at.
    Inspect,
    /// The bytes are replaced: the staged ones are removed.
    DropStaged,
    /// The bytes are replaced: the replacement takes their place.
    MoveReplacement,
    /// After a failure: the staged bytes are removed.
    Discard,
    /// Nothing is left to do.
    Finished,
}

/// The run of the processors over a staged object, step by step.
#[derive(Debug)]
pub struct ProcessorRun {
    staged: StagedObject,
    replacement_ids: Vec<String>,
    index: usize,
    step: ProcessStep,
    error: Option<S3Error>,
}

/// A [`ProcessorRun`] as a mathematical value.
#[verifier::ext_equal]
pub struct ProcessView {
    pub staged: StagedView,
    pub replacement_ids: Seq<Seq<char>>,
    pub index: nat,
    pub step: ProcessStep,
    pub error: Option<ErrorView>,
}

/// The view of an optional error.
pub open spec fn opt_s3_error(error: Option<S3Error>) -> Option<ErrorView> {
    match error {
        Some(e) => Some(e@),
        None => None,
    }
}

impl View for ProcessorRun {
    type V = ProcessView;

    closed spec fn view(&self) -> ProcessView {
        ProcessView {
            staged: self.staged@,
            replacement_ids: texts(self.replacement_ids@),
            index: self.index as nat,
            step: self.step,
            error: opt_s3_error(self.error),
        }
    }
}

/// A run that has not begun: there is one replacement ID for each processor.
pub open spec fn process_start(staged: StagedView, replacement_ids: Seq<Seq<char>>) ->
    ProcessView {
    ProcessView {
        staged,
        replacement_ids,
        index: 0,
        step: if replacement_ids.len() == 0 {
            ProcessStep::Finished
        } else {
            ProcessStep::Ask
        },
        error: None,
    }
}

/// The path of the staged bytes.
pub open spec fn current_file(run: ProcessView) -> Seq<char> {
    staged_in(run.staged.directory, run.staged.temp_id)
}

/// The path that is reserved for the replacement of the processor whose turn it is.
pub open spec fn replacement_file(run: ProcessView) -> Seq<char> {
    replacement_in(run.staged.directory, run.replacement_ids[run.index as int])
}

/// What a run asks for next.
pub open spec fn process_action(run: ProcessView) -> Option<ProcessActionView> {
    match run.step {
        ProcessStep::Ask => Some(
            ProcessActionView::Ask {
                index: run.index,
                current_path: current_file(run),
                replacement_path: replacement_file(run),
            },
        ),
        ProcessStep::DropUnused => Some(
            ProcessActionView::File(ActionView::Remove { path: replacement_file(run) }),
        ),
        ProcessStep::DropRejected => Some(
            ProcessActionView::File(ActionView::Remove { path: replacement_file(run) }),
        ),
        ProcessStep::Inspect => Some(ProcessActionView::Inspect { path: replacement_file(run) }),
        ProcessStep::DropStaged => Some(
            ProcessActionView::File(ActionView::Remove { path: current_file(run) }),
        ),
        ProcessStep::MoveReplacement => Some(
            ProcessActionView::File(
                ActionView::Rename { from: replacement_file(run), to: current_file(run) },
            ),
        ),
        ProcessStep::Discard => Some(
            ProcessActionView::File(ActionView::Remove { path: current_file(run) }),
        ),
        ProcessStep::Finished => None,
    }
}

/// A run that goes on with the next processor, or is finished.
pub open spec fn next_processor(run: ProcessView) -> ProcessView {
    ProcessView {
        index: run.index + 1,
        step: if run.index + 1 < run.replacement_ids.len() {
            ProcessStep::Ask
        } else {
            ProcessStep::Finished
        },
        ..run
    }
}

/// A run that fails: the staged bytes are discarded.
pub open spec fn process_failed(run: ProcessView, error: ErrorView) -> ProcessView {
    ProcessView { step: ProcessStep::Discard, error: Some(error), ..run }
}

/// The failure of a replacement.
pub open spec fn replacement_error(error: StoreErrorView) -> ErrorView {
    internal("failed to replace staged upload: "@ + store_error_message(error))
}

/// The failure to remove a replacement that is not used.
pub open spec fn unused_error(text: Seq<char>) -> ErrorView {
    internal("failed to remove unused upload processor replacement file: "@ + text)
}

/// A run after the answer of a processor.
pub open spec fn process_answered(
    run: ProcessView,
    answer: Result<UploadProcessorAction, UploadProcessorError>,
) -> ProcessView {
    if run.step != ProcessStep::Ask {
        run
    } else {
        match answer {
            Ok(UploadProcessorAction::Keep) => ProcessView { step: ProcessStep::DropUnused, ..run },
            Ok(UploadProcessorAction::Replace) => ProcessView {
                step: ProcessStep::Inspect,
                ..run
            },
            Err(error) => ProcessView {
                step: ProcessStep::DropRejected,
                error: Some(processor_answer(error@)),
                ..run
            },
        }
    }
}

/// A run after the replacement was looked at.
pub open spec fn process_inspected(run: ProcessView, found: FoundFile) -> ProcessView {
    if run.step != ProcessStep::Inspect {
        run
    } else {
        match found {
            FoundFile::File => ProcessView { step: ProcessStep::DropStaged, ..run },
            FoundFile::Other(path) => process_failed(
                run,
                replacement_error(StoreErrorView::InvalidPath(path@)),
            ),
            FoundFile::Failed(text) => process_failed(
                run,
                replacement_error(StoreErrorView::Io(text@)),
            ),
        }
    }
}

/// A run after a change to a file.
pub open spec fn process_changed(run: ProcessView, outcome: OutcomeView) -> ProcessView {
    match run.step {
        ProcessStep::DropUnused => match outcome {
            OutcomeView::Failed(text) => process_failed(run, unused_error(text)),
            _ => next_processor(run),
        },
        ProcessStep::DropRejected => match outcome {
            OutcomeView::Failed(text) => process_failed(run, unused_error(text)),
            _ => ProcessView { step: ProcessStep::Discard, ..run },
        },
        ProcessStep::DropStaged => match outcome {
            OutcomeView::Failed(text) => process_failed(
                run,
                replacement_error(StoreErrorView::Io(text)),
            ),
            _ => ProcessView { step: ProcessStep::MoveReplacement, ..run },
        },
        ProcessStep::MoveReplacement => match outcome {
            OutcomeView::Done => next_processor(run),
            _ => process_failed(
                run,
                replacement_error(StoreErrorView::Io(outcome_text(outcome))),
            ),
        },
        ProcessStep::Discard => ProcessView { step: ProcessStep::Finished, ..run },
        _ => run,
    }
}

fn replacement_failure(error: StoreError) -> (result: S3Error)
    ensures
        result@ == replacement_error(error@),
{
    S3Error::internal(
        "failed to replace staged upload: ".to_owned().concat(error.message().as_str()).as_str(),
    )
}

fn unused_failure(text: &str) -> (result: S3Error)
    ensures
        result@ == unused_error(text@),
{
    S3Error::internal(
        "failed to remove unused upload processor replacement file: ".to_owned().concat(
            text,
        ).as_str(),
    )
}

impl ProcessorRun {
    #[verifier::type_invariant]
    spec fn is_valid(self) -> bool {
        &&& self.index <= self.replacement_ids@.len()
        &&& match self.step {
            ProcessStep::Finished => true,
            _ => self.index < self.replacement_ids@.len(),
        }
    }

    /// Begins to run processors over a staged object, with one replacement ID for each of them.
    pub fn new(staged: StagedObject, replacement_ids: Vec<String>) -> (run: Self)
        ensures
            run@ == process_start(staged@, texts(replacement_ids@)),
    {
        let step = if replacement_ids.len() == 0 {
            ProcessStep::Finished
        } else {
            ProcessStep::Ask
        };
        ProcessorRun { staged, replacement_ids, index: 0, step, error: None }
    }

    fn replacement(&self) -> (path: String)
        requires
            self.index < self.replacement_ids@.len(),
        ensures
            path@ == replacement_file(self@),
    {
        self.staged.replacement_path(self.replacement_ids[self.index].as_str())
    }

    fn current(&self) -> (path: String)
        ensures
            path@ == current_file(self@),
    {
        self.staged.path().to_owned()
    }

    /// What is to be done next; nothing where the run is finished.
    pub fn action(&self) -> (action: Option<ProcessAction>)
        ensures
            match action {
                Some(a) => process_action(self@) == Some(a@),
                None => process_action(self@) is None,
            },
    {
        proof {
            use_type_invariant(self);
        }
        match self.step {
            ProcessStep::Ask => Some(
                ProcessAction::Ask {
                    index: self.index,
                    current_path: self.current(),
                    replacement_path: self.replacement(),
                },
            ),
            ProcessStep::DropUnused => Some(
                ProcessAction::File(FileAction::Remove { path: self.replacement() }),
            ),
            ProcessStep::DropRejected => Some(
                ProcessAction::File(FileAction::Remove { path: self.replacement() }),
            ),
            ProcessStep::Inspect => Some(ProcessAction::Inspect { path: self.replacement() }),
            ProcessStep::DropStaged => Some(
                ProcessAction::File(FileAction::Remove { path: self.current() }),
            ),
            ProcessStep::MoveReplacement => Some(
                ProcessAction::File(
                    FileAction::Rename { from: self.replacement(), to: self.current() },
                ),
            ),
            ProcessStep::Discard => Some(
                ProcessAction::File(FileAction::Remove { path: self.current() }),
            ),
            ProcessStep::Finished => None,
        }
    }

    fn advanced(self) -> (run: Self)
        requires
            self.index < self.replacement_ids@.len(),
        ensures
            run@ == next_processor(self@),
    {
        let count: usize = self.replacement_ids.len();
        let index: usize = self.index + 1;
        let step = if index < count {
            ProcessStep::Ask
        } else {
            ProcessStep::Finished
        };
        ProcessorRun { index, step, ..self }
    }

    fn at(self, step: ProcessStep) -> (run: Self)
        requires
            self.index < self.replacement_ids@.len(),
        ensures
            run@ == (ProcessView { step, ..self@ }),
    {
        ProcessorRun { step, ..self }
    }

    fn failed(self, error: S3Error) -> (run: Self)
        requires
            self.index < self.replacement_ids@.len(),
        ensures
            run@ == process_failed(self@, error@),
    {
        ProcessorRun { step: ProcessStep::Discard, error: Some(error), ..self }
    }

    /// Takes in the answer of the processor that was asked.
    pub fn answered(self, answer: Result<UploadProcessorAction, UploadProcessorError>) -> (run:
        Self)
        ensures
            run@ == process_answered(self@, answer),
    {
        proof {
            use_type_invariant(&self);
        }
        match self.step {
            ProcessStep::Ask => match answer {
                Ok(UploadProcessorAction::Keep) => self.at(ProcessStep::DropUnused),
                Ok(UploadProcessorAction::Replace) => self.at(ProcessStep::Inspect),
                Err(error) => ProcessorRun {
                    step: ProcessStep::DropRejected,
                    error: Some(map_processor_error(error)),
                    ..self
                },
            },
            _ => self,
        }
    }

    /// Takes in what is where the replacement should be.
    pub fn inspected(self, found: FoundFile) -> (run: Self)
        ensures
            run@ == process_inspected(self@, found),
    {
        proof {
            use_type_invariant(&self);
        }
        match self.step {
            ProcessStep::Inspect => match found {
                FoundFile::File => self.at(ProcessStep::DropStaged),
                FoundFile::Other(path) => self.failed(
                    replacement_failure(StoreError::InvalidPath(path)),
                ),
                FoundFile::Failed(text) => self.failed(replacement_failure(StoreError::Io(text))),
            },
            _ => self,
        }
    }

    /// Takes in what came of the change to a file that was asked for.
    pub fn changed(self, outcome: FileOutcome) -> (run: Self)
        ensures
            run@ == process_changed(self@, outcome@),
    {
        proof {
            use_type_invariant(&self);
        }
        match self.step {
            ProcessStep::DropUnused => match outcome {
                FileOutcome::Failed(text) => self.failed(unused_failure(text.as_str())),
                _ => self.advanced(),
            },
            ProcessStep::DropRejected => match outcome {
                FileOutcome::Failed(text) => self.failed(unused_failure(text.as_str())),
                _ => self.at(ProcessStep::Discard),
            },
            ProcessStep::DropStaged => match outcome {
                FileOutcome::Failed(text) => self.failed(replacement_failure(StoreError::Io(text))),
                _ => self.at(ProcessStep::MoveReplacement),
            },
            ProcessStep::MoveReplacement => match outcome {
                FileOutcome::Done => self.advanced(),
                _ => self.failed(replacement_failure(StoreError::Io(outcome.into_text()))),
            },
            ProcessStep::Discard => self.at(ProcessStep::Finished),
            _ => self,
        }
    }

    /// The staged object that a finished run leaves, or the error with which it failed.
    pub fn result(self) -> (result: Result<StagedObject, S3Error>)
        ensures
            match result {
                Ok(staged) => self@.error is None && staged@ == self@.staged,
                Err(error) => self@.error == Some(error@),
            },
    {
        match self.error {
            Some(error) => Err(error),
            None => Ok(self.staged),
        }
    }
}

/// An error of a processor is final: whatever comes of what is still asked for, the run fails, no
/// other processor is asked, and the last thing that is done is that the staged bytes are discarded.
pub proof fn law_rejected_uploads_are_discarded(
    run: ProcessView,
    error: UploadProcessorError,
    first: OutcomeView,
    second: OutcomeView,
)
    requires
        run.step == ProcessStep::Ask,
    ensures
        ({
            let rejected = process_answered(run, Err(error));
            let cleaned = process_changed(rejected, first);
            let finished = process_changed(cleaned, second);
            &&& process_action(cleaned) == Some(
                ProcessActionView::File(ActionView::Remove { path: current_file(run) }),
            )
            &&& finished.step == ProcessStep::Finished
            &&& finished.error is Some
            &&& !(first is Failed) ==> finished.error == Some(processor_answer(error@))
        }),
{
}

/// A processor that keeps the bytes leaves them alone: the only file that is touched is the
/// replacement that it was offered, and the next processor sees the same bytes.
pub proof fn law_kept_uploads_are_left_alone(run: ProcessView, outcome: OutcomeView)
    requires
        run.step == ProcessStep::Ask,
        !(outcome is Failed),
    ensures
        ({
            let kept = process_answered(run, Ok(UploadProcessorAction::Keep));
            let next = process_changed(kept, outcome);
            &&& process_action(kept) == Some(
                ProcessActionView::File(ActionView::Remove { path: replacement_file(run) }),
            )
            &&& next == next_processor(run)
            &&& current_file(next) == current_file(run)
        }),
{
}

/// Bytes that a processor replaces are the ones that it wrote to the path that it was offered: they
/// take the place of the staged ones before the next processor is asked.
pub proof fn law_replaced_uploads_take_the_place_of_staged_ones(
    run: ProcessView,
    removed: OutcomeView,
)
    requires
        run.step == ProcessStep::Ask,
        !(removed is Failed),
    ensures
        ({
            let chosen = process_answered(run, Ok(UploadProcessorAction::Replace));
            let seen = process_inspected(chosen, FoundFile::File);
            let gone = process_changed(seen, removed);
            &&& process_action(gone) == Some(
                ProcessActionView::File(
                    ActionView::Rename { from: replacement_file(run), to: current_file(run) },
                ),
            )
            &&& process_changed(gone, OutcomeView::Done) == next_processor(run)
        }),
{
}

} // verus!
