//! Publishing an object, from the staged file to the last clean-up: which step follows which, and
//! what is undone where one fails. The steps themselves are carried out by whoever runs the
//! endpoint.
use crate::storage::model::UploadState;
use vstd::prelude::*;

verus! {

/// Where the bytes of an object come from.
#[derive(Clone, Copy, Debug, PartialEq, Eq, Structural)]
pub enum UploadSource {
    /// From the body of a single request.
    Body {
        /// Whether upload processors are registered.
        processed: bool,
    },
    /// From the parts of a multipart upload.
    Parts,
}

/// A step on the way to a published object.
#[derive(Clone, Copy, Debug, PartialEq, Eq, Structural)]
pub enum PublicationStep {
    /// Find the parts of the object.
    Validate,
    /// Create a staged file.
    Stage,
    /// Fill the staged file.
    Fill,
    /// Run the upload processors; where that fails, they dispose of the staged file.
    Process,
    /// Read the staged file again for its size and digests.
    Summarize,
    /// Make the metadata of the object.
    Describe,
    /// Publish the staged file and the metadata; where that fails, the staged file is gone.
    Commit,
    /// Remove the staged file.
    Discard,
    /// Record that the upload is completed.
    MarkCompleted,
    /// Remove the session of the upload and forget it.
    RemoveSession,
    /// Remove the files of the upload.
    RemoveFiles,
    /// Open the upload again.
    Restore,
    /// Nothing more is done.
    Done,
}

/// The publication of an object.
pub struct Publication<E> {
    /// Where its bytes come from.
    pub source: UploadSource,
    /// The step that is due.
    pub step: PublicationStep,
    /// The error of the step that failed, if any did.
    pub error: Option<E>,
}

/// The first step.
pub open spec fn first_step(source: UploadSource) -> PublicationStep {
    match source {
        UploadSource::Body { .. } => PublicationStep::Stage,
        UploadSource::Parts => PublicationStep::Validate,
    }
}

/// The step after the staged file is out of the way and nothing was published.
pub open spec fn step_given_up(source: UploadSource) -> PublicationStep {
    match source {
        UploadSource::Body { .. } => PublicationStep::Done,
        UploadSource::Parts => PublicationStep::Restore,
    }
}

/// The step after one that was carried out. Processors may have changed the staged file, so it is
/// read again after them; where there can be none, its size and digests are known already.
pub open spec fn step_on_success(source: UploadSource, step: PublicationStep) -> PublicationStep {
    match step {
        PublicationStep::Validate => PublicationStep::Stage,
        PublicationStep::Stage => PublicationStep::Fill,
        PublicationStep::Fill => if source == (UploadSource::Body { processed: false }) {
            PublicationStep::Describe
        } else {
            PublicationStep::Process
        },
        PublicationStep::Process => PublicationStep::Summarize,
        PublicationStep::Summarize => PublicationStep::Describe,
        PublicationStep::Describe => PublicationStep::Commit,
        PublicationStep::Commit => match source {
            UploadSource::Body { .. } => PublicationStep::Done,
            UploadSource::Parts => PublicationStep::MarkCompleted,
        },
        PublicationStep::Discard => step_given_up(source),
        PublicationStep::MarkCompleted => PublicationStep::RemoveSession,
        PublicationStep::RemoveSession => PublicationStep::RemoveFiles,
        PublicationStep::RemoveFiles => PublicationStep::Done,
        PublicationStep::Restore => PublicationStep::Done,
        PublicationStep::Done => PublicationStep::Done,
    }
}

/// Whether a publication goes on as if nothing had happened where a step fails.
pub open spec fn is_optional(step: PublicationStep) -> bool {
    match step {
        PublicationStep::Discard => true,
        PublicationStep::MarkCompleted => true,
        PublicationStep::RemoveSession => true,
        PublicationStep::RemoveFiles => true,
        PublicationStep::Restore => true,
        PublicationStep::Done => true,
        _ => false,
    }
}

/// The step after one that failed.
pub open spec fn step_on_failure(source: UploadSource, step: PublicationStep) -> PublicationStep {
    match step {
        PublicationStep::Fill => PublicationStep::Discard,
        PublicationStep::Summarize => PublicationStep::Discard,
        PublicationStep::Describe => PublicationStep::Discard,
        _ => step_given_up(source),
    }
}

/// A publication after a step.
pub open spec fn publication_next<E>(p: Publication<E>, result: Result<(), E>) -> Publication<E> {
    match result {
        Err(error) if !is_optional(p.step) => Publication {
            step: step_on_failure(p.source, p.step),
            error: Some(error),
            ..p
        },
        _ => Publication { step: step_on_success(p.source, p.step), ..p },
    }
}

impl<E> Publication<E> {
    /// Starts to publish an object.
    pub fn new(source: UploadSource) -> (publication: Self)
        ensures
            publication == (Publication::<E> { source, step: first_step(source), error: None }),
    {
        let step = match source {
            UploadSource::Body { processed: _ } => PublicationStep::Stage,
            UploadSource::Parts => PublicationStep::Validate,
        };
        Publication { source, step, error: None }
    }

    /// The step that is due, if any.
    pub fn due(&self) -> (step: Option<PublicationStep>)
        ensures
            step == if self.step == PublicationStep::Done {
                None
            } else {
                Some(self.step)
            },
    {
        match self.step {
            PublicationStep::Done => None,
            step => Some(step),
        }
    }

    fn given_up(&self) -> (step: PublicationStep)
        ensures
            step == step_given_up(self.source),
    {
        match self.source {
            UploadSource::Body { processed: _ } => PublicationStep::Done,
            UploadSource::Parts => PublicationStep::Restore,
        }
    }

    fn succeeded(&self) -> (step: PublicationStep)
        ensures
            step == step_on_success(self.source, self.step),
    {
        match self.step {
            PublicationStep::Validate => PublicationStep::Stage,
            PublicationStep::Stage => PublicationStep::Fill,
            PublicationStep::Fill => match self.source {
                UploadSource::Body { processed: false } => PublicationStep::Describe,
                _ => PublicationStep::Process,
            },
            PublicationStep::Process => PublicationStep::Summarize,
            PublicationStep::Summarize => PublicationStep::Describe,
            PublicationStep::Describe => PublicationStep::Commit,
            PublicationStep::Commit => match self.source {
                UploadSource::Body { processed: _ } => PublicationStep::Done,
                UploadSource::Parts => PublicationStep::MarkCompleted,
            },
            PublicationStep::Discard => self.given_up(),
            PublicationStep::MarkCompleted => PublicationStep::RemoveSession,
            PublicationStep::RemoveSession => PublicationStep::RemoveFiles,
            PublicationStep::RemoveFiles => PublicationStep::Done,
            PublicationStep::Restore => PublicationStep::Done,
            PublicationStep::Done => PublicationStep::Done,
        }
    }

    /// Goes on after a step.
    pub fn report(self, result: Result<(), E>) -> (publication: Self)
        ensures
            publication == publication_next(self, result),
    {
        let error = match result {
            Ok(()) => {
                return Publication { step: self.succeeded(), ..self };
            },
            Err(error) => error,
        };
        match self.step {
            PublicationStep::Fill | PublicationStep::Summarize | PublicationStep::Describe => {
                Publication {
                    source: self.source,
                    step: PublicationStep::Discard,
                    error: Some(error),
                }
            },
            PublicationStep::Validate | PublicationStep::Stage | PublicationStep::Process
            | PublicationStep::Commit => Publication {
                source: self.source,
                step: self.given_up(),
                error: Some(error),
            },
            _ => Publication { step: self.succeeded(), ..self },
        }
    }

    /// The outcome.
    pub fn result(self) -> (result: Result<(), E>)
        ensures
            result == match self.error {
                Some(error) => Err(error),
                None => Ok(()),
            },
    {
        match self.error {
            Some(error) => Err(error),
            None => Ok(()),
        }
    }
}

// ---------------------------------------------------------------------------------------------
// Whole publications
// ---------------------------------------------------------------------------------------------
/// What there is while an object is published.
pub struct Progress {
    /// Whether a staged file is at hand.
    pub staged: bool,
    /// Whether the commit of the object succeeded.
    pub committed: bool,
    /// The state of the multipart upload, as long as it is known.
    pub upload: Option<UploadState>,
}

/// What there is after a step that was carried out or failed.
pub open spec fn progress_after(step: PublicationStep, done: bool, p: Progress) -> Progress {
    match step {
        PublicationStep::Stage => Progress { staged: done, ..p },
        PublicationStep::Process => Progress { staged: done && p.staged, ..p },
        PublicationStep::Commit => Progress { staged: false, committed: done, ..p },
        PublicationStep::Discard => Progress { staged: !done && p.staged, ..p },
        PublicationStep::MarkCompleted => Progress { upload: Some(UploadState::Completed), ..p },
        PublicationStep::RemoveSession => Progress { upload: None, ..p },
        PublicationStep::Restore => Progress { upload: Some(UploadState::Open), ..p },
        _ => p,
    }
}

/// How many steps are left at most.
pub open spec fn steps_left(step: PublicationStep) -> nat {
    match step {
        PublicationStep::Validate => 10,
        PublicationStep::Stage => 9,
        PublicationStep::Fill => 8,
        PublicationStep::Process => 7,
        PublicationStep::Summarize => 6,
        PublicationStep::Describe => 5,
        PublicationStep::Commit => 4,
        PublicationStep::Discard => 3,
        PublicationStep::MarkCompleted => 3,
        PublicationStep::RemoveSession => 2,
        PublicationStep::RemoveFiles => 1,
        PublicationStep::Restore => 1,
        PublicationStep::Done => 0,
    }
}

/// What a publication comes to where the steps have given outcomes.
pub open spec fn publication_run<E>(
    p: Publication<E>,
    progress: Progress,
    outcomes: spec_fn(PublicationStep) -> Result<(), E>,
) -> (Publication<E>, Progress)
    decreases steps_left(p.step),
{
    if p.step == PublicationStep::Done {
        (p, progress)
    } else {
        publication_run(
            publication_next(p, outcomes(p.step)),
            progress_after(p.step, outcomes(p.step) is Ok, progress),
            outcomes,
        )
    }
}

/// Publications are all or nothing, whatever fails: no error is reported exactly where the object
/// was committed. Then a multipart upload is gone; otherwise it is open again. No staged file is
/// left, except where its removal fails.
pub proof fn law_publications_are_all_or_nothing<E>(
    source: UploadSource,
    outcomes: spec_fn(PublicationStep) -> Result<(), E>,
)
    ensures
        ({
            let start = Publication::<E> { source, step: first_step(source), error: None };
            let before = Progress {
                staged: false,
                committed: false,
                upload: match source {
                    UploadSource::Body { .. } => None,
                    UploadSource::Parts => Some(UploadState::Completing),
                },
            };
            let (end, after) = publication_run(start, before, outcomes);
            &&& end.step == PublicationStep::Done
            &&& after.committed == (end.error is None)
            &&& after.upload == if source == UploadSource::Parts && end.error is Some {
                Some(UploadState::Open)
            } else {
                None
            }
            &&& outcomes(PublicationStep::Discard) is Ok ==> !after.staged
        }),
{
    reveal_with_fuel(publication_run, 12);
}

/// The error that is reported is that of the step that failed.
pub proof fn law_publications_report_what_failed<E>(
    source: UploadSource,
    progress: Progress,
    outcomes: spec_fn(PublicationStep) -> Result<(), E>,
)
    ensures
        ({
            let start = Publication::<E> { source, step: first_step(source), error: None };
            let end = publication_run(start, progress, outcomes).0;
            end.error is Some ==> exists|step: PublicationStep|
                !is_optional(step) && #[trigger] outcomes(step) == Err::<(), E>(end.error->0)
        }),
{
    reveal_with_fuel(publication_run, 12);
}

} // verus!
