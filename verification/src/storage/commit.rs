//! How an object and its metadata are published together, or not at all.
use crate::s3::types::{BucketName, ObjectKey};
use crate::storage::error::{StoreError, StoreErrorView};
use crate::storage::files::{
    outcome_text, performed, ActionView, FileAction, FileOutcome, OutcomeView,
};
use crate::storage::object::{metadata_file, metadata_path, object_file, object_path};
use crate::storage::staged::staged_in;
use vstd::prelude::*;

verus! {

// ---------------------------------------------------------------------------------------------
// Publishing an object
// ---------------------------------------------------------------------------------------------
/// The files that are touched when an object is published.
#[derive(Debug, PartialEq, Eq)]
pub struct CommitPaths {
    /// The staged bytes.
    pub staged: String,
    /// Where the bytes are published.
    pub object: String,
    /// Where the metadata is published.
    pub metadata: String,
    /// The staged metadata.
    pub staged_metadata: String,
    /// The bytes of the object that is replaced.
    pub object_backup: String,
    /// The metadata of the object that is replaced.
    pub metadata_backup: String,
}

/// A [`CommitPaths`] as a mathematical value.
#[verifier::ext_equal]
pub struct PathsView {
    pub staged: Seq<char>,
    pub object: Seq<char>,
    pub metadata: Seq<char>,
    pub staged_metadata: Seq<char>,
    pub object_backup: Seq<char>,
    pub metadata_backup: Seq<char>,
}

impl View for CommitPaths {
    type V = PathsView;

    open spec fn view(&self) -> PathsView {
        PathsView {
            staged: self.staged@,
            object: self.object@,
            metadata: self.metadata@,
            staged_metadata: self.staged_metadata@,
            object_backup: self.object_backup@,
            metadata_backup: self.metadata_backup@,
        }
    }
}

/// The files that are touched when the object staged under an ID is published.
pub open spec fn commit_files(
    temp_id: Seq<char>,
    staged: Seq<char>,
    bucket: Seq<char>,
    key: Seq<char>,
) -> PathsView {
    PathsView {
        staged,
        object: object_file(bucket, key),
        metadata: metadata_file(bucket, key),
        staged_metadata: "tmp/"@ + temp_id + ".metadata.json"@,
        object_backup: "tmp/"@ + temp_id + ".object.rollback.tmp"@,
        metadata_backup: "tmp/"@ + temp_id + ".metadata.rollback.tmp"@,
    }
}

fn temp_file(temp_id: &str, suffix: &str) -> (path: String)
    ensures
        path@ == "tmp/"@ + temp_id@ + suffix@,
{
    let mut path = "tmp/".to_owned();
    path.append(temp_id);
    path.append(suffix);
    path
}

impl CommitPaths {
    /// Names the files that are touched when the object staged under an ID is published.
    pub fn new(temp_id: &str, staged: String, bucket: &BucketName, key: &ObjectKey) -> (paths: Self)
        ensures
            paths@ == commit_files(temp_id@, staged@, bucket@, key@),
    {
        CommitPaths {
            staged,
            object: object_path(bucket, key),
            metadata: metadata_path(bucket, key),
            staged_metadata: temp_file(temp_id, ".metadata.json"),
            object_backup: temp_file(temp_id, ".object.rollback.tmp"),
            metadata_backup: temp_file(temp_id, ".metadata.rollback.tmp"),
        }
    }
}

/// Where the publication of an object stands.
#[derive(Clone, Copy, Debug, PartialEq, Eq, Structural)]
pub enum CommitStep {
    /// The object's directory is created.
    CreateObjectParent,
    /// The metadata's directory is created.
    CreateMetadataParent,
    /// The metadata is staged.
    StageMetadata,
    /// The object that is replaced is kept.
    BackUpObject,
    /// The metadata that is replaced is kept.
    BackUpMetadata,
    /// The object is published.
    PublishObject,
    /// The metadata is published.
    PublishMetadata,
    /// The published object is taken back.
    UndoObject,
    /// The object that was replaced is restored.
    RestoreObject,
    /// The published metadata is taken back.
    UndoMetadata,
    /// The metadata that was replaced is restored.
    RestoreMetadata,
    /// The kept object is dropped.
    DropObjectBackup,
    /// The kept metadata is dropped.
    DropMetadataBackup,
    /// After a failure: the staged bytes are removed.
    CleanStaged,
    /// After a failure: the staged metadata is removed.
    CleanStagedMetadata,
    /// After a failure: the kept object is removed.
    CleanObjectBackup,
    /// After a failure: the kept metadata is removed.
    CleanMetadataBackup,
    /// Nothing is left to do.
    Finished,
}

/// How far a step is from the end.
pub open spec fn steps_left(step: CommitStep) -> nat {
    match step {
        CommitStep::CreateObjectParent => 17,
        CommitStep::CreateMetadataParent => 16,
        CommitStep::StageMetadata => 15,
        CommitStep::BackUpObject => 14,
        CommitStep::BackUpMetadata => 13,
        CommitStep::PublishObject => 12,
        CommitStep::PublishMetadata => 11,
        CommitStep::UndoObject => 10,
        CommitStep::RestoreObject => 9,
        CommitStep::UndoMetadata => 8,
        CommitStep::RestoreMetadata => 7,
        CommitStep::DropObjectBackup => 6,
        CommitStep::DropMetadataBackup => 5,
        CommitStep::CleanStaged => 4,
        CommitStep::CleanStagedMetadata => 3,
        CommitStep::CleanObjectBackup => 2,
        CommitStep::CleanMetadataBackup => 1,
        CommitStep::Finished => 0,
    }
}

/// The publication of an object, step by step.
#[derive(Debug)]
pub struct ObjectCommit {
    paths: CommitPaths,
    json: Vec<u8>,
    step: CommitStep,
    had_object: bool,
    had_metadata: bool,
    error: Option<StoreError>,
}

/// An [`ObjectCommit`] as a mathematical value.
#[verifier::ext_equal]
pub struct CommitView {
    pub paths: PathsView,
    pub json: Seq<u8>,
    pub step: CommitStep,
    pub had_object: bool,
    pub had_metadata: bool,
    pub error: Option<StoreErrorView>,
}

/// The view of an optional error.
pub open spec fn opt_error(error: Option<StoreError>) -> Option<StoreErrorView> {
    match error {
        Some(e) => Some(e@),
        None => None,
    }
}

impl View for ObjectCommit {
    type V = CommitView;

    closed spec fn view(&self) -> CommitView {
        CommitView {
            paths: self.paths@,
            json: self.json@,
            step: self.step,
            had_object: self.had_object,
            had_metadata: self.had_metadata,
            error: opt_error(self.error),
        }
    }
}

/// A publication that has not begun.
pub open spec fn commit_start(paths: PathsView, json: Seq<u8>) -> CommitView {
    CommitView {
        paths,
        json,
        step: CommitStep::CreateObjectParent,
        had_object: false,
        had_metadata: false,
        error: None,
    }
}

/// The change that a publication asks for next.
pub open spec fn commit_action(c: CommitView) -> Option<ActionView> {
    match c.step {
        CommitStep::CreateObjectParent => Some(ActionView::CreateParent { path: c.paths.object }),
        CommitStep::CreateMetadataParent => Some(
            ActionView::CreateParent { path: c.paths.metadata },
        ),
        CommitStep::StageMetadata => Some(
            ActionView::Write { path: c.paths.staged_metadata, contents: c.json },
        ),
        CommitStep::BackUpObject => Some(
            ActionView::HardLink { from: c.paths.object, to: c.paths.object_backup },
        ),
        CommitStep::BackUpMetadata => Some(
            ActionView::HardLink { from: c.paths.metadata, to: c.paths.metadata_backup },
        ),
        CommitStep::PublishObject => Some(
            ActionView::Rename { from: c.paths.staged, to: c.paths.object },
        ),
        CommitStep::PublishMetadata => Some(
            ActionView::Rename { from: c.paths.staged_metadata, to: c.paths.metadata },
        ),
        CommitStep::UndoObject => Some(ActionView::Remove { path: c.paths.object }),
        CommitStep::RestoreObject => Some(
            ActionView::Rename { from: c.paths.object_backup, to: c.paths.object },
        ),
        CommitStep::UndoMetadata => Some(ActionView::Remove { path: c.paths.metadata }),
        CommitStep::RestoreMetadata => Some(
            ActionView::Rename { from: c.paths.metadata_backup, to: c.paths.metadata },
        ),
        CommitStep::DropObjectBackup => Some(ActionView::Remove { path: c.paths.object_backup }),
        CommitStep::DropMetadataBackup => Some(
            ActionView::Remove { path: c.paths.metadata_backup },
        ),
        CommitStep::CleanStaged => Some(ActionView::Remove { path: c.paths.staged }),
        CommitStep::CleanStagedMetadata => Some(
            ActionView::Remove { path: c.paths.staged_metadata },
        ),
        CommitStep::CleanObjectBackup => Some(ActionView::Remove { path: c.paths.object_backup }),
        CommitStep::CleanMetadataBackup => Some(
            ActionView::Remove { path: c.paths.metadata_backup },
        ),
        CommitStep::Finished => None,
    }
}

/// Whether an outcome lets a publication go on. A backup of a file that does not exist is not
/// needed, and a file that does not exist need not be removed.
pub open spec fn lets_go_on(step: CommitStep, outcome: OutcomeView) -> bool {
    outcome is Done || (outcome is Missing && (step is BackUpObject || step is BackUpMetadata
        || step is DropObjectBackup || step is DropMetadataBackup))
}

/// The step after one that went well. What is undone, restored or cleaned after a failure goes on
/// whatever comes of it.
pub open spec fn step_after(c: CommitView) -> CommitStep {
    match c.step {
        CommitStep::CreateObjectParent => CommitStep::CreateMetadataParent,
        CommitStep::CreateMetadataParent => CommitStep::StageMetadata,
        CommitStep::StageMetadata => CommitStep::BackUpObject,
        CommitStep::BackUpObject => CommitStep::BackUpMetadata,
        CommitStep::BackUpMetadata => CommitStep::PublishObject,
        CommitStep::PublishObject => CommitStep::PublishMetadata,
        CommitStep::PublishMetadata => after_publication(c.had_object, c.had_metadata),
        CommitStep::UndoObject => if c.had_object {
            CommitStep::RestoreObject
        } else {
            CommitStep::UndoMetadata
        },
        CommitStep::RestoreObject => CommitStep::UndoMetadata,
        CommitStep::UndoMetadata => if c.had_metadata {
            CommitStep::RestoreMetadata
        } else {
            CommitStep::CleanStaged
        },
        CommitStep::RestoreMetadata => CommitStep::CleanStaged,
        CommitStep::DropObjectBackup => if c.had_metadata {
            CommitStep::DropMetadataBackup
        } else {
            CommitStep::Finished
        },
        CommitStep::DropMetadataBackup => CommitStep::Finished,
        CommitStep::CleanStaged => CommitStep::CleanStagedMetadata,
        CommitStep::CleanStagedMetadata => CommitStep::CleanObjectBackup,
        CommitStep::CleanObjectBackup => CommitStep::CleanMetadataBackup,
        CommitStep::CleanMetadataBackup => CommitStep::Finished,
        CommitStep::Finished => CommitStep::Finished,
    }
}

/// The step after both files are published: the kept files are dropped.
pub open spec fn after_publication(had_object: bool, had_metadata: bool) -> CommitStep {
    if had_object {
        CommitStep::DropObjectBackup
    } else if had_metadata {
        CommitStep::DropMetadataBackup
    } else {
        CommitStep::Finished
    }
}

/// Whether a step belongs to undoing, restoring or cleaning, where failures are not minded.
pub open spec fn is_best_effort(step: CommitStep) -> bool {
    step is UndoObject || step is RestoreObject || step is UndoMetadata || step is RestoreMetadata
        || step is CleanStaged || step is CleanStagedMetadata || step is CleanObjectBackup || step
        is CleanMetadataBackup || step is Finished
}

/// A publication after the outcome of a step.
pub open spec fn commit_next(c: CommitView, outcome: OutcomeView) -> CommitView {
    if is_best_effort(c.step) {
        CommitView { step: step_after(c), ..c }
    } else if lets_go_on(c.step, outcome) {
        CommitView {
            step: step_after(c),
            had_object: if c.step is BackUpObject {
                outcome is Done
            } else {
                c.had_object
            },
            had_metadata: if c.step is BackUpMetadata {
                outcome is Done
            } else {
                c.had_metadata
            },
            ..c
        }
    } else {
        CommitView {
            step: if c.step is PublishMetadata {
                CommitStep::UndoObject
            } else {
                CommitStep::CleanStaged
            },
            error: Some(StoreErrorView::Io(outcome_text(outcome))),
            ..c
        }
    }
}

fn copy_bytes(bytes: &Vec<u8>) -> (copy: Vec<u8>)
    ensures
        copy@ == bytes@,
{
    vstd::slice::slice_to_vec(bytes.as_slice())
}

impl ObjectCommit {
    /// Begins to publish staged bytes with their metadata.
    pub fn new(paths: CommitPaths, json: Vec<u8>) -> (commit: Self)
        ensures
            commit@ == commit_start(paths@, json@),
    {
        ObjectCommit {
            paths,
            json,
            step: CommitStep::CreateObjectParent,
            had_object: false,
            had_metadata: false,
            error: None,
        }
    }

    /// The change that is to be made next; nothing where the publication is finished.
    pub fn action(&self) -> (action: Option<FileAction>)
        ensures
            match action {
                Some(a) => commit_action(self@) == Some(a@),
                None => commit_action(self@) is None,
            },
    {
        let p = &self.paths;
        match self.step {
            CommitStep::CreateObjectParent => Some(
                FileAction::CreateParent { path: p.object.clone() },
            ),
            CommitStep::CreateMetadataParent => Some(
                FileAction::CreateParent { path: p.metadata.clone() },
            ),
            CommitStep::StageMetadata => Some(
                FileAction::Write {
                    path: p.staged_metadata.clone(),
                    contents: copy_bytes(&self.json),
                },
            ),
            CommitStep::BackUpObject => Some(
                FileAction::HardLink { from: p.object.clone(), to: p.object_backup.clone() },
            ),
            CommitStep::BackUpMetadata => Some(
                FileAction::HardLink { from: p.metadata.clone(), to: p.metadata_backup.clone() },
            ),
            CommitStep::PublishObject => Some(
                FileAction::Rename { from: p.staged.clone(), to: p.object.clone() },
            ),
            CommitStep::PublishMetadata => Some(
                FileAction::Rename { from: p.staged_metadata.clone(), to: p.metadata.clone() },
            ),
            CommitStep::UndoObject => Some(FileAction::Remove { path: p.object.clone() }),
            CommitStep::RestoreObject => Some(
                FileAction::Rename { from: p.object_backup.clone(), to: p.object.clone() },
            ),
            CommitStep::UndoMetadata => Some(FileAction::Remove { path: p.metadata.clone() }),
            CommitStep::RestoreMetadata => Some(
                FileAction::Rename { from: p.metadata_backup.clone(), to: p.metadata.clone() },
            ),
            CommitStep::DropObjectBackup => Some(
                FileAction::Remove { path: p.object_backup.clone() },
            ),
            CommitStep::DropMetadataBackup => Some(
                FileAction::Remove { path: p.metadata_backup.clone() },
            ),
            CommitStep::CleanStaged => Some(FileAction::Remove { path: p.staged.clone() }),
            CommitStep::CleanStagedMetadata => Some(
                FileAction::Remove { path: p.staged_metadata.clone() },
            ),
            CommitStep::CleanObjectBackup => Some(
                FileAction::Remove { path: p.object_backup.clone() },
            ),
            CommitStep::CleanMetadataBackup => Some(
                FileAction::Remove { path: p.metadata_backup.clone() },
            ),
            CommitStep::Finished => None,
        }
    }

    fn following(&self) -> (step: CommitStep)
        ensures
            step == step_after(self@),
    {
        match self.step {
            CommitStep::CreateObjectParent => CommitStep::CreateMetadataParent,
            CommitStep::CreateMetadataParent => CommitStep::StageMetadata,
            CommitStep::StageMetadata => CommitStep::BackUpObject,
            CommitStep::BackUpObject => CommitStep::BackUpMetadata,
            CommitStep::BackUpMetadata => CommitStep::PublishObject,
            CommitStep::PublishObject => CommitStep::PublishMetadata,
            CommitStep::PublishMetadata => {
                if self.had_object {
                    CommitStep::DropObjectBackup
                } else if self.had_metadata {
                    CommitStep::DropMetadataBackup
                } else {
                    CommitStep::Finished
                }
            },
            CommitStep::UndoObject => {
                if self.had_object {
                    CommitStep::RestoreObject
                } else {
                    CommitStep::UndoMetadata
                }
            },
            CommitStep::RestoreObject => CommitStep::UndoMetadata,
            CommitStep::UndoMetadata => {
                if self.had_metadata {
                    CommitStep::RestoreMetadata
                } else {
                    CommitStep::CleanStaged
                }
            },
            CommitStep::RestoreMetadata => CommitStep::CleanStaged,
            CommitStep::DropObjectBackup => {
                if self.had_metadata {
                    CommitStep::DropMetadataBackup
                } else {
                    CommitStep::Finished
                }
            },
            CommitStep::DropMetadataBackup => CommitStep::Finished,
            CommitStep::CleanStaged => CommitStep::CleanStagedMetadata,
            CommitStep::CleanStagedMetadata => CommitStep::CleanObjectBackup,
            CommitStep::CleanObjectBackup => CommitStep::CleanMetadataBackup,
            CommitStep::CleanMetadataBackup => CommitStep::Finished,
            CommitStep::Finished => CommitStep::Finished,
        }
    }

    /// Takes in what came of the change that was asked for.
    pub fn report(&mut self, outcome: FileOutcome)
        ensures
            final(self)@ == commit_next(old(self)@, outcome@),
            old(self)@.step != CommitStep::Finished ==> steps_left(final(self)@.step) < steps_left(
                old(self)@.step,
            ),
    {
        let next = self.following();
        let best_effort = match self.step {
            CommitStep::UndoObject => true,
            CommitStep::RestoreObject => true,
            CommitStep::UndoMetadata => true,
            CommitStep::RestoreMetadata => true,
            CommitStep::CleanStaged => true,
            CommitStep::CleanStagedMetadata => true,
            CommitStep::CleanObjectBackup => true,
            CommitStep::CleanMetadataBackup => true,
            CommitStep::Finished => true,
            _ => false,
        };
        if best_effort {
            self.step = next;
            return;
        }
        let done = match &outcome {
            FileOutcome::Done => true,
            _ => false,
        };
        let missing = match &outcome {
            FileOutcome::Missing => true,
            _ => false,
        };
        let may_miss = match self.step {
            CommitStep::BackUpObject => true,
            CommitStep::BackUpMetadata => true,
            CommitStep::DropObjectBackup => true,
            CommitStep::DropMetadataBackup => true,
            _ => false,
        };
        if done || (missing && may_miss) {
            match self.step {
                CommitStep::BackUpObject => {
                    self.had_object = done;
                },
                CommitStep::BackUpMetadata => {
                    self.had_metadata = done;
                },
                _ => {},
            }
            self.step = next;
        } else {
            let publishing = match self.step {
                CommitStep::PublishMetadata => true,
                _ => false,
            };
            self.error = Some(StoreError::Io(outcome.into_text()));
            self.step = if publishing {
                CommitStep::UndoObject
            } else {
                CommitStep::CleanStaged
            };
        }
    }

    /// The outcome of a publication that is finished.
    pub fn result(self) -> (result: Result<(), StoreError>)
        ensures
            match result {
                Ok(()) => self@.error is None,
                Err(error) => self@.error == Some(error@),
            },
    {
        match self.error {
            None => Ok(()),
            Some(error) => Err(error),
        }
    }
}

/// What comes of a publication on files that behave, but for one step that fails and changes
/// nothing.
pub open spec fn commit_run(
    c: CommitView,
    files: Map<Seq<char>, Seq<u8>>,
    fault: Option<CommitStep>,
) -> (CommitView, Map<Seq<char>, Seq<u8>>)
    decreases steps_left(c.step),
{
    match commit_action(c) {
        None => (c, files),
        Some(action) => if fault == Some(c.step) {
            commit_run(commit_next(c, OutcomeView::Failed("fault"@)), files, fault)
        } else {
            let (outcome, changed) = performed(action, files);
            commit_run(commit_next(c, outcome), changed, fault)
        },
    }
}

/// Whether all files of a publication have names of their own.
pub open spec fn paths_differ(paths: PathsView) -> bool {
    &&& paths.staged != paths.object
    &&& paths.staged != paths.metadata
    &&& paths.staged != paths.staged_metadata
    &&& paths.staged != paths.object_backup
    &&& paths.staged != paths.metadata_backup
    &&& paths.object != paths.metadata
    &&& paths.object != paths.staged_metadata
    &&& paths.object != paths.object_backup
    &&& paths.object != paths.metadata_backup
    &&& paths.metadata != paths.staged_metadata
    &&& paths.metadata != paths.object_backup
    &&& paths.metadata != paths.metadata_backup
    &&& paths.staged_metadata != paths.object_backup
    &&& paths.staged_metadata != paths.metadata_backup
    &&& paths.object_backup != paths.metadata_backup
}

/// Whether a publication can start: the bytes are staged, and no other temporary file is there.
pub open spec fn can_commit(paths: PathsView, files: Map<Seq<char>, Seq<u8>>) -> bool {
    &&& paths_differ(paths)
    &&& files.dom().contains(paths.staged)
    &&& !files.dom().contains(paths.staged_metadata)
    &&& !files.dom().contains(paths.object_backup)
    &&& !files.dom().contains(paths.metadata_backup)
}

/// The files once an object is published.
pub open spec fn published(
    paths: PathsView,
    json: Seq<u8>,
    files: Map<Seq<char>, Seq<u8>>,
) -> Map<Seq<char>, Seq<u8>> {
    files.remove(paths.staged).insert(paths.object, files[paths.staged]).insert(
        paths.metadata,
        json,
    )
}

/// A publication in which nothing fails succeeds: the object and its metadata are there, and no
/// temporary file is left.
#[verifier::rlimit(60)]
pub proof fn law_commits_publish_the_object(
    paths: PathsView,
    json: Seq<u8>,
    files: Map<Seq<char>, Seq<u8>>,
)
    requires
        can_commit(paths, files),
    ensures
        ({
            let (c, after) = commit_run(commit_start(paths, json), files, None);
            &&& c.step == CommitStep::Finished
            &&& c.error is None
            &&& after == published(paths, json, files)
        }),
{
    reveal_with_fuel(commit_run, 10);
    let (c, after) = commit_run(commit_start(paths, json), files, None);
    assert(after =~= published(paths, json, files));
}

/// A publication in which one step fails is all or nothing. Up to the publication of the metadata,
/// nothing but the staged bytes is gone; later, the object and its metadata are there. No temporary
/// file is left either way, and the failure is reported where the publication needed the step.
#[verifier::rlimit(100)]
pub proof fn law_commits_are_all_or_nothing(
    paths: PathsView,
    json: Seq<u8>,
    files: Map<Seq<char>, Seq<u8>>,
    fault: CommitStep,
)
    requires
        can_commit(paths, files),
        !is_best_effort(fault),
    ensures
        ({
            let (c, after) = commit_run(commit_start(paths, json), files, Some(fault));
            &&& c.step == CommitStep::Finished
            &&& if fault == CommitStep::DropObjectBackup || fault
                == CommitStep::DropMetadataBackup {
                &&& after == published(paths, json, files)
                &&& c.error is Some <==> files.dom().contains(
                    if fault == CommitStep::DropObjectBackup {
                        paths.object
                    } else {
                        paths.metadata
                    },
                )
            } else {
                &&& after == files.remove(paths.staged)
                &&& c.error is Some
            }
        }),
{
    reveal_with_fuel(commit_run, 18);
    let (c, after) = commit_run(commit_start(paths, json), files, Some(fault));
    if fault == CommitStep::DropObjectBackup || fault == CommitStep::DropMetadataBackup {
        assert(after =~= published(paths, json, files));
    } else {
        assert(after =~= files.remove(paths.staged));
    }
}

/// The files of a publication have names of their own, whatever the object and the ID under which
/// its bytes are staged.
pub proof fn law_commit_files_differ(temp_id: Seq<char>, bucket: Seq<char>, key: Seq<char>)
    ensures
        paths_differ(commit_files(temp_id, staged_in("tmp"@, temp_id), bucket, key)),
{
    reveal_strlit("objects/");
    reveal_strlit("metadata/");
    reveal_strlit("tmp");
    reveal_strlit("/");
    reveal_strlit("tmp/");
    reveal_strlit(".part");
    reveal_strlit(".metadata.json");
    reveal_strlit(".object.rollback.tmp");
    reveal_strlit(".metadata.rollback.tmp");
    let paths = commit_files(temp_id, staged_in("tmp"@, temp_id), bucket, key);
    assert(paths.object[0] == 'o');
    assert(paths.metadata[0] == 'm');
    assert(paths.staged[0] == 't');
    assert(paths.staged_metadata[0] == 't');
    assert(paths.object_backup[0] == 't');
    assert(paths.metadata_backup[0] == 't');
    assert(paths.staged.len() == temp_id.len() + 9);
    assert(paths.staged_metadata.len() == temp_id.len() + 18);
    assert(paths.object_backup.len() == temp_id.len() + 24);
    assert(paths.metadata_backup.len() == temp_id.len() + 26);
}

} // verus!
