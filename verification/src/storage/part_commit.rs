//! How the parts and the sessions of multipart uploads are published.
use crate::storage::commit::opt_error;
use crate::storage::error::{StoreError, StoreErrorView};
use crate::storage::files::{
    outcome_text, performed, ActionView, FileAction, FileOutcome, OutcomeView,
};
use crate::text::opt_text;
use vstd::prelude::*;

verus! {

// ---------------------------------------------------------------------------------------------
// Publishing a part
// ---------------------------------------------------------------------------------------------
/// What the publication of a part asks for.
#[derive(Debug)]
pub enum PartAction {
    /// A change to a file.
    File(FileAction),
    /// Store the part in the session, where the upload is still open.
    Record,
    /// Write the session.
    Persist,
    /// Take the part back in the session.
    TakeBack,
}

/// A [`PartAction`] as a mathematical value.
#[verifier::ext_equal]
pub enum PartActionView {
    File(ActionView),
    Record,
    Persist,
    TakeBack,
}

impl View for PartAction {
    type V = PartActionView;

    open spec fn view(&self) -> PartActionView {
        match self {
            PartAction::File(action) => PartActionView::File(action@),
            PartAction::Record => PartActionView::Record,
            PartAction::Persist => PartActionView::Persist,
            PartAction::TakeBack => PartActionView::TakeBack,
        }
    }
}

/// Where the publication of a part stands.
#[derive(Clone, Copy, Debug, PartialEq, Eq, Structural)]
pub enum PartStep {
    /// The directory of the parts is created.
    CreateParent,
    /// The part that is replaced is kept.
    BackUp,
    /// The part is published.
    Publish,
    /// The part is stored in the session.
    Record,
    /// The session is written.
    Persist,
    /// After a failure: the published part is removed.
    Undo,
    /// After a failure: the part that was replaced is restored.
    Restore,
    /// After a failure: the part is taken back in the session.
    TakeBack,
    /// The kept part is dropped.
    DropBackup,
    /// After a failure: the staged part is removed.
    CleanStaged,
    /// After a failure: the kept part is removed.
    CleanBackup,
    /// Nothing is left to do.
    Finished,
}

/// How far a step is from the end.
pub open spec fn part_steps_left(step: PartStep) -> nat {
    match step {
        PartStep::CreateParent => 11,
        PartStep::BackUp => 10,
        PartStep::Publish => 9,
        PartStep::Record => 8,
        PartStep::Persist => 7,
        PartStep::Undo => 6,
        PartStep::Restore => 5,
        PartStep::TakeBack => 4,
        PartStep::DropBackup => 3,
        PartStep::CleanStaged => 2,
        PartStep::CleanBackup => 1,
        PartStep::Finished => 0,
    }
}

/// The publication of a part, step by step.
#[derive(Debug)]
pub struct PartCommit {
    staged: String,
    part: String,
    backup: Option<String>,
    step: PartStep,
    error: Option<StoreError>,
}

/// A [`PartCommit`] as a mathematical value.
#[verifier::ext_equal]
pub struct PartCommitView {
    pub staged: Seq<char>,
    pub part: Seq<char>,
    pub backup: Option<Seq<char>>,
    pub step: PartStep,
    pub error: Option<StoreErrorView>,
}

impl View for PartCommit {
    type V = PartCommitView;

    closed spec fn view(&self) -> PartCommitView {
        PartCommitView {
            staged: self.staged@,
            part: self.part@,
            backup: opt_text(self.backup),
            step: self.step,
            error: opt_error(self.error),
        }
    }
}

/// A publication that has not begun.
pub open spec fn part_commit_start(
    staged: Seq<char>,
    part: Seq<char>,
    backup: Option<Seq<char>>,
) -> PartCommitView {
    PartCommitView { staged, part, backup, step: PartStep::CreateParent, error: None }
}

/// What a publication asks for next.
pub open spec fn part_commit_action(c: PartCommitView) -> Option<PartActionView> {
    let kept = match c.backup {
        Some(path) => path,
        None => Seq::empty(),
    };
    match c.step {
        PartStep::CreateParent => Some(
            PartActionView::File(ActionView::CreateParent { path: c.part }),
        ),
        PartStep::BackUp => Some(
            PartActionView::File(ActionView::HardLink { from: c.part, to: kept }),
        ),
        PartStep::Publish => Some(
            PartActionView::File(ActionView::Rename { from: c.staged, to: c.part }),
        ),
        PartStep::Record => Some(PartActionView::Record),
        PartStep::Persist => Some(PartActionView::Persist),
        PartStep::Undo => Some(PartActionView::File(ActionView::Remove { path: c.part })),
        PartStep::Restore => Some(
            PartActionView::File(ActionView::Rename { from: kept, to: c.part }),
        ),
        PartStep::TakeBack => Some(PartActionView::TakeBack),
        PartStep::DropBackup => Some(PartActionView::File(ActionView::Remove { path: kept })),
        PartStep::CleanStaged => Some(PartActionView::File(ActionView::Remove { path: c.staged })),
        PartStep::CleanBackup => Some(PartActionView::File(ActionView::Remove { path: kept })),
        PartStep::Finished => None,
    }
}

/// The step after one that went well, or whose outcome does not matter.
pub open spec fn part_step_after(step: PartStep, keeps: bool) -> PartStep {
    match step {
        PartStep::CreateParent => if keeps {
            PartStep::BackUp
        } else {
            PartStep::Publish
        },
        PartStep::BackUp => PartStep::Publish,
        PartStep::Publish => PartStep::Record,
        PartStep::Record => PartStep::Persist,
        PartStep::Persist => if keeps {
            PartStep::DropBackup
        } else {
            PartStep::Finished
        },
        PartStep::Undo => if keeps {
            PartStep::Restore
        } else {
            PartStep::TakeBack
        },
        PartStep::Restore => PartStep::TakeBack,
        PartStep::TakeBack => PartStep::Finished,
        PartStep::DropBackup => PartStep::Finished,
        PartStep::CleanStaged => if keeps {
            PartStep::CleanBackup
        } else {
            PartStep::Finished
        },
        PartStep::CleanBackup => PartStep::Finished,
        PartStep::Finished => PartStep::Finished,
    }
}

/// The step after one that failed.
pub open spec fn part_step_failed(step: PartStep, keeps: bool) -> PartStep {
    match step {
        PartStep::CreateParent => PartStep::CleanStaged,
        PartStep::BackUp => PartStep::CleanStaged,
        PartStep::Publish => PartStep::CleanStaged,
        PartStep::Record => PartStep::Finished,
        PartStep::Persist => PartStep::Undo,
        PartStep::DropBackup => PartStep::Finished,
        _ => part_step_after(step, keeps),
    }
}

/// Whether the failure of a step is a failure of the publication.
pub open spec fn part_step_matters(step: PartStep) -> bool {
    match step {
        PartStep::CreateParent => true,
        PartStep::BackUp => true,
        PartStep::Publish => true,
        PartStep::Record => true,
        PartStep::Persist => true,
        PartStep::DropBackup => true,
        _ => false,
    }
}

/// A publication after a step that failed with an error, or did not.
pub open spec fn part_commit_next(c: PartCommitView, failure: Option<StoreErrorView>) ->
    PartCommitView {
    let keeps = c.backup is Some;
    if failure is Some && part_step_matters(c.step) {
        PartCommitView { step: part_step_failed(c.step, keeps), error: failure, ..c }
    } else {
        PartCommitView { step: part_step_after(c.step, keeps), ..c }
    }
}

/// The failure that the outcome of a change to a file is. A file that does not exist need not be
/// removed.
pub open spec fn part_failure(step: PartStep, outcome: OutcomeView) -> Option<StoreErrorView> {
    match outcome {
        OutcomeView::Done => None,
        OutcomeView::Missing => if step == PartStep::DropBackup {
            None
        } else {
            Some(StoreErrorView::Io(outcome_text(outcome)))
        },
        OutcomeView::Failed(text) => Some(StoreErrorView::Io(text)),
    }
}

/// The error of a result, if it is one.
pub open spec fn store_failure(result: Result<(), StoreError>) -> Option<StoreErrorView> {
    match result {
        Ok(()) => None,
        Err(error) => Some(error@),
    }
}

impl PartCommit {
    /// Begins to publish a staged part. A part that is replaced is kept under the name `backup`.
    pub fn new(staged: String, part: String, backup: Option<String>) -> (commit: Self)
        ensures
            commit@ == part_commit_start(staged@, part@, opt_text(backup)),
    {
        PartCommit { staged, part, backup, step: PartStep::CreateParent, error: None }
    }

    fn kept(&self) -> (path: String)
        ensures
            path@ == match opt_text(self.backup) {
                Some(path) => path,
                None => Seq::empty(),
            },
    {
        match &self.backup {
            Some(path) => path.clone(),
            None => {
                let path = String::new();
                assert(path@ =~= Seq::<char>::empty());
                path
            },
        }
    }

    /// What is to be done next; nothing where the publication is finished.
    pub fn action(&self) -> (action: Option<PartAction>)
        ensures
            match action {
                Some(a) => part_commit_action(self@) == Some(a@),
                None => part_commit_action(self@) is None,
            },
    {
        match self.step {
            PartStep::CreateParent => Some(
                PartAction::File(FileAction::CreateParent { path: self.part.clone() }),
            ),
            PartStep::BackUp => Some(
                PartAction::File(
                    FileAction::HardLink { from: self.part.clone(), to: self.kept() },
                ),
            ),
            PartStep::Publish => Some(
                PartAction::File(
                    FileAction::Rename { from: self.staged.clone(), to: self.part.clone() },
                ),
            ),
            PartStep::Record => Some(PartAction::Record),
            PartStep::Persist => Some(PartAction::Persist),
            PartStep::Undo => Some(
                PartAction::File(FileAction::Remove { path: self.part.clone() }),
            ),
            PartStep::Restore => Some(
                PartAction::File(FileAction::Rename { from: self.kept(), to: self.part.clone() }),
            ),
            PartStep::TakeBack => Some(PartAction::TakeBack),
            PartStep::DropBackup => Some(
                PartAction::File(FileAction::Remove { path: self.kept() }),
            ),
            PartStep::CleanStaged => Some(
                PartAction::File(FileAction::Remove { path: self.staged.clone() }),
            ),
            PartStep::CleanBackup => Some(
                PartAction::File(FileAction::Remove { path: self.kept() }),
            ),
            PartStep::Finished => None,
        }
    }

    fn following(&self) -> (step: PartStep)
        ensures
            step == part_step_after(self@.step, self@.backup is Some),
    {
        let keeps = self.backup.is_some();
        match self.step {
            PartStep::CreateParent => {
                if keeps {
                    PartStep::BackUp
                } else {
                    PartStep::Publish
                }
            },
            PartStep::BackUp => PartStep::Publish,
            PartStep::Publish => PartStep::Record,
            PartStep::Record => PartStep::Persist,
            PartStep::Persist => {
                if keeps {
                    PartStep::DropBackup
                } else {
                    PartStep::Finished
                }
            },
            PartStep::Undo => {
                if keeps {
                    PartStep::Restore
                } else {
                    PartStep::TakeBack
                }
            },
            PartStep::Restore => PartStep::TakeBack,
            PartStep::TakeBack => PartStep::Finished,
            PartStep::DropBackup => PartStep::Finished,
            PartStep::CleanStaged => {
                if keeps {
                    PartStep::CleanBackup
                } else {
                    PartStep::Finished
                }
            },
            PartStep::CleanBackup => PartStep::Finished,
            PartStep::Finished => PartStep::Finished,
        }
    }

    /// Takes in the result of what was asked for: of storing the part in the session or of writing
    /// the session, or of anything else by [`PartCommit::report`].
    pub fn report_result(&mut self, result: Result<(), StoreError>)
        ensures
            final(self)@ == part_commit_next(old(self)@, store_failure(result)),
            old(self)@.step != PartStep::Finished ==> part_steps_left(final(self)@.step)
                < part_steps_left(old(self)@.step),
    {
        let next = self.following();
        match result {
            Ok(()) => {
                self.step = next;
            },
            Err(error) => match self.step {
                PartStep::CreateParent => {
                    self.step = PartStep::CleanStaged;
                    self.error = Some(error);
                },
                PartStep::BackUp => {
                    self.step = PartStep::CleanStaged;
                    self.error = Some(error);
                },
                PartStep::Publish => {
                    self.step = PartStep::CleanStaged;
                    self.error = Some(error);
                },
                PartStep::Record => {
                    self.step = PartStep::Finished;
                    self.error = Some(error);
                },
                PartStep::Persist => {
                    self.step = PartStep::Undo;
                    self.error = Some(error);
                },
                PartStep::DropBackup => {
                    self.step = PartStep::Finished;
                    self.error = Some(error);
                },
                _ => {
                    self.step = next;
                },
            },
        }
    }

    /// Takes in what came of the change to a file that was asked for.
    pub fn report(&mut self, outcome: FileOutcome)
        ensures
            final(self)@ == part_commit_next(
                old(self)@,
                part_failure(old(self)@.step, outcome@),
            ),
            old(self)@.step != PartStep::Finished ==> part_steps_left(final(self)@.step)
                < part_steps_left(old(self)@.step),
    {
        let dropping = match self.step {
            PartStep::DropBackup => true,
            _ => false,
        };
        let result = match outcome {
            FileOutcome::Done => Ok(()),
            FileOutcome::Missing => {
                if dropping {
                    Ok(())
                } else {
                    Err(StoreError::Io(FileOutcome::Missing.into_text()))
                }
            },
            FileOutcome::Failed(text) => Err(StoreError::Io(text)),
        };
        self.report_result(result);
    }

    /// The outcome of a publication that is finished.
    pub fn result(self) -> (result: Result<(), StoreError>)
        ensures
            store_failure(result) == self@.error,
    {
        match self.error {
            None => Ok(()),
            Some(error) => Err(error),
        }
    }
}

/// What comes of the publication of a part on files that behave, but for one step that fails and
/// changes nothing. The session is not among the files of the part.
pub open spec fn part_commit_run(
    c: PartCommitView,
    files: Map<Seq<char>, Seq<u8>>,
    fault: Option<PartStep>,
) -> (PartCommitView, Map<Seq<char>, Seq<u8>>)
    decreases part_steps_left(c.step),
{
    match part_commit_action(c) {
        None => (c, files),
        Some(action) => if fault == Some(c.step) {
            part_commit_run(
                part_commit_next(c, Some(StoreErrorView::Io("fault"@))),
                files,
                fault,
            )
        } else {
            match action {
                PartActionView::File(change) => {
                    let (outcome, changed) = performed(change, files);
                    part_commit_run(
                        part_commit_next(c, part_failure(c.step, outcome)),
                        changed,
                        fault,
                    )
                },
                _ => part_commit_run(part_commit_next(c, None), files, fault),
            }
        },
    }
}

/// Whether the publication of a part can start: the part is staged, and where one is replaced, its
/// file is there and no other has the name under which it will be kept.
pub open spec fn can_commit_part(
    staged: Seq<char>,
    part: Seq<char>,
    backup: Option<Seq<char>>,
    files: Map<Seq<char>, Seq<u8>>,
) -> bool {
    &&& staged != part
    &&& files.dom().contains(staged)
    &&& match backup {
        Some(kept) => {
            &&& kept != staged
            &&& kept != part
            &&& files.dom().contains(part)
            &&& !files.dom().contains(kept)
        },
        None => true,
    }
}

/// The publication of a part in which nothing fails succeeds: the part is there, in place of a file
/// that was left over at its path, and no temporary file is left.
#[verifier::rlimit(40)]
pub proof fn law_part_commits_publish_the_part(
    staged: Seq<char>,
    part: Seq<char>,
    backup: Option<Seq<char>>,
    files: Map<Seq<char>, Seq<u8>>,
)
    requires
        can_commit_part(staged, part, backup, files),
    ensures
        ({
            let (c, after) = part_commit_run(part_commit_start(staged, part, backup), files, None);
            &&& c.step == PartStep::Finished
            &&& c.error is None
            &&& after == files.remove(staged).insert(part, files[staged])
        }),
{
    reveal_with_fuel(part_commit_run, 8);
    let (c, after) = part_commit_run(part_commit_start(staged, part, backup), files, None);
    assert(after =~= files.remove(staged).insert(part, files[staged]));
}

/// The publication of a part that fails before or while its session is written leaves the parts as
/// they were: the part that was replaced is there again, and no temporary file is left. There are two
/// exceptions: where a session is no longer open, the part stays where it was published, and where
/// the session of a part that replaces none is not written, a file that was left over at the path of
/// the part is lost.
#[verifier::rlimit(60)]
pub proof fn law_failed_part_commits_are_undone(
    staged: Seq<char>,
    part: Seq<char>,
    backup: Option<Seq<char>>,
    files: Map<Seq<char>, Seq<u8>>,
    fault: PartStep,
)
    requires
        can_commit_part(staged, part, backup, files),
        fault == PartStep::CreateParent || fault == PartStep::BackUp || fault == PartStep::Publish
            || fault == PartStep::Persist,
        fault == PartStep::BackUp ==> backup is Some,
        fault == PartStep::Persist && backup is None ==> !files.dom().contains(part),
    ensures
        ({
            let (c, after) = part_commit_run(
                part_commit_start(staged, part, backup),
                files,
                Some(fault),
            );
            &&& c.step == PartStep::Finished
            &&& c.error is Some
            &&& after == files.remove(staged)
        }),
{
    reveal_with_fuel(part_commit_run, 12);
    let (c, after) = part_commit_run(part_commit_start(staged, part, backup), files, Some(fault));
    assert(after =~= files.remove(staged));
}

// ---------------------------------------------------------------------------------------------
// Writing a session
// ---------------------------------------------------------------------------------------------
/// Where the writing of a session stands.
#[derive(Clone, Copy, Debug, PartialEq, Eq, Structural)]
pub enum SessionStep {
    /// The directory of the upload is created.
    CreateParent,
    /// The session is staged.
    Stage,
    /// The session is published.
    Publish,
    /// After a failure: the staged session is removed.
    Clean,
    /// Nothing is left to do.
    Finished,
}

/// How far a step is from the end.
pub open spec fn session_steps_left(step: SessionStep) -> nat {
    match step {
        SessionStep::CreateParent => 4,
        SessionStep::Stage => 3,
        SessionStep::Publish => 2,
        SessionStep::Clean => 1,
        SessionStep::Finished => 0,
    }
}

/// The writing of a session, step by step.
#[derive(Debug)]
pub struct SessionWrite {
    session: String,
    staged: String,
    json: Vec<u8>,
    step: SessionStep,
    error: Option<StoreError>,
}

/// A [`SessionWrite`] as a mathematical value.
#[verifier::ext_equal]
pub struct SessionWriteView {
    pub session: Seq<char>,
    pub staged: Seq<char>,
    pub json: Seq<u8>,
    pub step: SessionStep,
    pub error: Option<StoreErrorView>,
}

impl View for SessionWrite {
    type V = SessionWriteView;

    closed spec fn view(&self) -> SessionWriteView {
        SessionWriteView {
            session: self.session@,
            staged: self.staged@,
            json: self.json@,
            step: self.step,
            error: opt_error(self.error),
        }
    }
}

/// A write that has not begun.
pub open spec fn session_write_start(session: Seq<char>, staged: Seq<char>, json: Seq<u8>) ->
    SessionWriteView {
    SessionWriteView { session, staged, json, step: SessionStep::CreateParent, error: None }
}

/// The change that a write asks for next.
pub open spec fn session_write_action(w: SessionWriteView) -> Option<ActionView> {
    match w.step {
        SessionStep::CreateParent => Some(ActionView::CreateParent { path: w.session }),
        SessionStep::Stage => Some(ActionView::Write { path: w.staged, contents: w.json }),
        SessionStep::Publish => Some(ActionView::Rename { from: w.staged, to: w.session }),
        SessionStep::Clean => Some(ActionView::Remove { path: w.staged }),
        SessionStep::Finished => None,
    }
}

/// A write after the outcome of a step.
pub open spec fn session_write_next(w: SessionWriteView, outcome: OutcomeView) ->
    SessionWriteView {
    match w.step {
        SessionStep::Clean => SessionWriteView { step: SessionStep::Finished, ..w },
        SessionStep::Finished => w,
        _ => if outcome is Done {
            SessionWriteView {
                step: match w.step {
                    SessionStep::CreateParent => SessionStep::Stage,
                    SessionStep::Stage => SessionStep::Publish,
                    _ => SessionStep::Finished,
                },
                ..w
            }
        } else {
            SessionWriteView {
                step: if w.step == SessionStep::CreateParent {
                    SessionStep::Finished
                } else {
                    SessionStep::Clean
                },
                error: Some(StoreErrorView::Io(outcome_text(outcome))),
                ..w
            }
        },
    }
}

impl SessionWrite {
    /// Begins to write a session.
    pub fn new(session: String, staged: String, json: Vec<u8>) -> (write: Self)
        ensures
            write@ == session_write_start(session@, staged@, json@),
    {
        SessionWrite { session, staged, json, step: SessionStep::CreateParent, error: None }
    }

    /// The change that is to be made next; nothing where the write is finished.
    pub fn action(&self) -> (action: Option<FileAction>)
        ensures
            match action {
                Some(a) => session_write_action(self@) == Some(a@),
                None => session_write_action(self@) is None,
            },
    {
        match self.step {
            SessionStep::CreateParent => Some(
                FileAction::CreateParent { path: self.session.clone() },
            ),
            SessionStep::Stage => Some(
                FileAction::Write {
                    path: self.staged.clone(),
                    contents: vstd::slice::slice_to_vec(self.json.as_slice()),
                },
            ),
            SessionStep::Publish => Some(
                FileAction::Rename { from: self.staged.clone(), to: self.session.clone() },
            ),
            SessionStep::Clean => Some(FileAction::Remove { path: self.staged.clone() }),
            SessionStep::Finished => None,
        }
    }

    /// Takes in what came of the change that was asked for.
    pub fn report(&mut self, outcome: FileOutcome)
        ensures
            final(self)@ == session_write_next(old(self)@, outcome@),
            old(self)@.step != SessionStep::Finished ==> session_steps_left(final(self)@.step)
                < session_steps_left(old(self)@.step),
    {
        let done = match &outcome {
            FileOutcome::Done => true,
            _ => false,
        };
        match self.step {
            SessionStep::Clean => {
                self.step = SessionStep::Finished;
            },
            SessionStep::Finished => {},
            SessionStep::CreateParent => {
                if done {
                    self.step = SessionStep::Stage;
                } else {
                    self.step = SessionStep::Finished;
                    self.error = Some(StoreError::Io(outcome.into_text()));
                }
            },
            SessionStep::Stage => {
                if done {
                    self.step = SessionStep::Publish;
                } else {
                    self.step = SessionStep::Clean;
                    self.error = Some(StoreError::Io(outcome.into_text()));
                }
            },
            SessionStep::Publish => {
                if done {
                    self.step = SessionStep::Finished;
                } else {
                    self.step = SessionStep::Clean;
                    self.error = Some(StoreError::Io(outcome.into_text()));
                }
            },
        }
    }

    /// The outcome of a write that is finished.
    pub fn result(self) -> (result: Result<(), StoreError>)
        ensures
            store_failure(result) == self@.error,
    {
        match self.error {
            None => Ok(()),
            Some(error) => Err(error),
        }
    }
}

/// What comes of a write on files that behave, but for one step that fails and changes nothing.
pub open spec fn session_write_run(
    w: SessionWriteView,
    files: Map<Seq<char>, Seq<u8>>,
    fault: Option<SessionStep>,
) -> (SessionWriteView, Map<Seq<char>, Seq<u8>>)
    decreases session_steps_left(w.step),
{
    match session_write_action(w) {
        None => (w, files),
        Some(action) => if fault == Some(w.step) {
            session_write_run(
                session_write_next(w, OutcomeView::Failed("fault"@)),
                files,
                fault,
            )
        } else {
            let (outcome, changed) = performed(action, files);
            session_write_run(session_write_next(w, outcome), changed, fault)
        },
    }
}

/// A session is written whole or not at all, and no temporary file is left either way.
pub proof fn law_sessions_are_written_whole_or_not_at_all(
    session: Seq<char>,
    staged: Seq<char>,
    json: Seq<u8>,
    files: Map<Seq<char>, Seq<u8>>,
    fault: Option<SessionStep>,
)
    requires
        session != staged,
        !files.dom().contains(staged),
        fault != Some(SessionStep::Clean),
        fault != Some(SessionStep::Finished),
    ensures
        ({
            let (w, after) = session_write_run(
                session_write_start(session, staged, json),
                files,
                fault,
            );
            &&& w.step == SessionStep::Finished
            &&& w.error is Some <==> fault is Some
            &&& after == if fault is Some {
                files
            } else {
                files.insert(session, json)
            }
        }),
{
    reveal_with_fuel(session_write_run, 6);
    let (w, after) = session_write_run(session_write_start(session, staged, json), files, fault);
    match fault {
        Some(SessionStep::CreateParent) => {
            assert(after =~= files);
        },
        Some(SessionStep::Stage) => {
            assert(after =~= files);
        },
        Some(SessionStep::Publish) => {
            assert(files.insert(staged, json).remove(staged) =~= files);
            assert(after =~= files);
        },
        _ => {
            assert(after =~= files.insert(session, json));
        },
    }
}

} // verus!
