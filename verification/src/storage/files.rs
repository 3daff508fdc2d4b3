//! Changes to stored files, one at a time: what is to be done, and what came of it.
use vstd::prelude::*;

verus! {

/// A change to stored files.
#[derive(Debug, PartialEq, Eq)]
pub enum FileAction {
    /// Create the directory that holds a file, and those above it.
    CreateParent {
        /// The file.
        path: String,
    },
    /// Write a new file.
    Write {
        /// The file.
        path: String,
        /// What it holds.
        contents: Vec<u8>,
    },
    /// Give a file a second name.
    HardLink {
        /// The name that it has.
        from: String,
        /// The name that it gets.
        to: String,
    },
    /// Give a file another name, in place of any file that had it.
    Rename {
        /// The name that it has.
        from: String,
        /// The name that it gets.
        to: String,
    },
    /// Remove a file.
    Remove {
        /// The file.
        path: String,
    },
}

/// A [`FileAction`] as a mathematical value.
#[verifier::ext_equal]
pub enum ActionView {
    CreateParent { path: Seq<char> },
    Write { path: Seq<char>, contents: Seq<u8> },
    HardLink { from: Seq<char>, to: Seq<char> },
    Rename { from: Seq<char>, to: Seq<char> },
    Remove { path: Seq<char> },
}

impl View for FileAction {
    type V = ActionView;

    open spec fn view(&self) -> ActionView {
        match self {
            FileAction::CreateParent { path } => ActionView::CreateParent { path: path@ },
            FileAction::Write { path, contents } => ActionView::Write {
                path: path@,
                contents: contents@,
            },
            FileAction::HardLink { from, to } => ActionView::HardLink { from: from@, to: to@ },
            FileAction::Rename { from, to } => ActionView::Rename { from: from@, to: to@ },
            FileAction::Remove { path } => ActionView::Remove { path: path@ },
        }
    }
}

/// What came of a change.
#[derive(Debug, PartialEq, Eq)]
pub enum FileOutcome {
    /// It was done.
    Done,
    /// The file that it needs does not exist.
    Missing,
    /// It failed; the text says how.
    Failed(String),
}

/// A [`FileOutcome`] as a mathematical value.
#[verifier::ext_equal]
pub enum OutcomeView {
    Done,
    Missing,
    Failed(Seq<char>),
}

impl View for FileOutcome {
    type V = OutcomeView;

    open spec fn view(&self) -> OutcomeView {
        match self {
            FileOutcome::Done => OutcomeView::Done,
            FileOutcome::Missing => OutcomeView::Missing,
            FileOutcome::Failed(text) => OutcomeView::Failed(text@),
        }
    }
}

/// The text of an outcome that is not success.
pub open spec fn outcome_text(outcome: OutcomeView) -> Seq<char> {
    match outcome {
        OutcomeView::Done => Seq::empty(),
        OutcomeView::Missing => "file not found"@,
        OutcomeView::Failed(text) => text,
    }
}

impl FileOutcome {
    /// The text of an outcome that is not success.
    pub fn into_text(self) -> (text: String)
        ensures
            text@ == outcome_text(self@),
    {
        match self {
            FileOutcome::Done => {
                let text = String::new();
                assert(text@ =~= Seq::<char>::empty());
                text
            },
            FileOutcome::Missing => "file not found".to_owned(),
            FileOutcome::Failed(text) => text,
        }
    }
}

// ---------------------------------------------------------------------------------------------
// A model of a file system
// ---------------------------------------------------------------------------------------------
/// What a change does to files that behave: the contents of each, by its name.
pub open spec fn performed(action: ActionView, files: Map<Seq<char>, Seq<u8>>) -> (
    OutcomeView,
    Map<Seq<char>, Seq<u8>>,
) {
    match action {
        ActionView::CreateParent { path } => (OutcomeView::Done, files),
        ActionView::Write { path, contents } => (OutcomeView::Done, files.insert(path, contents)),
        ActionView::HardLink { from, to } => if !files.dom().contains(from) {
            (OutcomeView::Missing, files)
        } else if files.dom().contains(to) {
            (OutcomeView::Failed("file exists"@), files)
        } else {
            (OutcomeView::Done, files.insert(to, files[from]))
        },
        ActionView::Rename { from, to } => if files.dom().contains(from) {
            (OutcomeView::Done, files.remove(from).insert(to, files[from]))
        } else {
            (OutcomeView::Missing, files)
        },
        ActionView::Remove { path } => if files.dom().contains(path) {
            (OutcomeView::Done, files.remove(path))
        } else {
            (OutcomeView::Missing, files)
        },
    }
}

} // verus!
