//! Objects that are written but not yet published.
use vstd::prelude::*;

verus! {

/// The file of staged bytes in a directory.
pub open spec fn staged_in(directory: Seq<char>, temp_id: Seq<char>) -> Seq<char> {
    directory + "/"@ + temp_id + ".part"@
}

/// The file in a directory that is reserved for bytes that replace staged ones.
pub open spec fn replacement_in(directory: Seq<char>, replacement_id: Seq<char>) -> Seq<char> {
    directory + "/"@ + replacement_id + ".replace"@
}

/// Fully written temporary object file ready for middleware or commit.
#[derive(Debug)]
pub struct StagedObject {
    directory: String,
    temp_id: String,
    path: String,
}

/// A [`StagedObject`] as a mathematical value.
#[verifier::ext_equal]
pub struct StagedView {
    pub directory: Seq<char>,
    pub temp_id: Seq<char>,
}

impl View for StagedObject {
    type V = StagedView;

    closed spec fn view(&self) -> StagedView {
        StagedView { directory: self.directory@, temp_id: self.temp_id@ }
    }
}

impl StagedObject {
    #[verifier::type_invariant]
    spec fn is_valid(self) -> bool {
        self.path@ == staged_in(self.directory@, self.temp_id@)
    }

    /// Bytes that are staged in a directory under an ID.
    pub fn new(directory: String, temp_id: String) -> (staged: Self)
        ensures
            staged@.directory == directory@,
            staged@.temp_id == temp_id@,
    {
        let mut path = directory.clone();
        path.append("/");
        path.append(temp_id.as_str());
        path.append(".part");
        StagedObject { directory, temp_id, path }
    }

    /// Returns the path to the current staged bytes.
    pub fn path(&self) -> (path: &str)
        ensures
            path@ == staged_in(self@.directory, self@.temp_id),
    {
        proof {
            use_type_invariant(self);
        }
        self.path.as_str()
    }

    /// Returns a unique replacement path in the same temporary directory.
    pub fn replacement_path(&self, replacement_id: &str) -> (path: String)
        ensures
            path@ == replacement_in(self@.directory, replacement_id@),
    {
        let mut path = self.directory.clone();
        path.append("/");
        path.append(replacement_id);
        path.append(".replace");
        path
    }

    /// Returns the staged object ID and file path for commit.
    pub fn into_parts(self) -> (parts: (String, String))
        ensures
            parts.0@ == self@.temp_id,
            parts.1@ == staged_in(self@.directory, self@.temp_id),
    {
        proof {
            use_type_invariant(&self);
        }
        (self.temp_id, self.path)
    }
}

} // verus!
