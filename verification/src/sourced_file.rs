//! The embedded files.

use vstd::prelude::*;

verus! {

/// One embedded source file: where it belongs and what it holds.
#[derive(Debug, Clone, Copy)]
pub struct SourcedFile {
    /// Path relative to the project root, with forward slashes.
    pub path: &'static str,
    /// The complete text of the file.
    pub content: &'static str,
}

/// What a [`SourcedFile`] says, as plain sequences of characters.
pub struct FileText {
    pub path: Seq<char>,
    pub content: Seq<char>,
}

impl View for SourcedFile {
    type V = FileText;

    open spec fn view(&self) -> FileText {
        FileText { path: self.path@, content: self.content@ }
    }
}

impl SourcedFile {
    /// Pairs a path with the content that belongs at it.
    pub fn new(path: &'static str, content: &'static str) -> (file: Self)
        ensures
            file.path@ == path@,
            file.content@ == content@,
            file@ == (FileText { path: path@, content: content@ }),
    {
        SourcedFile { path, content }
    }
}

/// The texts of a list of files, in the order of the list.
pub open spec fn texts(files: Seq<SourcedFile>) -> Seq<FileText> {
    files.map_values(|file: SourcedFile| file@)
}

} // verus!
