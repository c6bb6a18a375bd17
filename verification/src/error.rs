//! How an extraction fails.

use vstd::prelude::*;

verus! {

/// The step at which an extraction failed.
#[derive(Debug, Clone, Copy, PartialEq, Eq, Structural)]
pub enum ErrorKind {
    /// The name of the program was empty. Found before anything is touched.
    EmptyIdentifier,
    /// There were no files to extract. Found before anything is touched.
    EmptyFileSet,
    /// The working directory could not be determined.
    Environment,
    /// The directory of the extraction could not be created.
    DirectoryCreation,
    /// One file could not be written; the files before it stay on disk.
    FileExtraction,
    /// All files were written, but the checksum file could not be.
    ChecksumWrite,
    /// The finished directory could not be resolved to an absolute path.
    PathResolution,
}

/// A failed extraction: the step that failed, and a message for a person.
#[derive(Debug)]
pub struct SourceExtractionError {
    kind: ErrorKind,
    message: String,
}

/// What a [`SourceExtractionError`] says.
pub struct ErrorText {
    pub kind: ErrorKind,
    pub message: Seq<char>,
}

/// What stands before the message when the whole error is written out.
pub const ERROR_PREFIX: &'static str = "Source extraction error: ";

impl View for SourceExtractionError {
    type V = ErrorText;

    closed spec fn view(&self) -> ErrorText {
        ErrorText { kind: self.kind, message: self.message@ }
    }
}

impl SourceExtractionError {
    /// An error of the given kind with the given message.
    pub fn new(kind: ErrorKind, message: String) -> (error: Self)
        ensures
            error@ == (ErrorText { kind, message: message@ }),
    {
        SourceExtractionError { kind, message }
    }

    /// The step that failed.
    pub fn kind(&self) -> (kind: ErrorKind)
        ensures
            kind == self@.kind,
    {
        self.kind
    }

    /// The message, without the prefix.
    pub fn message(&self) -> (message: &str)
        ensures
            message@ == self@.message,
    {
        self.message.as_str()
    }

    /// The error written out in full: the prefix, then the message.
    pub fn to_string(&self) -> (text: String)
        ensures
            text@ == ERROR_PREFIX@ + self@.message,
    {
        let mut text = String::from_str(ERROR_PREFIX);
        text.append(self.message.as_str());
        text
    }
}

/// The error of the given kind whose message is `lead` followed by `cause`.
pub fn error_with_cause(kind: ErrorKind, lead: &str, cause: &str) -> (error: SourceExtractionError)
    ensures
        error@ == (ErrorText { kind, message: lead@ + cause@ }),
{
    let mut message = String::from_str(lead);
    message.append(cause);
    SourceExtractionError::new(kind, message)
}

} // verus!
