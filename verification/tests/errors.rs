use source_it::error::{error_with_cause, ErrorKind, SourceExtractionError, ERROR_PREFIX};

#[test]
fn error_holds_its_kind_and_message() {
    let error = SourceExtractionError::new(ErrorKind::EmptyFileSet, String::from("nothing"));
    assert_eq!(error.kind(), ErrorKind::EmptyFileSet);
    assert_eq!(error.message(), "nothing");
}

#[test]
fn error_is_written_out_after_the_prefix() {
    let error = SourceExtractionError::new(
        ErrorKind::EmptyIdentifier,
        String::from("Crate name cannot be empty"),
    );
    assert_eq!(error.to_string(), "Source extraction error: Crate name cannot be empty");
    assert!(error.to_string().starts_with(ERROR_PREFIX));
}

#[test]
fn error_with_cause_puts_the_cause_after_the_lead() {
    let error = error_with_cause(ErrorKind::ChecksumWrite, "Failed to write: ", "disk full");
    assert_eq!(error.kind(), ErrorKind::ChecksumWrite);
    assert_eq!(error.message(), "Failed to write: disk full");
}
