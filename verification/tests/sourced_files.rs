use source_it::sourced_file::SourcedFile;

#[test]
fn test_sourced_file_creation() {
    let file = SourcedFile::new("test.rs", "fn main() {}");
    assert_eq!(file.path, "test.rs");
    assert_eq!(file.content, "fn main() {}");
}
