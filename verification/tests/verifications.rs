use source_it::sourced_file::SourcedFile;
use source_it::verification::{
    check_file, same_bytes, verify_extracted_files_content, Discrepancy, Reading,
};

fn three_files() -> Vec<SourcedFile> {
    vec![
        SourcedFile::new("Cargo.toml", "[package]\n"),
        SourcedFile::new("src/main.rs", "fn main() {}\n"),
        SourcedFile::new("README.md", "# größe\n"),
    ]
}

fn faithful(files: &[SourcedFile]) -> Vec<Reading> {
    files.iter().map(|file| Reading::Content(file.content.as_bytes().to_vec())).collect()
}

#[test]
fn unmodified_tree_has_no_mismatch() {
    let files = three_files();
    assert!(verify_extracted_files_content(&files, &faithful(&files)).is_empty());
}

#[test]
fn no_files_have_no_mismatch() {
    assert!(verify_extracted_files_content(&[], &[]).is_empty());
}

#[test]
fn one_modified_file_is_the_one_mismatch() {
    let files = three_files();
    for at in 0..files.len() {
        let mut readings = faithful(&files);
        readings[at] = Reading::Content(b"something else".to_vec());
        let found = verify_extracted_files_content(&files, &readings);
        assert_eq!(found.len(), 1);
        assert_eq!(found[0].path, files[at].path);
        assert!(matches!(found[0].discrepancy, Discrepancy::ContentDiffers));
    }
}

#[test]
fn missing_file_is_reported_as_missing() {
    let files = three_files();
    let mut readings = faithful(&files);
    readings[1] = Reading::Missing;
    let found = verify_extracted_files_content(&files, &readings);
    assert_eq!(found.len(), 1);
    assert_eq!(found[0].path, "src/main.rs");
    assert!(matches!(found[0].discrepancy, Discrepancy::Missing));
}

#[test]
fn unreadable_file_is_reported_with_its_cause() {
    let files = three_files();
    let mut readings = faithful(&files);
    readings[2] = Reading::Unreadable("permission denied".to_string());
    let found = verify_extracted_files_content(&files, &readings);
    assert_eq!(found.len(), 1);
    assert_eq!(found[0].path, "README.md");
    match &found[0].discrepancy {
        Discrepancy::Unreadable(cause) => assert_eq!(cause, "permission denied"),
        _ => panic!("the file is not reported as unreadable"),
    }
}

#[test]
fn mismatches_come_in_the_order_of_the_files() {
    let files = three_files();
    let readings = vec![
        Reading::Missing,
        Reading::Content(b"fn main() {}\n".to_vec()),
        Reading::Content(b"# other\n".to_vec()),
    ];
    let found = verify_extracted_files_content(&files, &readings);
    assert_eq!(found.len(), 2);
    assert_eq!(found[0].path, "Cargo.toml");
    assert!(matches!(found[0].discrepancy, Discrepancy::Missing));
    assert_eq!(found[1].path, "README.md");
    assert!(matches!(found[1].discrepancy, Discrepancy::ContentDiffers));
}

#[test]
fn file_without_a_reading_counts_as_missing() {
    let files = three_files();
    let readings = vec![Reading::Content(b"[package]\n".to_vec())];
    let found = verify_extracted_files_content(&files, &readings);
    assert_eq!(found.len(), 2);
    assert_eq!(found[0].path, "src/main.rs");
    assert!(matches!(found[0].discrepancy, Discrepancy::Missing));
    assert_eq!(found[1].path, "README.md");
    assert!(matches!(found[1].discrepancy, Discrepancy::Missing));
}

#[test]
fn readings_beyond_the_files_are_not_looked_at() {
    let files = vec![SourcedFile::new("a", "b")];
    let readings = vec![Reading::Content(b"b".to_vec()), Reading::Missing];
    assert!(verify_extracted_files_content(&files, &readings).is_empty());
}

#[test]
fn content_is_compared_byte_for_byte() {
    let file = SourcedFile::new("a.txt", "Hello World");
    assert!(check_file(&file, &Reading::Content(b"Hello World".to_vec())).is_none());
    assert!(check_file(&file, &Reading::Content(b"Hello World\n".to_vec())).is_some());
    assert!(check_file(&file, &Reading::Content(b"Hello world".to_vec())).is_some());
    assert!(check_file(&file, &Reading::Content(b"Hello Worl".to_vec())).is_some());
    assert!(check_file(&file, &Reading::Content(Vec::new())).is_some());
}

#[test]
fn empty_content_matches_an_empty_file() {
    let file = SourcedFile::new("empty", "");
    assert!(check_file(&file, &Reading::Content(Vec::new())).is_none());
    assert!(check_file(&file, &Reading::Missing).is_some());
}

#[test]
fn text_beyond_ascii_is_compared_as_utf8() {
    let file = SourcedFile::new("g", "größe");
    assert!(check_file(&file, &Reading::Content("größe".as_bytes().to_vec())).is_none());
    assert!(check_file(&file, &Reading::Content(b"gr\xf6\xdfe".to_vec())).is_some());
}

#[test]
fn same_bytes_tells_equal_from_different() {
    assert!(same_bytes(b"", b""));
    assert!(same_bytes(b"abc", b"abc"));
    assert!(!same_bytes(b"abc", b"abd"));
    assert!(!same_bytes(b"abc", b"ab"));
    assert!(!same_bytes(b"", b"a"));
}
