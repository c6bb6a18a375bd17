use source_it::checksum::{calculate_checksum, TERMINATOR};
use source_it::sourced_file::SourcedFile;
use std::collections::hash_map::DefaultHasher;
use std::hash::{Hash, Hasher};

/// The checksum as the standard library hashes strings.
fn hashed_as_strings(files: &[SourcedFile]) -> u64 {
    let mut hasher = DefaultHasher::new();
    for file in files {
        file.path.hash(&mut hasher);
        file.content.hash(&mut hasher);
    }
    hasher.finish()
}

#[test]
fn test_checksum_calculation() {
    let files = vec![
        SourcedFile::new("file1.rs", "content1"),
        SourcedFile::new("file2.rs", "content2"),
    ];

    let checksum1 = calculate_checksum(&files);
    let checksum2 = calculate_checksum(&files);

    // Same files should produce same checksum
    assert_eq!(checksum1, checksum2);

    // Different files should produce different checksum
    let files2 = vec![SourcedFile::new("file3.rs", "content3")];
    let checksum3 = calculate_checksum(&files2);
    assert_ne!(checksum1, checksum3);
}

#[test]
fn checksum_is_that_of_hashing_the_strings() {
    let lists: Vec<Vec<SourcedFile>> = vec![
        vec![],
        vec![SourcedFile::new("", "")],
        vec![SourcedFile::new("test1.txt", "Hello World")],
        vec![
            SourcedFile::new("test1.txt", "Hello World"),
            SourcedFile::new("subdir/test2.txt", "Nested content"),
        ],
        vec![SourcedFile::new("src/größe.rs", "let π = 3; // ≈\n"), SourcedFile::new("a", "b")],
    ];
    for files in &lists {
        assert_eq!(calculate_checksum(files), hashed_as_strings(files));
    }
}

#[test]
fn checksum_of_equal_lists_is_equal() {
    let first = vec![SourcedFile::new("a.rs", "one"), SourcedFile::new("b.rs", "two")];
    let second = vec![SourcedFile::new("a.rs", "one"), SourcedFile::new("b.rs", "two")];
    assert_eq!(calculate_checksum(&first), calculate_checksum(&second));
}

#[test]
fn checksum_depends_on_the_order() {
    let first = vec![SourcedFile::new("a.rs", "one"), SourcedFile::new("b.rs", "two")];
    let second = vec![SourcedFile::new("b.rs", "two"), SourcedFile::new("a.rs", "one")];
    assert_ne!(calculate_checksum(&first), calculate_checksum(&second));
}

#[test]
fn checksum_depends_on_each_content() {
    let first = vec![SourcedFile::new("a.rs", "one"), SourcedFile::new("b.rs", "two")];
    let second = vec![SourcedFile::new("a.rs", "one"), SourcedFile::new("b.rs", "twO")];
    assert_ne!(calculate_checksum(&first), calculate_checksum(&second));
}

#[test]
fn checksum_depends_on_each_path() {
    let first = vec![SourcedFile::new("a.rs", "one"), SourcedFile::new("b.rs", "two")];
    let second = vec![SourcedFile::new("a.rs", "one"), SourcedFile::new("c.rs", "two")];
    assert_ne!(calculate_checksum(&first), calculate_checksum(&second));
}

#[test]
fn checksum_tells_where_a_string_ends() {
    let first = vec![SourcedFile::new("ab", "c")];
    let second = vec![SourcedFile::new("a", "bc")];
    assert_ne!(calculate_checksum(&first), calculate_checksum(&second));
}

#[test]
fn checksum_of_no_files_is_that_of_an_untouched_hasher() {
    assert_eq!(calculate_checksum(&[]), DefaultHasher::new().finish());
}

#[test]
fn terminator_is_no_byte_of_utf8() {
    assert_eq!(TERMINATOR, 0xff);
    assert!(!"any text: größe π ≈ 🦀".as_bytes().contains(&TERMINATOR));
}
