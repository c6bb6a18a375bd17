use source_it::layout::{
    checksum_file_text, extraction_directory_name, CHECKSUM_FILE_NAME, CHECKSUM_LEAD,
    DIRECTORY_PREFIX,
};

#[test]
fn directory_name_joins_prefix_identifier_and_timestamp() {
    assert_eq!(
        extraction_directory_name("demo", "20250314_153045"),
        "source_crate_demo_20250314_153045"
    );
    assert_eq!(extraction_directory_name("x", ""), "source_crate_x_");
    assert!(extraction_directory_name("my_fft_tool", "00000000_000000").starts_with(DIRECTORY_PREFIX));
}

#[test]
fn directory_names_differ_with_the_timestamp() {
    assert_ne!(
        extraction_directory_name("demo", "20250314_153045"),
        extraction_directory_name("demo", "20250314_153046")
    );
}

#[test]
fn checksum_file_has_the_fixed_name() {
    assert_eq!(CHECKSUM_FILE_NAME, "SOURCE_CHECKSUM.txt");
}

#[test]
fn checksum_file_text_of_a_known_checksum() {
    assert_eq!(
        checksum_file_text(0x0123_4567_89ab_cdef),
        "Source extraction checksum: 0x0123456789abcdef\n\
         This file verifies the integrity of extracted source files.\n\
         Generated by source_it module.\n"
    );
}

#[test]
fn checksum_file_text_keeps_the_zeros_in_front() {
    let text = checksum_file_text(0xabc);
    let first_line = text.lines().next().unwrap_or("");
    assert_eq!(first_line, "Source extraction checksum: 0x0000000000000abc");
}

#[test]
fn checksum_file_text_has_a_well_formed_first_line_and_two_more() {
    for checksum in [0u64, 1, 0xdead_beef, u64::MAX] {
        let text = checksum_file_text(checksum);
        let lines: Vec<&str> = text.lines().collect();
        assert_eq!(lines.len(), 3);
        let digits = lines[0].strip_prefix(CHECKSUM_LEAD).unwrap_or("");
        assert_eq!(digits.len(), 16);
        assert!(digits.chars().all(|c| c.is_ascii_digit() || ('a'..='f').contains(&c)));
        assert_eq!(u64::from_str_radix(digits, 16), Ok(checksum));
        assert!(text.ends_with('\n'));
    }
}
