//! The names and the text that an extraction puts on disk.
//!
//! ```text
//! <base>/source_crate_<identifier>_<YYYYMMDD_HHMMSS>/
//!     <every embedded file at its own path>
//!     SOURCE_CHECKSUM.txt
//! ```

use crate::text::{hex_digits, lemma_digit_chars, push_hex};
use crate::timestamp::SEPARATOR;
use vstd::prelude::*;

verus! {

/// What the name of every extraction directory begins with.
pub const DIRECTORY_PREFIX: &'static str = "source_crate_";

/// The name of the file that holds the checksum, in the root of the
/// extraction directory.
pub const CHECKSUM_FILE_NAME: &'static str = "SOURCE_CHECKSUM.txt";

/// What stands before the checksum on the first line of the checksum file.
pub const CHECKSUM_LEAD: &'static str = "Source extraction checksum: 0x";

/// What follows the checksum in the checksum file.
pub const CHECKSUM_NOTE: &'static str =
    "\nThis file verifies the integrity of extracted source files.\nGenerated by source_it module.\n";

/// The name of the directory for an extraction of `identifier` made at
/// `timestamp`.
pub open spec fn directory_name(identifier: Seq<char>, timestamp: Seq<char>) -> Seq<char> {
    DIRECTORY_PREFIX@ + identifier + SEPARATOR@ + timestamp
}

/// The text of the checksum file for `checksum`: a first line that gives the
/// checksum as sixteen hexadecimal digits after `0x`, then two lines that say
/// what the file is.
pub open spec fn checksum_text(checksum: u64) -> Seq<char> {
    CHECKSUM_LEAD@ + hex_digits(checksum) + CHECKSUM_NOTE@
}

/// Whether `c` is a hexadecimal digit in lower case.
pub open spec fn is_hex_digit(c: char) -> bool {
    '0' <= c <= '9' || 'a' <= c <= 'f'
}

/// The name of the directory for an extraction of `identifier` made at
/// `timestamp`.
pub fn extraction_directory_name(identifier: &str, timestamp: &str) -> (name: String)
    ensures
        name@ == directory_name(identifier@, timestamp@),
{
    let mut name = String::from_str(DIRECTORY_PREFIX);
    name.append(identifier);
    name.append(SEPARATOR);
    name.append(timestamp);
    name
}

/// The text of the checksum file for `checksum`.
pub fn checksum_file_text(checksum: u64) -> (text: String)
    ensures
        text@ == checksum_text(checksum),
{
    let mut text = String::from_str(CHECKSUM_LEAD);
    push_hex(&mut text, checksum);
    text.append(CHECKSUM_NOTE);
    text
}

/// Extractions of one program made at different times get different
/// directories.
pub proof fn lemma_directory_names_differ(
    identifier: Seq<char>,
    first: Seq<char>,
    second: Seq<char>,
)
    requires
        first != second,
    ensures
        directory_name(identifier, first) != directory_name(identifier, second),
{
    let lead = DIRECTORY_PREFIX@ + identifier + SEPARATOR@;
    let a = directory_name(identifier, first);
    let b = directory_name(identifier, second);
    if a == b {
        assert(first =~= a.subrange(lead.len() as int, a.len() as int));
        assert(second =~= b.subrange(lead.len() as int, b.len() as int));
    }
}

/// The checksum stands in the checksum file as exactly sixteen hexadecimal
/// digits in lower case, right after the lead of the first line.
pub proof fn lemma_checksum_line(checksum: u64)
    ensures
        hex_digits(checksum).len() == 16,
        forall|i: int| 0 <= i < 16 ==> is_hex_digit(#[trigger] hex_digits(checksum)[i]),
        checksum_text(checksum).subrange(0, CHECKSUM_LEAD@.len() as int) == CHECKSUM_LEAD@,
        checksum_text(checksum).subrange(
            CHECKSUM_LEAD@.len() as int,
            (CHECKSUM_LEAD@.len() + 16) as int,
        ) == hex_digits(checksum),
{
    lemma_digit_chars();
    assert forall|i: int| 0 <= i < 16 implies is_hex_digit(#[trigger] hex_digits(checksum)[i]) by {
        let shift = (60 - 4 * i) as u64;
        assert((checksum >> shift) & 0xf < 16) by (bit_vector);
    }
    assert(checksum_text(checksum).subrange(0, CHECKSUM_LEAD@.len() as int) =~= CHECKSUM_LEAD@);
    assert(checksum_text(checksum).subrange(
        CHECKSUM_LEAD@.len() as int,
        (CHECKSUM_LEAD@.len() + 16) as int,
    ) =~= hex_digits(checksum));
}

} // verus!
