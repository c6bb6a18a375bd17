//! Self-extracting source bundles.
//!
//! A program that carries its own source files as an ordered list of
//! `(path, content)` pairs can write them back out as a timestamped directory
//! tree, together with a checksum of the whole list, and later compare such a
//! tree against the list it came from.
//!
//! This crate holds the decisions of that process; it touches neither the
//! file system nor the environment. The caller performs each step that an
//! [`Extraction`] asks for and reports how it went:
//!
//! ```text
//! let mut step = Extraction::start("my_app", false, FILES);
//! loop {
//!     match step {
//!         Step::Perform(extraction, action) => {
//!             let outcome = /* do what `action` says */;
//!             step = extraction.advance(outcome);
//!         }
//!         Step::Finished => break,        // the directory is complete
//!         Step::Failed(error) => break,   // `error` says which step failed
//!     }
//! }
//! ```
//!
//! The modules, leaves first:
//!
//! - [`sourced_file`]: an embedded file;
//! - [`text`]: numbers written out in decimal and in hexadecimal;
//! - [`timestamp`]: the suffix that tells repeated extractions apart;
//! - [`checksum`]: the checksum of an ordered list of files;
//! - [`layout`]: the names and the text that an extraction puts on disk;
//! - [`error`]: how an extraction fails;
//! - [`extraction`]: the course of an extraction, step by step;
//! - [`verification`]: whether an extracted tree still holds what was
//!   embedded;
//! - [`tree`]: what an extraction leaves behind, and that it verifies.

pub mod checksum;
pub mod error;
pub mod extraction;
pub mod layout;
pub mod sourced_file;
pub mod text;
pub mod timestamp;
pub mod tree;
pub mod verification;

pub use checksum::calculate_checksum;
pub use error::{ErrorKind, SourceExtractionError};
pub use extraction::{Action, Extraction, Outcome, Stage, Step};
pub use layout::CHECKSUM_FILE_NAME;
pub use sourced_file::{FileText, SourcedFile};
pub use timestamp::create_timestamp;
pub use verification::{verify_extracted_files_content, Discrepancy, Mismatch, Reading};
