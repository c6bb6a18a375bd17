//! Whether an extracted tree still holds what was embedded.
//!
//! The caller reads, for each embedded file in turn, what stands on disk at
//! that file's path under the extraction directory, and hands the readings
//! over. Each is compared byte for byte with the embedded content. The
//! checksum file plays no part in this: a tree is judged by its contents.

use crate::sourced_file::{texts, FileText, SourcedFile};
use vstd::prelude::*;
use vstd::utf8::*;

verus! {

/// What the caller found on disk at the path of one file.
#[derive(Debug, Clone, PartialEq, Eq)]
pub enum Reading {
    /// The file is there, and these are its bytes.
    Content(Vec<u8>),
    /// Nothing is there.
    Missing,
    /// Something is there that could not be read, for the cause given.
    Unreadable(String),
}

/// How a file on disk falls short of the embedded one.
#[derive(Debug)]
pub enum Discrepancy {
    /// The file is not there.
    Missing,
    /// The file could not be read, for the cause given.
    Unreadable(String),
    /// The file holds other bytes than the embedded content.
    ContentDiffers,
}

/// One file of the tree that does not match, and how.
#[derive(Debug)]
pub struct Mismatch {
    /// The path of the embedded file.
    pub path: &'static str,
    /// What is wrong with the file on disk.
    pub discrepancy: Discrepancy,
}

/// What a [`Reading`] says.
pub enum ReadingModel {
    Content(Seq<u8>),
    Missing,
    Unreadable(Seq<char>),
}

/// What a [`Discrepancy`] says.
pub enum DiscrepancyModel {
    Missing,
    Unreadable(Seq<char>),
    ContentDiffers,
}

/// What a [`Mismatch`] says.
pub struct MismatchModel {
    pub path: Seq<char>,
    pub discrepancy: DiscrepancyModel,
}

impl View for Reading {
    type V = ReadingModel;

    open spec fn view(&self) -> ReadingModel {
        match self {
            Reading::Content(bytes) => ReadingModel::Content(bytes@),
            Reading::Missing => ReadingModel::Missing,
            Reading::Unreadable(cause) => ReadingModel::Unreadable(cause@),
        }
    }
}

impl View for Discrepancy {
    type V = DiscrepancyModel;

    open spec fn view(&self) -> DiscrepancyModel {
        match self {
            Discrepancy::Missing => DiscrepancyModel::Missing,
            Discrepancy::Unreadable(cause) => DiscrepancyModel::Unreadable(cause@),
            Discrepancy::ContentDiffers => DiscrepancyModel::ContentDiffers,
        }
    }
}

impl View for Mismatch {
    type V = MismatchModel;

    open spec fn view(&self) -> MismatchModel {
        MismatchModel { path: self.path@, discrepancy: self.discrepancy@ }
    }
}

/// What a list of readings says, in the order of the list.
pub open spec fn reading_models(readings: Seq<Reading>) -> Seq<ReadingModel> {
    readings.map_values(|reading: Reading| reading@)
}

/// What a list of mismatches says, in the order of the list.
pub open spec fn mismatch_models(found: Seq<Mismatch>) -> Seq<MismatchModel> {
    found.map_values(|mismatch: Mismatch| mismatch@)
}

/// What a mismatch says, where there is one.
pub open spec fn found_model(found: Option<Mismatch>) -> Option<MismatchModel> {
    match found {
        Some(mismatch) => Some(mismatch@),
        None => None,
    }
}

/// The reading for the file at index `i`. A file for which the caller has
/// handed over no reading counts as missing.
pub open spec fn reading_for(readings: Seq<ReadingModel>, i: int) -> ReadingModel {
    if 0 <= i < readings.len() {
        readings[i]
    } else {
        ReadingModel::Missing
    }
}

/// What is wrong with one file, given what was found on disk for it: nothing
/// if and only if the bytes found are the UTF-8 bytes of the embedded
/// content.
pub open spec fn verdict(file: FileText, reading: ReadingModel) -> Option<MismatchModel> {
    match reading {
        ReadingModel::Content(bytes) => if bytes == encode_utf8(file.content) {
            None
        } else {
            Some(MismatchModel { path: file.path, discrepancy: DiscrepancyModel::ContentDiffers })
        },
        ReadingModel::Missing => Some(
            MismatchModel { path: file.path, discrepancy: DiscrepancyModel::Missing },
        ),
        ReadingModel::Unreadable(cause) => Some(
            MismatchModel { path: file.path, discrepancy: DiscrepancyModel::Unreadable(cause) },
        ),
    }
}

/// The mismatches of a tree: the verdicts on the files that do not match, in
/// the order of the files.
pub open spec fn mismatches(files: Seq<FileText>, readings: Seq<ReadingModel>) -> Seq<
    MismatchModel,
>
    decreases files.len(),
{
    if files.len() == 0 {
        Seq::empty()
    } else {
        let before = mismatches(files.drop_last(), readings);
        match verdict(files.last(), reading_for(readings, files.len() - 1)) {
            Some(mismatch) => before.push(mismatch),
            None => before,
        }
    }
}

/// The readings of a tree in which every file holds its embedded content.
pub open spec fn faithful(files: Seq<FileText>) -> Seq<ReadingModel> {
    Seq::new(files.len(), |i: int| ReadingModel::Content(encode_utf8(files[i].content)))
}

/// Whether two runs of bytes are the same.
pub fn same_bytes(first: &[u8], second: &[u8]) -> (same: bool)
    ensures
        same == (first@ == second@),
{
    if first.len() != second.len() {
        return false;
    }
    let mut i: usize = 0;
    while i < first.len()
        invariant
            first@.len() == second@.len(),
            i <= first@.len(),
            forall|k: int| 0 <= k < i ==> first@[k] == second@[k],
        decreases first@.len() - i,
    {
        if first[i] != second[i] {
            return false;
        }
        i = i + 1;
    }
    assert(first@ =~= second@);
    true
}

/// Judges one file by what was found on disk for it.
pub fn check_file(file: &SourcedFile, reading: &Reading) -> (found: Option<Mismatch>)
    ensures
        found_model(found) == verdict(file@, reading@),
{
    match reading {
        Reading::Content(bytes) => {
            if same_bytes(bytes.as_slice(), file.content.as_bytes()) {
                None
            } else {
                Some(Mismatch { path: file.path, discrepancy: Discrepancy::ContentDiffers })
            }
        },
        Reading::Missing => Some(Mismatch { path: file.path, discrepancy: Discrepancy::Missing }),
        Reading::Unreadable(cause) => Some(
            Mismatch { path: file.path, discrepancy: Discrepancy::Unreadable(cause.clone()) },
        ),
    }
}

/// Judges an extracted tree: `readings` holds, for each file of
/// `source_files` in turn, what was found on disk at its path. The result
/// lists the files that do not match, in the order of `source_files`; it is
/// empty if and only if every file on disk holds its embedded content.
pub fn verify_extracted_files_content(source_files: &[SourcedFile], readings: &[Reading]) -> (found:
    Vec<Mismatch>)
    ensures
        mismatch_models(found@) == mismatches(texts(source_files@), reading_models(readings@)),
{
    let mut found: Vec<Mismatch> = Vec::new();
    let mut i: usize = 0;
    assert(mismatch_models(found@) =~= Seq::<MismatchModel>::empty());
    while i < source_files.len()
        invariant
            i <= source_files@.len(),
            mismatch_models(found@) == mismatches(
                texts(source_files@).take(i as int),
                reading_models(readings@),
            ),
        decreases source_files@.len() - i,
    {
        let ghost before = found@;
        let verdict_here = if i < readings.len() {
            check_file(&source_files[i], &readings[i])
        } else {
            Some(Mismatch { path: source_files[i].path, discrepancy: Discrepancy::Missing })
        };
        proof {
            let done = texts(source_files@).take(i + 1);
            assert(done.drop_last() =~= texts(source_files@).take(i as int));
            assert(done.last() == source_files@[i as int]@);
            assert(found_model(verdict_here) == verdict(
                done.last(),
                reading_for(reading_models(readings@), i as int),
            ));
        }
        match verdict_here {
            Some(mismatch) => {
                found.push(mismatch);
                assert(mismatch_models(found@) =~= mismatch_models(before).push(mismatch@));
            },
            None => {},
        }
        i = i + 1;
    }
    assert(texts(source_files@).take(i as int) =~= texts(source_files@));
    found
}

/// A tree has no mismatch if and only if every file on disk holds its
/// embedded content; and it never has more mismatches than files.
pub proof fn lemma_no_mismatch(files: Seq<FileText>, readings: Seq<ReadingModel>)
    ensures
        mismatches(files, readings).len() <= files.len(),
        mismatches(files, readings).len() == 0 <==> forall|i: int|
            0 <= i < files.len() ==> #[trigger] reading_for(readings, i) == ReadingModel::Content(
                encode_utf8(files[i].content),
            ),
    decreases files.len(),
{
    if files.len() > 0 {
        let rest = files.drop_last();
        lemma_no_mismatch(rest, readings);
        let last = files.len() - 1;
        if mismatches(files, readings).len() == 0 {
            assert forall|i: int| 0 <= i < files.len() implies #[trigger] reading_for(readings, i)
                == ReadingModel::Content(encode_utf8(files[i].content)) by {
                if i < last {
                    assert(rest[i] == files[i]);
                }
            }
        } else {
            if mismatches(rest, readings).len() == 0 {
                assert(verdict(files.last(), reading_for(readings, last)) is Some);
            } else {
                let i = choose|i: int|
                    0 <= i < rest.len() && #[trigger] reading_for(readings, i)
                        != ReadingModel::Content(encode_utf8(rest[i].content));
                assert(rest[i] == files[i]);
            }
        }
    }
}

/// An extracted tree that nobody has touched has no mismatch.
pub proof fn lemma_unmodified_tree(files: Seq<FileText>)
    ensures
        mismatches(files, faithful(files)) == Seq::<MismatchModel>::empty(),
{
    lemma_no_mismatch(files, faithful(files));
    assert(mismatches(files, faithful(files)) =~= Seq::<MismatchModel>::empty());
}

/// Where one file fails its verdict and every other file holds its embedded
/// content, that verdict is the one mismatch of the tree.
pub proof fn lemma_one_mismatch(files: Seq<FileText>, readings: Seq<ReadingModel>, at: int)
    requires
        0 <= at < files.len(),
        verdict(files[at], reading_for(readings, at)) is Some,
        forall|i: int|
            0 <= i < files.len() && i != at ==> #[trigger] reading_for(readings, i)
                == ReadingModel::Content(encode_utf8(files[i].content)),
    ensures
        mismatches(files, readings) == seq![verdict(files[at], reading_for(readings, at))->0],
    decreases files.len(),
{
    let rest = files.drop_last();
    let last = files.len() - 1;
    if at == last {
        lemma_no_mismatch(rest, readings);
        assert forall|i: int| 0 <= i < rest.len() implies #[trigger] reading_for(readings, i)
            == ReadingModel::Content(encode_utf8(rest[i].content)) by {
            assert(rest[i] == files[i]);
        }
        assert(mismatches(rest, readings) =~= Seq::<MismatchModel>::empty());
        assert(mismatches(files, readings) =~= seq![
            verdict(files[at], reading_for(readings, at))->0,
        ]);
    } else {
        assert(rest[at] == files[at]);
        assert forall|i: int| 0 <= i < rest.len() && i != at implies #[trigger] reading_for(
            readings,
            i,
        ) == ReadingModel::Content(encode_utf8(rest[i].content)) by {
            assert(rest[i] == files[i]);
        }
        lemma_one_mismatch(rest, readings, at);
        assert(reading_for(readings, last) == ReadingModel::Content(
            encode_utf8(files[last].content),
        ));
    }
}

/// Where the content of one file of an extracted tree has been changed on
/// disk and nothing else, the tree has exactly one mismatch: that file, by
/// its path, with its content found to differ.
pub proof fn lemma_one_file_modified(files: Seq<FileText>, at: int, bytes: Seq<u8>)
    requires
        0 <= at < files.len(),
        bytes != encode_utf8(files[at].content),
    ensures
        mismatches(files, faithful(files).update(at, ReadingModel::Content(bytes))) == seq![
            MismatchModel { path: files[at].path, discrepancy: DiscrepancyModel::ContentDiffers },
        ],
{
    lemma_one_mismatch(files, faithful(files).update(at, ReadingModel::Content(bytes)), at);
}

} // verus!
