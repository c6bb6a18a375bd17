//! The tree that an extraction leaves behind.
//!
//! This crate writes nothing itself, so what it can say of the result is
//! said of a disk that keeps what it is given: each path holds the bytes
//! that were last written to it, and nothing else changes. On such a disk
//! the actions of an extraction in which nothing fails leave a tree that
//! mirrors the embedded files, with the checksum file beside them.

use crate::checksum::checksum_of;
use crate::extraction::{
    begin, completed, lemma_unhindered_run, run, stage_after, ActionText, ExtractionModel, Stage,
    StepText,
};
use crate::layout::{checksum_text, CHECKSUM_FILE_NAME};
use crate::sourced_file::FileText;
use crate::verification::{lemma_no_mismatch, mismatches, MismatchModel, ReadingModel};
use vstd::prelude::*;
use vstd::utf8::*;

verus! {

/// The files under an extraction directory: each path that holds a file,
/// with the bytes of that file.
pub type Tree = Map<Seq<char>, Seq<u8>>;

/// The tree once the caller has done `action`. Only two kinds of action
/// write a file.
pub open spec fn after_action(tree: Tree, action: ActionText) -> Tree {
    match action {
        ActionText::WriteFile(file) => tree.insert(file.path, encode_utf8(file.content)),
        ActionText::WriteChecksum(text) => tree.insert(CHECKSUM_FILE_NAME@, encode_utf8(text)),
        _ => tree,
    }
}

/// The tree once the caller has done the first `count` actions of an
/// extraction in which nothing fails.
pub open spec fn tree_after(
    identifier: Seq<char>,
    base_supplied: bool,
    files: Seq<FileText>,
    stamp: Seq<char>,
    count: nat,
) -> Tree
    decreases count,
{
    if count == 0 {
        Map::empty()
    } else {
        let before = tree_after(identifier, base_supplied, files, stamp, (count - 1) as nat);
        match run(
            begin(identifier, base_supplied, files),
            completed((count - 1) as nat),
            stamp,
        ) {
            StepText::Perform(_, action) => after_action(before, action),
            _ => before,
        }
    }
}

/// The tree that holds the first `count` of `files`, written in order.
pub open spec fn written(files: Seq<FileText>, count: nat) -> Tree
    decreases count,
{
    if count == 0 {
        Map::empty()
    } else {
        written(files, (count - 1) as nat).insert(
            files[count - 1].path,
            encode_utf8(files[count - 1].content),
        )
    }
}

/// What is found in `tree` at `path`.
pub open spec fn read(tree: Tree, path: Seq<char>) -> ReadingModel {
    if tree.contains_key(path) {
        ReadingModel::Content(tree[path])
    } else {
        ReadingModel::Missing
    }
}

/// What is found in `tree` at the path of each of `files`, in turn.
pub open spec fn readings_of(tree: Tree, files: Seq<FileText>) -> Seq<ReadingModel> {
    Seq::new(files.len(), |i: int| read(tree, files[i].path))
}

/// Whether no two of `files` share a path and none takes the place of the
/// checksum file.
pub open spec fn paths_apart(files: Seq<FileText>) -> bool {
    &&& forall|i: int, j: int|
        0 <= i < j < files.len() ==> (#[trigger] files[i]).path != (#[trigger] files[j]).path
    &&& forall|i: int| 0 <= i < files.len() ==> (#[trigger] files[i]).path != CHECKSUM_FILE_NAME@
}

/// A tree of written files holds exactly the paths of those files, and at
/// each path the content of the last file written there.
pub proof fn lemma_written(files: Seq<FileText>, count: nat)
    requires
        count <= files.len(),
    ensures
        forall|path: Seq<char>|
            written(files, count).contains_key(path) <==> exists|i: int|
                0 <= i < count && (#[trigger] files[i]).path == path,
        forall|i: int|
            0 <= i < count && (forall|j: int|
                i < j < count ==> (#[trigger] files[j]).path != files[i].path) ==> written(
                files,
                count,
            )[(#[trigger] files[i]).path] == encode_utf8(files[i].content),
    decreases count,
{
    if count > 0 {
        let before = written(files, (count - 1) as nat);
        let last = files[count - 1];
        lemma_written(files, (count - 1) as nat);
        assert forall|path: Seq<char>|
            written(files, count).contains_key(path) <==> exists|i: int|
                0 <= i < count && (#[trigger] files[i]).path == path by {
            if written(files, count).contains_key(path) {
                if path == last.path {
                    assert(files[count - 1].path == path);
                } else {
                    assert(before.contains_key(path));
                    let i = choose|i: int| 0 <= i < count - 1 && (#[trigger] files[i]).path == path;
                    assert(files[i].path == path);
                }
            }
            if exists|i: int| 0 <= i < count && (#[trigger] files[i]).path == path {
                let i = choose|i: int| 0 <= i < count && (#[trigger] files[i]).path == path;
                if i < count - 1 {
                    assert(before.contains_key(path));
                }
            }
        }
        assert forall|i: int|
            0 <= i < count && (forall|j: int|
                i < j < count ==> (#[trigger] files[j]).path != files[i].path) implies written(
            files,
            count,
        )[(#[trigger] files[i]).path] == encode_utf8(files[i].content) by {
            if i < count - 1 {
                assert(files[count - 1].path != files[i].path);
                assert forall|j: int| i < j < count - 1 implies (#[trigger] files[j]).path
                    != files[i].path by {}
            }
        }
    }
}

/// The actions of an extraction in which nothing fails write the files in
/// order, then the checksum file, and nothing else.
pub proof fn lemma_tree_after(
    identifier: Seq<char>,
    base_supplied: bool,
    files: Seq<FileText>,
    stamp: Seq<char>,
    count: nat,
)
    requires
        identifier.len() > 0,
        0 < files.len() <= usize::MAX,
        count <= files.len() + 4,
    ensures
        tree_after(identifier, base_supplied, files, stamp, count) == if count <= 2 {
            Map::empty()
        } else if count <= files.len() + 2 {
            written(files, (count - 2) as nat)
        } else {
            written(files, files.len()).insert(
                CHECKSUM_FILE_NAME@,
                encode_utf8(checksum_text(checksum_of(files))),
            )
        },
    decreases count,
{
    if count > 0 {
        let done = (count - 1) as nat;
        let before = tree_after(identifier, base_supplied, files, stamp, done);
        lemma_tree_after(identifier, base_supplied, files, stamp, done);
        lemma_unhindered_run(identifier, base_supplied, files, stamp, done);
        let reached = ExtractionModel {
            identifier,
            files,
            base_supplied,
            stage: stage_after(base_supplied, files.len(), done),
        };
        assert(run(begin(identifier, base_supplied, files), completed(done), stamp)
            == StepText::Perform(reached, reached.action(stamp)));
        assert(tree_after(identifier, base_supplied, files, stamp, count) == after_action(
            before,
            reached.action(stamp),
        ));
        if 2 <= done && done < files.len() + 2 {
            let at = (done - 2) as usize;
            assert(reached.stage == Stage::WritingFile(at));
            assert(reached.action(stamp) == ActionText::WriteFile(files[done - 2]));
            assert(before == written(files, (done - 2) as nat));
        }
    }
}

/// What an extraction leaves behind when nothing fails.
///
/// The tree holds a file at the path of each embedded file and at the name
/// of the checksum file, and nowhere else. The checksum file holds the text
/// for the checksum of the embedded files. Each embedded file whose path no
/// later file of the list shares, and which does not take the place of the
/// checksum file, holds its embedded content, byte for byte.
pub proof fn lemma_extracted_tree(
    identifier: Seq<char>,
    base_supplied: bool,
    files: Seq<FileText>,
    stamp: Seq<char>,
)
    requires
        identifier.len() > 0,
        0 < files.len() <= usize::MAX,
    ensures
        ({
            let tree = tree_after(identifier, base_supplied, files, stamp, files.len() + 4);
            &&& forall|path: Seq<char>|
                tree.contains_key(path) <==> path == CHECKSUM_FILE_NAME@ || exists|i: int|
                    0 <= i < files.len() && (#[trigger] files[i]).path == path
            &&& tree[CHECKSUM_FILE_NAME@] == encode_utf8(checksum_text(checksum_of(files)))
            &&& forall|i: int|
                0 <= i < files.len() && files[i].path != CHECKSUM_FILE_NAME@ && (forall|j: int|
                    i < j < files.len() ==> (#[trigger] files[j]).path != files[i].path)
                    ==> tree[(#[trigger] files[i]).path] == encode_utf8(files[i].content)
        }),
{
    lemma_tree_after(identifier, base_supplied, files, stamp, files.len() + 4);
    lemma_written(files, files.len());
}

/// An extracted tree that nobody has touched verifies: where no two
/// embedded files share a path and none takes the place of the checksum
/// file, reading back every file of the tree finds no mismatch.
pub proof fn lemma_extracted_tree_verifies(
    identifier: Seq<char>,
    base_supplied: bool,
    files: Seq<FileText>,
    stamp: Seq<char>,
)
    requires
        identifier.len() > 0,
        0 < files.len() <= usize::MAX,
        paths_apart(files),
    ensures
        mismatches(
            files,
            readings_of(
                tree_after(identifier, base_supplied, files, stamp, files.len() + 4),
                files,
            ),
        ) == Seq::<MismatchModel>::empty(),
{
    let tree = tree_after(identifier, base_supplied, files, stamp, files.len() + 4);
    let readings = readings_of(tree, files);
    lemma_extracted_tree(identifier, base_supplied, files, stamp);
    lemma_no_mismatch(files, readings);
    assert forall|i: int| 0 <= i < files.len() implies #[trigger] crate::verification::reading_for(
        readings,
        i,
    ) == ReadingModel::Content(encode_utf8(files[i].content)) by {
        assert(files[i].path != CHECKSUM_FILE_NAME@);
        assert forall|j: int| i < j < files.len() implies (#[trigger] files[j]).path
            != files[i].path by {}
        assert(tree.contains_key(files[i].path));
        assert(tree[files[i].path] == encode_utf8(files[i].content));
    }
    assert(mismatches(files, readings) =~= Seq::<MismatchModel>::empty());
}

} // verus!
