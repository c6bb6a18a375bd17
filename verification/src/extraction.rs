//! The course of an extraction, step by step.
//!
//! An extraction touches the file system at every step, and this crate does
//! not. So the work is shared: an [`Extraction`] says what is to be done next,
//! the caller does it and reports the [`Outcome`], and the extraction answers
//! with the next [`Step`]. The order is fixed:
//!
//! 1. the name and the files are looked at, before anything is touched;
//! 2. the base directory is resolved;
//! 3. the directory of the extraction is created under it;
//! 4. the files are written, in the order of the list;
//! 5. the checksum file is written;
//! 6. the directory is resolved to its absolute path.
//!
//! The first failure ends the run. Nothing is retried and nothing is undone:
//! what was written before a failure stays on disk.

use crate::checksum::{calculate_checksum, checksum_of};
use crate::error::{error_with_cause, ErrorKind, ErrorText, SourceExtractionError};
use crate::layout::{checksum_file_text, checksum_text, directory_name, extraction_directory_name};
use crate::sourced_file::{texts, FileText, SourcedFile};
use crate::timestamp::{create_timestamp, timestamp_for, FALLBACK_TIMESTAMP};
use vstd::prelude::*;

verus! {

/// The message for an empty name.
pub const EMPTY_IDENTIFIER: &'static str = "Crate name cannot be empty";

/// The message for an empty list of files.
pub const EMPTY_FILE_SET: &'static str = "No source files provided for extraction";

/// What stands before the cause where the working directory was needed in
/// place of a base that could not be resolved, and was not to be had.
pub const NO_DIRECTORY_FOR_BASE: &'static str = "Failed to determine current directory: ";

/// What stands before the cause where no base was supplied and the working
/// directory was not to be had.
pub const NO_WORKING_DIRECTORY: &'static str = "Failed to get current working directory: ";

/// What stands before the cause where the directory of the extraction could
/// not be created.
pub const NO_ROOT: &'static str = "Failed to create extraction directory: ";

/// What stands before the path of a file that could not be written.
pub const NO_FILE: &'static str = "Failed to extract file '";

/// What stands between the path of such a file and the cause.
pub const NO_FILE_CAUSE: &'static str = "': ";

/// What stands before the cause where the checksum file could not be written.
pub const NO_CHECKSUM_FILE: &'static str = "Failed to write checksum file: ";

/// What stands before the cause where the finished directory could not be
/// resolved.
pub const NO_ABSOLUTE_PATH: &'static str = "Failed to get absolute path of extraction directory: ";

/// Where an extraction stands: what the caller is doing at the moment.
#[derive(Debug, Clone, Copy, PartialEq, Eq, Structural)]
pub enum Stage {
    /// Resolving the base directory that was supplied.
    ResolvingBase,
    /// Finding the working directory, to serve as the base or to hold it.
    LocatingWorkingDirectory,
    /// Creating the directory of the extraction.
    CreatingRoot,
    /// Writing the file at this index of the list.
    WritingFile(usize),
    /// Writing the checksum file.
    WritingChecksum,
    /// Resolving the directory of the extraction to its absolute path.
    ResolvingRoot,
}

/// What the caller is asked to do.
#[derive(Debug)]
pub enum Action {
    /// Resolve the base directory that was supplied to an absolute, canonical
    /// path, and take that as the base.
    ResolveBase,
    /// Find the working directory. Where a base was supplied, the base is that
    /// path joined onto the working directory; else it is the working
    /// directory itself.
    LocateWorkingDirectory,
    /// Create the directory of this name under the base, with every ancestor
    /// that is missing. It is the root of the extraction.
    CreateRoot(String),
    /// Write this file's content at this file's path under the root, creating
    /// the directories in between and replacing what is there.
    WriteFile(SourcedFile),
    /// Write this text to the checksum file in the root.
    WriteChecksum(String),
    /// Resolve the root to its absolute, canonical path: the result of the
    /// extraction.
    ResolveRoot,
}

/// How the caller fared with an [`Action`].
#[derive(Debug)]
pub enum Outcome {
    /// It was done.
    Completed,
    /// It could not be done, for the cause given.
    Failed(String),
}

/// What an [`Action`] says.
pub enum ActionText {
    ResolveBase,
    LocateWorkingDirectory,
    CreateRoot(Seq<char>),
    WriteFile(FileText),
    WriteChecksum(Seq<char>),
    ResolveRoot,
}

/// What an [`Outcome`] says.
pub enum OutcomeText {
    Completed,
    Failed(Seq<char>),
}

impl View for Action {
    type V = ActionText;

    open spec fn view(&self) -> ActionText {
        match self {
            Action::ResolveBase => ActionText::ResolveBase,
            Action::LocateWorkingDirectory => ActionText::LocateWorkingDirectory,
            Action::CreateRoot(name) => ActionText::CreateRoot(name@),
            Action::WriteFile(file) => ActionText::WriteFile(file@),
            Action::WriteChecksum(text) => ActionText::WriteChecksum(text@),
            Action::ResolveRoot => ActionText::ResolveRoot,
        }
    }
}

impl View for Outcome {
    type V = OutcomeText;

    open spec fn view(&self) -> OutcomeText {
        match self {
            Outcome::Completed => OutcomeText::Completed,
            Outcome::Failed(cause) => OutcomeText::Failed(cause@),
        }
    }
}

/// An extraction under way, as plain values: what is extracted, and where
/// the work stands.
pub struct ExtractionModel {
    /// The name of the program whose source this is.
    pub identifier: Seq<char>,
    /// The files, in the order in which they are written.
    pub files: Seq<FileText>,
    /// Whether the caller supplied a base directory.
    pub base_supplied: bool,
    /// What the caller is doing at the moment.
    pub stage: Stage,
}

/// One step of a run, as plain values.
pub enum StepText {
    /// The extraction goes on: the caller performs the action and reports.
    Perform(ExtractionModel, ActionText),
    /// Every step was done.
    Finished,
    /// A step failed, and the extraction with it.
    Failed(ErrorText),
}

impl ExtractionModel {
    /// What holds of every extraction under way: there is a name and at least
    /// one file, a base is resolved only where one was supplied, and a file
    /// being written is one of the list.
    pub open spec fn wf(self) -> bool {
        &&& self.identifier.len() > 0
        &&& 0 < self.files.len() <= usize::MAX
        &&& (self.stage is ResolvingBase ==> self.base_supplied)
        &&& (self.stage matches Stage::WritingFile(i) ==> i < self.files.len())
    }

    /// The same extraction at another stage.
    pub open spec fn at(self, stage: Stage) -> ExtractionModel {
        ExtractionModel { stage, ..self }
    }

    /// What the caller is to do at this stage. The one action that depends on
    /// the time is the creation of the root, whose name ends with `stamp`.
    pub open spec fn action(self, stamp: Seq<char>) -> ActionText {
        match self.stage {
            Stage::ResolvingBase => ActionText::ResolveBase,
            Stage::LocatingWorkingDirectory => ActionText::LocateWorkingDirectory,
            Stage::CreatingRoot => ActionText::CreateRoot(directory_name(self.identifier, stamp)),
            Stage::WritingFile(i) => ActionText::WriteFile(self.files[i as int]),
            Stage::WritingChecksum => ActionText::WriteChecksum(
                checksum_text(checksum_of(self.files)),
            ),
            Stage::ResolvingRoot => ActionText::ResolveRoot,
        }
    }

    /// The stage that follows this one when its action was done, or nothing
    /// where that was the last.
    pub open spec fn following(self) -> Option<Stage> {
        match self.stage {
            Stage::ResolvingBase => Some(Stage::CreatingRoot),
            Stage::LocatingWorkingDirectory => Some(Stage::CreatingRoot),
            Stage::CreatingRoot => Some(Stage::WritingFile(0)),
            Stage::WritingFile(i) => if i + 1 < self.files.len() {
                Some(Stage::WritingFile((i + 1) as usize))
            } else {
                Some(Stage::WritingChecksum)
            },
            Stage::WritingChecksum => Some(Stage::ResolvingRoot),
            Stage::ResolvingRoot => None,
        }
    }

    /// The error that ends the run when the action of this stage fails for
    /// `cause`. (A base that cannot be resolved ends no run: see
    /// [`Self::next`].)
    pub open spec fn failure(self, cause: Seq<char>) -> ErrorText {
        match self.stage {
            Stage::ResolvingBase => ErrorText {
                kind: ErrorKind::Environment,
                message: NO_DIRECTORY_FOR_BASE@ + cause,
            },
            Stage::LocatingWorkingDirectory => ErrorText {
                kind: ErrorKind::Environment,
                message: if self.base_supplied {
                    NO_DIRECTORY_FOR_BASE@ + cause
                } else {
                    NO_WORKING_DIRECTORY@ + cause
                },
            },
            Stage::CreatingRoot => ErrorText {
                kind: ErrorKind::DirectoryCreation,
                message: NO_ROOT@ + cause,
            },
            Stage::WritingFile(i) => ErrorText {
                kind: ErrorKind::FileExtraction,
                message: NO_FILE@ + self.files[i as int].path + NO_FILE_CAUSE@ + cause,
            },
            Stage::WritingChecksum => ErrorText {
                kind: ErrorKind::ChecksumWrite,
                message: NO_CHECKSUM_FILE@ + cause,
            },
            Stage::ResolvingRoot => ErrorText {
                kind: ErrorKind::PathResolution,
                message: NO_ABSOLUTE_PATH@ + cause,
            },
        }
    }

    /// The step that asks for the action of `stage`.
    pub open spec fn enter(self, stage: Stage, stamp: Seq<char>) -> StepText {
        StepText::Perform(self.at(stage), self.at(stage).action(stamp))
    }

    /// The step that follows when the caller reports `outcome` for the action
    /// of this stage, at a time for which the suffix is `stamp`.
    ///
    /// An action that was done leads to the following stage, the last one to
    /// the end. An action that failed ends the run with the error of its
    /// stage, with one exception: where the base that was supplied cannot be
    /// resolved, the working directory is tried in its place.
    pub open spec fn next(self, outcome: OutcomeText, stamp: Seq<char>) -> StepText {
        match outcome {
            OutcomeText::Completed => match self.following() {
                Some(stage) => self.enter(stage, stamp),
                None => StepText::Finished,
            },
            OutcomeText::Failed(cause) => if self.stage is ResolvingBase {
                self.enter(Stage::LocatingWorkingDirectory, stamp)
            } else {
                StepText::Failed(self.failure(cause))
            },
        }
    }

    /// The most reports that the caller can still make before the run ends.
    pub open spec fn remaining(self) -> nat {
        match self.stage {
            Stage::ResolvingBase => self.files.len() + 5,
            Stage::LocatingWorkingDirectory => self.files.len() + 4,
            Stage::CreatingRoot => self.files.len() + 3,
            Stage::WritingFile(i) => (self.files.len() - i + 2) as nat,
            Stage::WritingChecksum => 2,
            Stage::ResolvingRoot => 1,
        }
    }
}

/// The first step of an extraction of `files` for the program `identifier`.
///
/// Without a name, or without files, there is none: the run has failed before
/// anything is touched, and the empty name is reported first. Else the base
/// is resolved, where one was supplied, or the working directory found.
pub open spec fn begin(identifier: Seq<char>, base_supplied: bool, files: Seq<FileText>) -> StepText {
    if identifier.len() == 0 {
        StepText::Failed(ErrorText { kind: ErrorKind::EmptyIdentifier, message: EMPTY_IDENTIFIER@ })
    } else if files.len() == 0 {
        StepText::Failed(ErrorText { kind: ErrorKind::EmptyFileSet, message: EMPTY_FILE_SET@ })
    } else {
        let initial = ExtractionModel {
            identifier,
            files,
            base_supplied,
            stage: if base_supplied {
                Stage::ResolvingBase
            } else {
                Stage::LocatingWorkingDirectory
            },
        };
        StepText::Perform(initial, initial.action(Seq::empty()))
    }
}

/// An extraction under way.
pub struct Extraction<'a> {
    identifier: &'a str,
    files: &'a [SourcedFile],
    base_supplied: bool,
    stage: Stage,
    /// The checksum of `files`, from the moment the root exists.
    checksum: u64,
}

/// One step of a run.
pub enum Step<'a> {
    /// The extraction goes on: the caller performs the action and reports the
    /// outcome to [`Extraction::advance`].
    Perform(Extraction<'a>, Action),
    /// Every step was done: the path that the last action resolved is the
    /// result.
    Finished,
    /// A step failed, and the extraction with it.
    Failed(SourceExtractionError),
}

impl<'a> View for Extraction<'a> {
    type V = ExtractionModel;

    closed spec fn view(&self) -> ExtractionModel {
        ExtractionModel {
            identifier: self.identifier@,
            files: texts(self.files@),
            base_supplied: self.base_supplied,
            stage: self.stage,
        }
    }
}

impl<'a> View for Step<'a> {
    type V = StepText;

    open spec fn view(&self) -> StepText {
        match self {
            Step::Perform(extraction, action) => StepText::Perform(extraction@, action@),
            Step::Finished => StepText::Finished,
            Step::Failed(error) => StepText::Failed(error@),
        }
    }
}

impl<'a> Extraction<'a> {
    /// Whether the files are being written or have been: from then on the
    /// checksum is held.
    spec fn root_exists(self) -> bool {
        self.stage is WritingFile || self.stage is WritingChecksum || self.stage is ResolvingRoot
    }

    #[verifier::type_invariant]
    spec fn inv(self) -> bool {
        &&& self@.wf()
        &&& self.root_exists() ==> self.checksum == checksum_of(texts(self.files@))
    }

    /// Begins an extraction of `files` for the program `identifier`, under
    /// the base directory that the caller holds if `base_supplied`, else
    /// under the working directory.
    pub fn start(identifier: &'a str, base_supplied: bool, files: &'a [SourcedFile]) -> (step: Step<
        'a,
    >)
        ensures
            step@ == begin(identifier@, base_supplied, texts(files@)),
            step matches Step::Perform(extraction, _) ==> extraction@.wf(),
    {
        if identifier.is_empty() {
            return Step::Failed(
                SourceExtractionError::new(
                    ErrorKind::EmptyIdentifier,
                    String::from_str(EMPTY_IDENTIFIER),
                ),
            );
        }
        if files.len() == 0 {
            return Step::Failed(
                SourceExtractionError::new(
                    ErrorKind::EmptyFileSet,
                    String::from_str(EMPTY_FILE_SET),
                ),
            );
        }
        let (stage, action) = if base_supplied {
            (Stage::ResolvingBase, Action::ResolveBase)
        } else {
            (Stage::LocatingWorkingDirectory, Action::LocateWorkingDirectory)
        };
        Step::Perform(Extraction { identifier, files, base_supplied, stage, checksum: 0 }, action)
    }

    /// Where the work stands.
    pub fn stage(&self) -> (stage: Stage)
        ensures
            stage == self@.stage,
    {
        self.stage
    }

    /// Whether the step that follows `outcome` is the creation of the root,
    /// whose name holds the time.
    fn names_root_after(&self, outcome: &Outcome) -> (names: bool)
        ensures
            names == (outcome@ is Completed && self@.following() == Some(Stage::CreatingRoot)),
    {
        match (outcome, self.stage) {
            (Outcome::Completed, Stage::ResolvingBase) => true,
            (Outcome::Completed, Stage::LocatingWorkingDirectory) => true,
            _ => false,
        }
    }

    /// The step that follows when the caller reports `outcome` for the action
    /// it was asked for, where `stamp` is the suffix for the present moment.
    pub fn advance_with(self, outcome: Outcome, stamp: &str) -> (step: Step<'a>)
        ensures
            step@ == self@.next(outcome@, stamp@),
            step matches Step::Perform(extraction, _) ==> extraction@.wf(),
    {
        proof {
            use_type_invariant(&self);
        }
        let Extraction { identifier, files, base_supplied, stage, checksum } = self;
        match outcome {
            Outcome::Completed => match stage {
                Stage::ResolvingBase | Stage::LocatingWorkingDirectory => Step::Perform(
                    Extraction { identifier, files, base_supplied, stage: Stage::CreatingRoot, checksum },
                    Action::CreateRoot(extraction_directory_name(identifier, stamp)),
                ),
                Stage::CreatingRoot => {
                    let checksum = calculate_checksum(files);
                    let first = files[0];
                    Step::Perform(
                        Extraction {
                            identifier,
                            files,
                            base_supplied,
                            stage: Stage::WritingFile(0),
                            checksum,
                        },
                        Action::WriteFile(first),
                    )
                },
                Stage::WritingFile(i) => if i + 1 < files.len() {
                    let file = files[i + 1];
                    Step::Perform(
                        Extraction {
                            identifier,
                            files,
                            base_supplied,
                            stage: Stage::WritingFile(i + 1),
                            checksum,
                        },
                        Action::WriteFile(file),
                    )
                } else {
                    Step::Perform(
                        Extraction {
                            identifier,
                            files,
                            base_supplied,
                            stage: Stage::WritingChecksum,
                            checksum,
                        },
                        Action::WriteChecksum(checksum_file_text(checksum)),
                    )
                },
                Stage::WritingChecksum => Step::Perform(
                    Extraction {
                        identifier,
                        files,
                        base_supplied,
                        stage: Stage::ResolvingRoot,
                        checksum,
                    },
                    Action::ResolveRoot,
                ),
                Stage::ResolvingRoot => Step::Finished,
            },
            Outcome::Failed(cause) => match stage {
                Stage::ResolvingBase => Step::Perform(
                    Extraction {
                        identifier,
                        files,
                        base_supplied,
                        stage: Stage::LocatingWorkingDirectory,
                        checksum,
                    },
                    Action::LocateWorkingDirectory,
                ),
                Stage::LocatingWorkingDirectory => Step::Failed(
                    error_with_cause(
                        ErrorKind::Environment,
                        if base_supplied {
                            NO_DIRECTORY_FOR_BASE
                        } else {
                            NO_WORKING_DIRECTORY
                        },
                        cause.as_str(),
                    ),
                ),
                Stage::CreatingRoot => Step::Failed(
                    error_with_cause(ErrorKind::DirectoryCreation, NO_ROOT, cause.as_str()),
                ),
                Stage::WritingFile(i) => {
                    let mut message = String::from_str(NO_FILE);
                    message.append(files[i].path);
                    message.append(NO_FILE_CAUSE);
                    message.append(cause.as_str());
                    Step::Failed(SourceExtractionError::new(ErrorKind::FileExtraction, message))
                },
                Stage::WritingChecksum => Step::Failed(
                    error_with_cause(ErrorKind::ChecksumWrite, NO_CHECKSUM_FILE, cause.as_str()),
                ),
                Stage::ResolvingRoot => Step::Failed(
                    error_with_cause(ErrorKind::PathResolution, NO_ABSOLUTE_PATH, cause.as_str()),
                ),
            },
        }
    }

    /// The step that follows when the caller reports `outcome` for the action
    /// it was asked for. Where that step names the root, the system clock is
    /// read for the suffix of the name.
    pub fn advance(self, outcome: Outcome) -> (step: Step<'a>)
        ensures
            exists|reading: Option<u64>|
                step@ == self@.next(outcome@, #[trigger] timestamp_for(reading)),
            step matches Step::Perform(extraction, _) ==> extraction@.wf(),
    {
        if self.names_root_after(&outcome) {
            let stamp = create_timestamp();
            self.advance_with(outcome, stamp.as_str())
        } else {
            let step = self.advance_with(outcome, FALLBACK_TIMESTAMP);
            assert(step@ == self@.next(outcome@, timestamp_for(None)));
            step
        }
    }
}

/// What the caller reports when all goes well, `count` times over.
pub open spec fn completed(count: nat) -> Seq<OutcomeText> {
    Seq::new(count, |i: int| OutcomeText::Completed)
}

/// The step that follows `step` when the caller reports `outcome`. A run that
/// has ended stays as it ended.
pub open spec fn then(step: StepText, outcome: OutcomeText, stamp: Seq<char>) -> StepText {
    match step {
        StepText::Perform(extraction, _) => extraction.next(outcome, stamp),
        _ => step,
    }
}

/// Where a run that began with `first` stands after the caller has reported
/// `outcomes`, one after the other.
pub open spec fn run(first: StepText, outcomes: Seq<OutcomeText>, stamp: Seq<char>) -> StepText
    decreases outcomes.len(),
{
    if outcomes.len() == 0 {
        first
    } else {
        then(run(first, outcomes.drop_last(), stamp), outcomes.last(), stamp)
    }
}

/// The stage of an extraction of `files` files at which `count` actions have
/// been done and none has failed, for `count` up to `files + 3`.
pub open spec fn stage_after(base_supplied: bool, files: nat, count: nat) -> Stage {
    if count == 0 {
        if base_supplied {
            Stage::ResolvingBase
        } else {
            Stage::LocatingWorkingDirectory
        }
    } else if count == 1 {
        Stage::CreatingRoot
    } else if count < files + 2 {
        Stage::WritingFile((count - 2) as usize)
    } else if count == files + 2 {
        Stage::WritingChecksum
    } else {
        Stage::ResolvingRoot
    }
}

/// One report takes an extraction strictly nearer to its end and changes
/// nothing of what is extracted. The run finishes only on the last action
/// done, and fails only on an action that failed, with the error of the stage
/// at which it failed.
pub proof fn lemma_step(extraction: ExtractionModel, outcome: OutcomeText, stamp: Seq<char>)
    requires
        extraction.wf(),
    ensures
        match extraction.next(outcome, stamp) {
            StepText::Perform(after, action) => {
                &&& after.wf()
                &&& after == extraction.at(after.stage)
                &&& action == after.action(stamp)
                &&& after.remaining() < extraction.remaining()
            },
            StepText::Finished => outcome is Completed && extraction.stage is ResolvingRoot,
            StepText::Failed(error) => {
                &&& outcome matches OutcomeText::Failed(cause)
                &&& error == extraction.failure(cause)
                &&& !(extraction.stage is ResolvingBase)
            },
        },
{
}

/// A run that has ended takes no further step.
pub proof fn lemma_ended_run_stays(first: StepText, outcomes: Seq<OutcomeText>, stamp: Seq<char>)
    requires
        !(first is Perform),
    ensures
        run(first, outcomes, stamp) == first,
    decreases outcomes.len(),
{
    if outcomes.len() > 0 {
        lemma_ended_run_stays(first, outcomes.drop_last(), stamp);
    }
}

/// Every run ends: after as many reports as [`ExtractionModel::remaining`]
/// counts, at the latest, the extraction has finished or failed.
pub proof fn lemma_run_ends(
    extraction: ExtractionModel,
    action: ActionText,
    outcomes: Seq<OutcomeText>,
    stamp: Seq<char>,
)
    requires
        extraction.wf(),
    ensures
        run(StepText::Perform(extraction, action), outcomes, stamp) matches StepText::Perform(
            after,
            _,
        ) ==> after.wf() && after.remaining() + outcomes.len() <= extraction.remaining(),
        outcomes.len() >= extraction.remaining() ==> !(run(
            StepText::Perform(extraction, action),
            outcomes,
            stamp,
        ) is Perform),
    decreases outcomes.len(),
{
    if outcomes.len() > 0 {
        lemma_run_ends(extraction, action, outcomes.drop_last(), stamp);
        let before = run(StepText::Perform(extraction, action), outcomes.drop_last(), stamp);
        if let StepText::Perform(at, _) = before {
            lemma_step(at, outcomes.last(), stamp);
        }
    }
}

/// The course of an extraction in which nothing fails.
///
/// With a name and at least one file, the run begins; the caller is asked, in
/// this order, to resolve the base or to find the working directory, to
/// create the root under the name made of the program's name and `stamp`, to
/// write each file of the list, first to last, to write the checksum of the
/// list, and to resolve the root. That done, the run has finished: after
/// `files.len() + 4` reports and not before.
pub proof fn lemma_unhindered_run(
    identifier: Seq<char>,
    base_supplied: bool,
    files: Seq<FileText>,
    stamp: Seq<char>,
    count: nat,
)
    requires
        identifier.len() > 0,
        0 < files.len() <= usize::MAX,
        count <= files.len() + 4,
    ensures
        run(begin(identifier, base_supplied, files), completed(count), stamp) == if count
            == files.len() + 4 {
            StepText::Finished
        } else {
            let reached = ExtractionModel {
                identifier,
                files,
                base_supplied,
                stage: stage_after(base_supplied, files.len(), count),
            };
            StepText::Perform(reached, reached.action(stamp))
        },
    decreases count,
{
    if count > 0 {
        lemma_unhindered_run(identifier, base_supplied, files, stamp, (count - 1) as nat);
        assert(completed(count).drop_last() =~= completed((count - 1) as nat));
        assert(completed(count).last() == OutcomeText::Completed);
    }
}

/// The end of an extraction in which one action fails.
///
/// Where the first `count` actions are done and the next one fails for
/// `cause`, the run has failed with the error of that action's stage: for a
/// file, the error names the path of that very file, and the files before it
/// in the list, and no others, have been written. The one failure that ends
/// no run is that of resolving the base, which is the first action where a
/// base was supplied.
pub proof fn lemma_first_failure(
    identifier: Seq<char>,
    base_supplied: bool,
    files: Seq<FileText>,
    stamp: Seq<char>,
    count: nat,
    cause: Seq<char>,
)
    requires
        identifier.len() > 0,
        0 < files.len() <= usize::MAX,
        count < files.len() + 4,
        count > 0 || !base_supplied,
    ensures
        run(
            begin(identifier, base_supplied, files),
            completed(count).push(OutcomeText::Failed(cause)),
            stamp,
        ) == StepText::Failed(
            (ExtractionModel {
                identifier,
                files,
                base_supplied,
                stage: stage_after(base_supplied, files.len(), count),
            }).failure(cause),
        ),
{
    lemma_unhindered_run(identifier, base_supplied, files, stamp, count);
    let outcomes = completed(count).push(OutcomeText::Failed(cause));
    assert(outcomes.drop_last() =~= completed(count));
    assert(outcomes.last() == OutcomeText::Failed(cause));
}

/// Where the base that was supplied cannot be resolved, the extraction goes
/// on under the working directory as if nothing had failed.
pub proof fn lemma_unresolved_base(identifier: Seq<char>, files: Seq<FileText>, cause: Seq<char>, stamp: Seq<char>)
    requires
        identifier.len() > 0,
        0 < files.len() <= usize::MAX,
    ensures
        run(begin(identifier, true, files), seq![OutcomeText::Failed(cause)], stamp) == ({
            let reached = ExtractionModel {
                identifier,
                files,
                base_supplied: true,
                stage: Stage::LocatingWorkingDirectory,
            };
            StepText::Perform(reached, ActionText::LocateWorkingDirectory)
        }),
{
    let outcomes = seq![OutcomeText::Failed(cause)];
    assert(outcomes.drop_last() =~= Seq::<OutcomeText>::empty());
    assert(run(begin(identifier, true, files), outcomes.drop_last(), stamp) == begin(
        identifier,
        true,
        files,
    ));
}

} // verus!
