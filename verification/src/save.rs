//! Saving new counters to a profile document, step by step: the document
//! is read, its text is put aside as a backup, and only then is the
//! rewritten text written over the document.
//!
//! The library decides what is to be done next; the caller does it and
//! reports how it went.

use crate::profile::{patch, read_failure, spec_patch};
use vstd::prelude::*;
use vstd::string::*;

verus! {

/// What the caller has to do next, together with what remains to be known
/// for the steps after it.
#[derive(Debug, PartialEq, Eq)]
pub enum SaveStep {
    /// Read the text of the document at `path`.
    Read { path: String, new_coins: u32, new_total: u32 },
    /// Write `content`, the document as it was read, to `backup_path`.
    Backup { path: String, backup_path: String, content: String, new_coins: u32, new_total: u32 },
    /// Write `content`, the rewritten document, to `path`.
    Write { path: String, content: String },
    /// Nothing is left to do; `result` is how the whole operation ended.
    Done { result: Result<(), String> },
}

/// Mathematical model of a [`SaveStep`].
pub enum SaveStepView {
    Read { path: Seq<char>, new_coins: u32, new_total: u32 },
    Backup {
        path: Seq<char>,
        backup_path: Seq<char>,
        content: Seq<char>,
        new_coins: u32,
        new_total: u32,
    },
    Write { path: Seq<char>, content: Seq<char> },
    Done { result: Result<(), Seq<char>> },
}

impl View for SaveStep {
    type V = SaveStepView;

    open spec fn view(&self) -> SaveStepView {
        match self {
            SaveStep::Read { path, new_coins, new_total } => SaveStepView::Read {
                path: path@,
                new_coins: *new_coins,
                new_total: *new_total,
            },
            SaveStep::Backup {
                path,
                backup_path,
                content,
                new_coins,
                new_total,
            } => SaveStepView::Backup {
                path: path@,
                backup_path: backup_path@,
                content: content@,
                new_coins: *new_coins,
                new_total: *new_total,
            },
            SaveStep::Write { path, content } => SaveStepView::Write {
                path: path@,
                content: content@,
            },
            SaveStep::Done { result } => SaveStepView::Done {
                result: match result {
                    Ok(_) => Ok(()),
                    Err(message) => Err(message@),
                },
            },
        }
    }
}

/// How a step went: the text that was read, or any text after a write,
/// or what the system said when the step failed.
pub type Outcome = Result<Seq<char>, Seq<char>>;

/// The view of an outcome as the caller reports it.
pub open spec fn outcome_view(outcome: Result<String, String>) -> Outcome {
    match outcome {
        Ok(text) => Ok(text@),
        Err(reason) => Err(reason@),
    }
}

/// Where the backup of the document at `path` is kept.
pub open spec fn backup_path_of(path: Seq<char>) -> Seq<char> {
    path + ".bak"@
}

/// The message reported when the backup cannot be written.
pub open spec fn backup_failure(reason: Seq<char>) -> Seq<char> {
    "Failed to create backup file: "@ + reason
}

/// The message reported when the rewritten document cannot be written.
pub open spec fn write_failure(reason: Seq<char>) -> Seq<char> {
    "Failed to write file: "@ + reason
}

/// The first step of saving `new_coins` and `new_total` to the document at
/// `path`: reading it.
pub open spec fn spec_write_coins(path: Seq<char>, new_coins: u32, new_total: u32) -> SaveStepView {
    SaveStepView::Read { path, new_coins, new_total }
}

/// The step that follows `step` once `outcome` is known.
///
/// A failed step ends the operation with a message that names the step.
/// After a successful read the text is backed up unchanged; after a
/// successful backup the rewritten text is written; after a successful
/// write the operation has succeeded. A finished operation stays as it
/// is.
pub open spec fn spec_advance(step: SaveStepView, outcome: Outcome) -> SaveStepView {
    match step {
        SaveStepView::Read { path, new_coins, new_total } => match outcome {
            Ok(content) => SaveStepView::Backup {
                path,
                backup_path: backup_path_of(path),
                content,
                new_coins,
                new_total,
            },
            Err(reason) => SaveStepView::Done { result: Err(read_failure(reason)) },
        },
        SaveStepView::Backup { path, backup_path, content, new_coins, new_total } => match outcome {
            Ok(_) => SaveStepView::Write {
                path,
                content: spec_patch(content, new_coins, new_total),
            },
            Err(reason) => SaveStepView::Done { result: Err(backup_failure(reason)) },
        },
        SaveStepView::Write { path, content } => match outcome {
            Ok(_) => SaveStepView::Done { result: Ok(()) },
            Err(reason) => SaveStepView::Done { result: Err(write_failure(reason)) },
        },
        SaveStepView::Done { result } => SaveStepView::Done { result },
    }
}

/// The step reached from `step` after the outcomes `outcomes`, in order.
pub open spec fn spec_run(step: SaveStepView, outcomes: Seq<Outcome>) -> SaveStepView
    decreases outcomes.len(),
{
    if outcomes.len() == 0 {
        step
    } else {
        spec_advance(spec_run(step, outcomes.drop_last()), outcomes.last())
    }
}

/// Begins saving `new_coins` and `new_total` to the document at `path`.
/// The step returned asks for the document to be read.
pub fn write_coins(path: &str, new_coins: u32, new_total: u32) -> (step: SaveStep)
    ensures
        step@ == spec_write_coins(path@, new_coins, new_total),
{
    SaveStep::Read { path: String::from_str(path), new_coins, new_total }
}

impl SaveStep {
    /// Takes the outcome of the step that was asked for and gives the
    /// next one.
    ///
    /// `outcome` is `Ok` with the text read after a read, `Ok` with any
    /// text after a write that succeeded, and `Err` with what the system
    /// said after a failure.
    pub fn advance(self, outcome: Result<String, String>) -> (next: SaveStep)
        ensures
            next@ == spec_advance(self@, outcome_view(outcome)),
    {
        match self {
            SaveStep::Read { path, new_coins, new_total } => match outcome {
                Ok(content) => {
                    let backup_path = path.clone().concat(".bak");
                    SaveStep::Backup { path, backup_path, content, new_coins, new_total }
                },
                Err(reason) => SaveStep::Done {
                    result: Err(String::from_str("Failed to read file: ").concat(reason.as_str())),
                },
            },
            SaveStep::Backup { path, backup_path, content, new_coins, new_total } => match outcome {
                Ok(_) => {
                    let rewritten = patch(content.as_str(), new_coins, new_total);
                    SaveStep::Write { path, content: rewritten }
                },
                Err(reason) => SaveStep::Done {
                    result: Err(
                        String::from_str("Failed to create backup file: ").concat(reason.as_str()),
                    ),
                },
            },
            SaveStep::Write { path, content } => match outcome {
                Ok(_) => SaveStep::Done { result: Ok(()) },
                Err(reason) => SaveStep::Done {
                    result: Err(String::from_str("Failed to write file: ").concat(reason.as_str())),
                },
            },
            SaveStep::Done { result } => SaveStep::Done { result },
        }
    }
}

/// Backup before write: however the steps go, the document is asked to
/// be written only as the third step, after the text that was read has
/// been written to the backup path, unchanged, and that write has
/// succeeded; and what is then written over the document is that text
/// with its counters rewritten. The operation succeeds only if all three
/// steps did.
pub proof fn lemma_backup_precedes_write(
    path: Seq<char>,
    new_coins: u32,
    new_total: u32,
    outcomes: Seq<Outcome>,
)
    ensures
        match spec_run(spec_write_coins(path, new_coins, new_total), outcomes) {
            SaveStepView::Read { .. } => outcomes.len() == 0,
            SaveStepView::Backup { path: p, backup_path, content, new_coins: c, new_total: t } => {
                &&& outcomes.len() == 1
                &&& outcomes[0] == Ok::<Seq<char>, Seq<char>>(content)
                &&& p == path
                &&& backup_path == backup_path_of(path)
                &&& c == new_coins
                &&& t == new_total
            },
            SaveStepView::Write { path: p, content } => {
                &&& outcomes.len() == 2
                &&& outcomes[0] is Ok
                &&& outcomes[1] is Ok
                &&& spec_run(spec_write_coins(path, new_coins, new_total), outcomes.take(1))
                    == (SaveStepView::Backup {
                    path,
                    backup_path: backup_path_of(path),
                    content: outcomes[0]->Ok_0,
                    new_coins,
                    new_total,
                })
                &&& p == path
                &&& content == spec_patch(outcomes[0]->Ok_0, new_coins, new_total)
            },
            SaveStepView::Done { result } => {
                &&& outcomes.len() >= 1
                &&& result is Ok ==> outcomes.len() >= 3 && outcomes[0] is Ok && outcomes[1] is Ok
                    && outcomes[2] is Ok
            },
        },
    decreases outcomes.len(),
{
    if outcomes.len() > 0 {
        let before = outcomes.drop_last();
        lemma_backup_precedes_write(path, new_coins, new_total, before);
        if outcomes.len() == 2 {
            assert(outcomes.take(1) =~= before);
        }
        if outcomes.len() >= 3 {
            assert(before[0] == outcomes[0]);
            assert(before[1] == outcomes[1]);
        }
    }
}

} // verus!
