//! What is done about one renamed file.
//!
//! The decisions stand here; looking up, copying, asking and converting are done elsewhere.
//! [`handle_rename`] gives the first thing to do, and [`Renaming::step`] the next one, once it
//! is known how the last one went.

use crate::backup::{backup_file, id_len, is_random_id, new_backup_name};
use crate::converter::{ConvertError, ConvertOutput};
use crate::db::BackupRow;
use crate::notifier::UserChoice;
use crate::path::{piece_text, piece_view, text_or, OsText};
use crate::text::cat3;
use std::path::PathBuf;
use vstd::prelude::*;
use vstd::string::*;

verus! {

/// For how many seconds the user is asked.
pub const PROMPT_SECS: u64 = 30;

/// How a rename was handled.
#[derive(Debug)]
pub enum Outcome {
    /// The file was renamed back, and its backup was put in its place.
    Restored,
    /// The user did not want the file to be converted.
    Rejected,
    /// The file was converted.
    Converted,
    /// The frames of the file were taken out.
    Extracted,
    /// There is no conversion between the two extensions.
    Unsupported,
    /// A program is missing.
    ToolMissing(&'static str),
    /// A program failed, with this error output.
    ToolFailed(String),
    /// The conversion failed in another way.
    ConversionFailed(ConvertError),
    /// A step failed.
    Broken,
}

/// A thing to do.
pub enum Action {
    /// Look for the active backup of the new path.
    FindBackup,
    /// Copy the stored file to the new path.
    Restore { stored: String },
    /// Mark the record as restored.
    MarkRestored { id: i64 },
    /// Copy the file at the new path to the backup file.
    Backup,
    /// Record the backup file as the backup of the old path. The new extension is not known to be
    /// final yet.
    InsertBackup { orig_ext: String, new_ext: Option<String> },
    /// Ask the user whether to convert the file.
    Prompt { secs: u64 },
    /// Convert the file at the new path.
    Convert { from_ext: String, to_ext: String },
    /// Write the bytes to the new path.
    Write { bytes: Vec<u8> },
    /// Remove the file at the new path.
    Remove,
    /// Move the file at `out` to the new path.
    Replace { out: PathBuf },
    /// Record the new extension for the old path.
    SetNewExt { ext: String },
    /// Tell the user.
    Notify { summary: String, body: String },
    /// Nothing is left to do.
    Finish { outcome: Outcome },
}

/// The contents of an optional extension.
pub open spec fn ext_view(ext: Option<String>) -> Option<Seq<char>> {
    match ext {
        Some(e) => Some(e@),
        None => None,
    }
}

/// The contents of an [`Action`].
pub enum ActionView {
    FindBackup,
    Restore { stored: Seq<char> },
    MarkRestored { id: i64 },
    Backup,
    InsertBackup { orig_ext: Seq<char>, new_ext: Option<Seq<char>> },
    Prompt { secs: u64 },
    Convert { from_ext: Seq<char>, to_ext: Seq<char> },
    Write { bytes: Seq<u8> },
    Remove,
    Replace { out: PathBuf },
    SetNewExt { ext: Seq<char> },
    Notify { summary: Seq<char>, body: Seq<char> },
    Finish { outcome: Outcome },
}

impl View for Action {
    type V = ActionView;

    open spec fn view(&self) -> ActionView {
        match *self {
            Action::FindBackup => ActionView::FindBackup,
            Action::Restore { stored } => ActionView::Restore { stored: stored@ },
            Action::MarkRestored { id } => ActionView::MarkRestored { id },
            Action::Backup => ActionView::Backup,
            Action::InsertBackup { orig_ext, new_ext } => ActionView::InsertBackup {
                orig_ext: orig_ext@,
                new_ext: ext_view(new_ext),
            },
            Action::Prompt { secs } => ActionView::Prompt { secs },
            Action::Convert { from_ext, to_ext } => ActionView::Convert {
                from_ext: from_ext@,
                to_ext: to_ext@,
            },
            Action::Write { bytes } => ActionView::Write { bytes: bytes@ },
            Action::Remove => ActionView::Remove,
            Action::Replace { out } => ActionView::Replace { out },
            Action::SetNewExt { ext } => ActionView::SetNewExt { ext: ext@ },
            Action::Notify { summary, body } => ActionView::Notify {
                summary: summary@,
                body: body@,
            },
            Action::Finish { outcome } => ActionView::Finish { outcome },
        }
    }
}

/// How the last thing to do went.
pub enum Event {
    /// It was done, with nothing to report.
    Done,
    /// It failed.
    Failed,
    /// The active backup that was found, if any.
    Found(Option<BackupRow>),
    /// What the user decided.
    Chosen(UserChoice),
    /// How the conversion went. `in_place` says whether the file that it made, outside of this
    /// program, already is at the new path.
    Converted { result: Result<ConvertOutput, ConvertError>, in_place: bool },
}

/// What is being done.
pub enum Stage {
    Finding,
    Restoring { id: i64 },
    Marking,
    BackingUp,
    Recording,
    Asking,
    Converting,
    Writing,
    Removing,
    Replacing,
    Registering { frames: bool },
    Telling { outcome: Outcome },
    Ended,
}

/// A rename that is being handled. The paths are given by their texts.
pub struct Renaming {
    pub from: String,
    pub to: String,
    pub from_ext: String,
    pub to_ext: String,
    /// The directory for what a conversion makes besides the file at the new path.
    pub dest_dir: String,
    /// The name of the backup file.
    pub backup_name: String,
    pub stage: Stage,
}

/// What the user is told when a file was restored.
pub open spec fn restored_notice(r: Renaming) -> ActionView {
    ActionView::Notify { summary: "PowerEXT: file restored"@, body: "Restored "@ + r.to@ }
}

/// What the user is told when the frames of a file were taken out.
pub open spec fn extracted_notice(r: Renaming) -> ActionView {
    ActionView::Notify { summary: "PowerEXT: frames extracted"@, body: r.dest_dir@ }
}

/// The two extensions, as the user is told of them.
pub open spec fn pair_text(r: Renaming) -> Seq<char> {
    "."@ + r.from_ext@ + " → ."@ + r.to_ext@
}

/// What the user is told when there is no conversion.
pub open spec fn skipped_notice(r: Renaming) -> ActionView {
    ActionView::Notify { summary: "PowerEXT: skipped"@, body: "No converter "@ + pair_text(r) }
}

/// What the user is told when a program is missing.
pub open spec fn missing_notice(r: Renaming, tool: &'static str) -> ActionView {
    ActionView::Notify {
        summary: "PowerEXT: tool missing"@,
        body: tool@ + " not found — install it to convert "@ + pair_text(r),
    }
}

/// The end, with the given outcome.
pub open spec fn ended(outcome: Outcome) -> (Stage, ActionView) {
    (Stage::Ended, ActionView::Finish { outcome })
}

/// The next stage and thing to do where the last thing must have been done.
pub open spec fn when_done(e: Event, stage: Stage, action: ActionView) -> (Stage, ActionView) {
    if e is Done {
        (stage, action)
    } else {
        ended(Outcome::Broken)
    }
}

/// What follows a conversion.
pub open spec fn after_conversion(
    r: Renaming,
    result: Result<ConvertOutput, ConvertError>,
    in_place: bool,
) -> (Stage, ActionView) {
    match result {
        Ok(ConvertOutput::SingleFile(bytes)) => (
            Stage::Writing,
            ActionView::Write { bytes: bytes@ },
        ),
        Ok(ConvertOutput::FrameDir) => (Stage::Removing, ActionView::Remove),
        Ok(ConvertOutput::ExternalFile(out)) => if in_place {
            (
                Stage::Registering { frames: false },
                ActionView::SetNewExt { ext: r.to_ext@ },
            )
        } else {
            (Stage::Replacing, ActionView::Replace { out })
        },
        Err(ConvertError::UnsupportedPair) => (
            Stage::Telling { outcome: Outcome::Unsupported },
            skipped_notice(r),
        ),
        Err(ConvertError::ToolNotFound(t)) => (
            Stage::Telling { outcome: Outcome::ToolMissing(t) },
            missing_notice(r, t),
        ),
        Err(ConvertError::ToolFailed(s)) => ended(Outcome::ToolFailed(s)),
        Err(e) => ended(Outcome::ConversionFailed(e)),
    }
}

/// The next stage and thing to do.
pub open spec fn next(r: Renaming, e: Event) -> (Stage, ActionView) {
    match r.stage {
        Stage::Finding => match e {
            Event::Found(Some(row)) => (
                Stage::Restoring { id: row.id },
                ActionView::Restore { stored: row.backup_path@ },
            ),
            _ => (Stage::BackingUp, ActionView::Backup),
        },
        Stage::Restoring { id } => when_done(e, Stage::Marking, ActionView::MarkRestored { id }),
        Stage::Marking => when_done(
            e,
            Stage::Telling { outcome: Outcome::Restored },
            restored_notice(r),
        ),
        Stage::BackingUp => when_done(
            e,
            Stage::Recording,
            ActionView::InsertBackup { orig_ext: r.from_ext@, new_ext: None },
        ),
        Stage::Recording => when_done(
            e,
            Stage::Asking,
            ActionView::Prompt { secs: PROMPT_SECS },
        ),
        Stage::Asking => match e {
            Event::Chosen(UserChoice::Accept) => (
                Stage::Converting,
                ActionView::Convert { from_ext: r.from_ext@, to_ext: r.to_ext@ },
            ),
            _ => ended(Outcome::Rejected),
        },
        Stage::Converting => match e {
            Event::Converted { result, in_place } => after_conversion(r, result, in_place),
            _ => ended(Outcome::Broken),
        },
        Stage::Writing => when_done(
            e,
            Stage::Registering { frames: false },
            ActionView::SetNewExt { ext: r.to_ext@ },
        ),
        Stage::Removing => when_done(
            e,
            Stage::Registering { frames: true },
            ActionView::SetNewExt { ext: r.to_ext@ },
        ),
        Stage::Replacing => when_done(
            e,
            Stage::Registering { frames: false },
            ActionView::SetNewExt { ext: r.to_ext@ },
        ),
        Stage::Registering { frames } => if !(e is Done) {
            ended(Outcome::Broken)
        } else if frames {
            (Stage::Telling { outcome: Outcome::Extracted }, extracted_notice(r))
        } else {
            ended(Outcome::Converted)
        },
        Stage::Telling { outcome } => ended(outcome),
        Stage::Ended => ended(Outcome::Broken),
    }
}

/// Whether the two are the same rename, at whatever stage.
pub open spec fn same_rename(a: Renaming, b: Renaming) -> bool {
    &&& a.from == b.from
    &&& a.to == b.to
    &&& a.from_ext == b.from_ext
    &&& a.to_ext == b.to_ext
    &&& a.dest_dir == b.dest_dir
    &&& a.backup_name == b.backup_name
}

/// The extension of the backup of a file whose extension was `ext`.
pub open spec fn backup_ext(ext: Seq<char>) -> Seq<char> {
    if ext.len() == 0 {
        "bak"@
    } else {
        ext
    }
}

/// Starts to handle the rename of the file at `from` to `to`.
pub fn handle_rename(
    from: String,
    to: String,
    from_ext: &Option<OsText>,
    to_ext: &Option<OsText>,
    dest_dir: String,
) -> (res: (Renaming, Action))
    ensures
        res.0.from == from,
        res.0.to == to,
        res.0.from_ext@ == text_or(piece_view(*from_ext), ""@),
        res.0.to_ext@ == text_or(piece_view(*to_ext), ""@),
        res.0.dest_dir == dest_dir,
        is_random_id(res.0.backup_name@.take(id_len() as int)),
        res.0.backup_name@ == backup_file(
            res.0.backup_name@.take(id_len() as int),
            backup_ext(res.0.from_ext@),
        ),
        res.0.stage is Finding,
        res.1@ == ActionView::FindBackup,
{
    let from_ext = piece_text(from_ext, "");
    let to_ext = piece_text(to_ext, "");
    let backup_name = if from_ext.as_str().unicode_len() == 0 {
        new_backup_name("bak")
    } else {
        new_backup_name(from_ext.as_str())
    };
    let r = Renaming { from, to, from_ext, to_ext, dest_dir, backup_name, stage: Stage::Finding };
    (r, Action::FindBackup)
}

fn notice(summary: &str, body: String) -> (res: Action)
    ensures
        res@ == (ActionView::Notify { summary: summary@, body: body@ }),
{
    Action::Notify { summary: summary.to_owned(), body }
}

impl Renaming {
    fn pair(&self) -> (res: String)
        ensures
            res@ == pair_text(*self),
    {
        let mut s = cat3(".", self.from_ext.as_str(), " → .");
        s.append(self.to_ext.as_str());
        s
    }

    fn registered(self, frames: bool) -> (res: (Renaming, Action))
        ensures
            same_rename(res.0, self),
            res.0.stage == (Stage::Registering { frames }),
            res.1@ == (ActionView::SetNewExt { ext: self.to_ext@ }),
    {
        let ext = self.to_ext.clone();
        (Renaming { stage: Stage::Registering { frames }, ..self }, Action::SetNewExt { ext })
    }

    fn finished(self, outcome: Outcome) -> (res: (Renaming, Action))
        ensures
            same_rename(res.0, self),
            (res.0.stage, res.1@) == ended(outcome),
    {
        (Renaming { stage: Stage::Ended, ..self }, Action::Finish { outcome })
    }

    fn converted(self, result: Result<ConvertOutput, ConvertError>, in_place: bool) -> (res: (
        Renaming,
        Action,
    ))
        ensures
            same_rename(res.0, self),
            (res.0.stage, res.1@) == after_conversion(self, result, in_place),
    {
        match result {
            Ok(ConvertOutput::SingleFile(bytes)) => (
                Renaming { stage: Stage::Writing, ..self },
                Action::Write { bytes },
            ),
            Ok(ConvertOutput::FrameDir) => (
                Renaming { stage: Stage::Removing, ..self },
                Action::Remove,
            ),
            Ok(ConvertOutput::ExternalFile(out)) => if in_place {
                self.registered(false)
            } else {
                (Renaming { stage: Stage::Replacing, ..self }, Action::Replace { out })
            },
            Err(ConvertError::UnsupportedPair) => {
                let pair = self.pair();
                let body = cat3("No converter ", pair.as_str(), "");
                proof {
                    reveal_strlit("");
                    assert(body@ =~= "No converter "@ + pair_text(self));
                }
                let stage = Stage::Telling { outcome: Outcome::Unsupported };
                (Renaming { stage, ..self }, notice("PowerEXT: skipped", body))
            },
            Err(ConvertError::ToolNotFound(t)) => {
                let pair = self.pair();
                let body = cat3(t, " not found — install it to convert ", pair.as_str());
                let stage = Stage::Telling { outcome: Outcome::ToolMissing(t) };
                (Renaming { stage, ..self }, notice("PowerEXT: tool missing", body))
            },
            Err(ConvertError::ToolFailed(s)) => self.finished(Outcome::ToolFailed(s)),
            Err(e) => self.finished(Outcome::ConversionFailed(e)),
        }
    }

    /// Goes on from how the last thing to do went to the next thing to do.
    pub fn step(self, e: Event) -> (res: (Renaming, Action))
        ensures
            same_rename(res.0, self),
            (res.0.stage, res.1@) == next(self, e),
    {
        match self.stage {
            Stage::Finding => match e {
                Event::Found(Some(row)) => (
                    Renaming { stage: Stage::Restoring { id: row.id }, ..self },
                    Action::Restore { stored: row.backup_path },
                ),
                _ => (Renaming { stage: Stage::BackingUp, ..self }, Action::Backup),
            },
            Stage::Asking => match e {
                Event::Chosen(UserChoice::Accept) => {
                    let from_ext = self.from_ext.clone();
                    let to_ext = self.to_ext.clone();
                    (
                        Renaming { stage: Stage::Converting, ..self },
                        Action::Convert { from_ext, to_ext },
                    )
                },
                _ => self.finished(Outcome::Rejected),
            },
            Stage::Converting => match e {
                Event::Converted { result, in_place } => self.converted(result, in_place),
                _ => self.finished(Outcome::Broken),
            },
            Stage::Telling { outcome } => (
                Renaming { stage: Stage::Ended, ..self },
                Action::Finish { outcome },
            ),
            _ => match e {
                Event::Done => self.done(),
                _ => self.finished(Outcome::Broken),
            },
        }
    }

    fn done(self) -> (res: (Renaming, Action))
        requires
            !(self.stage is Finding),
            !(self.stage is Asking),
            !(self.stage is Converting),
            !(self.stage is Telling),
        ensures
            same_rename(res.0, self),
            (res.0.stage, res.1@) == next(self, Event::Done),
    {
        match self.stage {
            Stage::Restoring { id } => (
                Renaming { stage: Stage::Marking, ..self },
                Action::MarkRestored { id },
            ),
            Stage::Marking => {
                let body = cat3("Restored ", self.to.as_str(), "");
                proof {
                    reveal_strlit("");
                    assert(body@ =~= "Restored "@ + self.to@);
                }
                let stage = Stage::Telling { outcome: Outcome::Restored };
                (Renaming { stage, ..self }, notice("PowerEXT: file restored", body))
            },
            Stage::BackingUp => {
                let orig_ext = self.from_ext.clone();
                (
                    Renaming { stage: Stage::Recording, ..self },
                    Action::InsertBackup { orig_ext, new_ext: None },
                )
            },
            Stage::Recording => (
                Renaming { stage: Stage::Asking, ..self },
                Action::Prompt { secs: PROMPT_SECS },
            ),
            Stage::Writing => self.registered(false),
            Stage::Replacing => self.registered(false),
            Stage::Removing => self.registered(true),
            Stage::Registering { frames } => if frames {
                let body = self.dest_dir.clone();
                let stage = Stage::Telling { outcome: Outcome::Extracted };
                (Renaming { stage, ..self }, notice("PowerEXT: frames extracted", body))
            } else {
                self.finished(Outcome::Converted)
            },
            _ => self.finished(Outcome::Broken),
        }
    }
}

} // verus!
