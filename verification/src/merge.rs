//! What is done about a numbered sequence of renamed files: they are merged into one.
//!
//! As for a single file, only the decisions stand here. [`handle_sequence_merge`] gives the
//! first thing to do, and [`Merging::step`] the next one.

use crate::backup::{backup_file, id_len, is_random_id, new_backup_name};
use crate::converter::ConvertError;
use crate::notifier::UserChoice;
use crate::path::{piece_text, piece_view, text_or, OsText};
use crate::rename::{ext_view, Outcome, PROMPT_SECS};
use crate::text::{cat3, one_of, texts};
use vstd::prelude::*;
use vstd::string::*;

verus! {

/// A renamed file of a sequence: the texts of its paths, and its old extension.
#[derive(Debug)]
pub struct SequenceFile {
    pub from: String,
    pub to: String,
    pub from_ext: Option<OsText>,
}

/// What is kept of one file of the sequence: the texts of its paths, its old extension and the
/// name of its backup.
#[derive(Debug)]
pub struct MergeFrame {
    pub from: String,
    pub to: String,
    pub from_ext: String,
    pub backup_name: String,
}

/// A thing to do.
pub enum MergeAction {
    /// Copy the file of this index to its backup file.
    Backup { frame: usize },
    /// Record the backup file of this index as the backup of the old path.
    InsertBackup { frame: usize, orig_ext: String, new_ext: Option<String> },
    /// Ask the user whether to merge the files; the names stand for the sequence and the result.
    Prompt { from: String, dest: String, secs: u64 },
    /// Merge the files into the result of name `dest`, as a video or as an animation.
    Merge { video: bool, to_ext: String, dest: String },
    /// Remove the file of this index.
    Remove { frame: usize },
    /// Nothing is left to do.
    Finish { outcome: Outcome },
}

/// The contents of a [`MergeAction`].
pub enum MergeActionView {
    Backup { frame: usize },
    InsertBackup { frame: usize, orig_ext: Seq<char>, new_ext: Option<Seq<char>> },
    Prompt { from: Seq<char>, dest: Seq<char>, secs: u64 },
    Merge { video: bool, to_ext: Seq<char>, dest: Seq<char> },
    Remove { frame: usize },
    Finish { outcome: Outcome },
}

impl View for MergeAction {
    type V = MergeActionView;

    open spec fn view(&self) -> MergeActionView {
        match *self {
            MergeAction::Backup { frame } => MergeActionView::Backup { frame },
            MergeAction::InsertBackup { frame, orig_ext, new_ext } => {
                MergeActionView::InsertBackup {
                    frame,
                    orig_ext: orig_ext@,
                    new_ext: ext_view(new_ext),
                }
            },
            MergeAction::Prompt { from, dest, secs } => MergeActionView::Prompt {
                from: from@,
                dest: dest@,
                secs,
            },
            MergeAction::Merge { video, to_ext, dest } => MergeActionView::Merge {
                video,
                to_ext: to_ext@,
                dest: dest@,
            },
            MergeAction::Remove { frame } => MergeActionView::Remove { frame },
            MergeAction::Finish { outcome } => MergeActionView::Finish { outcome },
        }
    }
}

/// How the last thing to do went.
pub enum MergeEvent {
    /// It was done, with nothing to report.
    Done,
    /// It failed.
    Failed,
    /// What the user decided.
    Chosen(UserChoice),
    /// How the merge went.
    Merged(Result<(), ConvertError>),
}

/// What is being done.
pub enum MergeStage {
    BackingUp { frame: usize },
    Recording { frame: usize },
    Asking,
    Merging,
    Removing { frame: usize },
    Ended,
}

/// A sequence that is being merged.
pub struct Merging {
    pub base: String,
    pub to_ext: String,
    /// The old extension of the first file, as the user is told of it.
    pub first_ext: String,
    pub frames: Vec<MergeFrame>,
    pub stage: MergeStage,
}

impl Merging {
    /// Whether the file at hand is one of the sequence.
    pub open spec fn wf(self) -> bool {
        match self.stage {
            MergeStage::BackingUp { frame } => frame < self.frames@.len(),
            MergeStage::Recording { frame } => frame < self.frames@.len(),
            MergeStage::Removing { frame } => frame < self.frames@.len(),
            _ => self.frames@.len() > 0,
        }
    }
}

/// Whether files are merged into a video for this extension.
pub open spec fn merges_to_video(ext: Seq<char>) -> bool {
    seq!["mp4"@, "webm"@, "avi"@, "mov"@, "mkv"@].contains(ext)
}

/// The name that the user is asked about as the source: the first file of the sequence.
pub open spec fn sequence_name(m: Merging) -> Seq<char> {
    m.base@ + ".001."@ + m.first_ext@
}

/// The name of the result.
pub open spec fn result_name(m: Merging) -> Seq<char> {
    m.base@ + "."@ + m.to_ext@
}

/// The end, with the given outcome.
pub open spec fn merge_ended(outcome: Outcome) -> (MergeStage, MergeActionView) {
    (MergeStage::Ended, MergeActionView::Finish { outcome })
}

/// The next stage and thing to do.
pub open spec fn merge_next(m: Merging, e: MergeEvent) -> (MergeStage, MergeActionView) {
    match m.stage {
        MergeStage::BackingUp { frame } => if e is Done {
            (
                MergeStage::Recording { frame },
                MergeActionView::InsertBackup {
                    frame,
                    orig_ext: m.frames@[frame as int].from_ext@,
                    new_ext: None,
                },
            )
        } else {
            merge_ended(Outcome::Broken)
        },
        MergeStage::Recording { frame } => if !(e is Done) {
            merge_ended(Outcome::Broken)
        } else if frame + 1 < m.frames@.len() {
            let frame = (frame + 1) as usize;
            (MergeStage::BackingUp { frame }, MergeActionView::Backup { frame })
        } else {
            (
                MergeStage::Asking,
                MergeActionView::Prompt {
                    from: sequence_name(m),
                    dest: result_name(m),
                    secs: PROMPT_SECS,
                },
            )
        },
        MergeStage::Asking => match e {
            MergeEvent::Chosen(UserChoice::Accept) => (
                MergeStage::Merging,
                MergeActionView::Merge {
                    video: merges_to_video(m.to_ext@),
                    to_ext: m.to_ext@,
                    dest: result_name(m),
                },
            ),
            _ => merge_ended(Outcome::Rejected),
        },
        MergeStage::Merging => match e {
            MergeEvent::Merged(Ok(_)) => (
                MergeStage::Removing { frame: 0 },
                MergeActionView::Remove { frame: 0 },
            ),
            MergeEvent::Merged(Err(ConvertError::ToolNotFound(t))) => merge_ended(
                Outcome::ToolMissing(t),
            ),
            MergeEvent::Merged(Err(e)) => merge_ended(Outcome::ConversionFailed(e)),
            _ => merge_ended(Outcome::Broken),
        },
        MergeStage::Removing { frame } => if frame + 1 < m.frames@.len() {
            let frame = (frame + 1) as usize;
            (MergeStage::Removing { frame }, MergeActionView::Remove { frame })
        } else {
            merge_ended(Outcome::Converted)
        },
        MergeStage::Ended => merge_ended(Outcome::Broken),
    }
}

/// Whether the two are the same merge, at whatever stage.
pub open spec fn same_merge(a: Merging, b: Merging) -> bool {
    &&& a.base == b.base
    &&& a.to_ext == b.to_ext
    &&& a.first_ext == b.first_ext
    &&& a.frames == b.frames
}

/// Whether `frame` is kept of a file.
pub open spec fn is_frame_of(frame: MergeFrame, file: SequenceFile) -> bool {
    &&& frame.from == file.from
    &&& frame.to == file.to
    &&& frame.from_ext@ == text_or(piece_view(file.from_ext), "bak"@)
    &&& is_random_id(frame.backup_name@.take(id_len() as int))
    &&& frame.backup_name@ == backup_file(
        frame.backup_name@.take(id_len() as int),
        frame.from_ext@,
    )
}

/// Starts to merge a sequence of renamed files, given in order, into one of the given base name
/// and extension.
pub fn handle_sequence_merge(files: &Vec<SequenceFile>, base: String, to_ext: String) -> (res: (
    Merging,
    MergeAction,
))
    requires
        files@.len() > 0,
    ensures
        res.0.wf(),
        res.0.base == base,
        res.0.to_ext == to_ext,
        res.0.first_ext@ == text_or(piece_view(files@[0].from_ext), "img"@),
        res.0.frames@.len() == files@.len(),
        forall|i: int|
            0 <= i < files@.len() ==> is_frame_of(#[trigger] res.0.frames@[i], files@[i]),
        res.0.stage == (MergeStage::BackingUp { frame: 0 }),
        res.1@ == (MergeActionView::Backup { frame: 0 }),
{
    let mut frames: Vec<MergeFrame> = Vec::new();
    let mut i: usize = 0;
    while i < files.len()
        invariant
            i <= files@.len(),
            frames@.len() == i,
            forall|k: int| 0 <= k < i ==> is_frame_of(#[trigger] frames@[k], files@[k]),
        decreases files@.len() - i,
    {
        let from = files[i].from.clone();
        let to = files[i].to.clone();
        let from_ext = piece_text(&files[i].from_ext, "bak");
        let backup_name = new_backup_name(from_ext.as_str());
        frames.push(MergeFrame { from, to, from_ext, backup_name });
        i += 1;
    }
    let first_ext = piece_text(&files[0].from_ext, "img");
    let stage = MergeStage::BackingUp { frame: 0 };
    (Merging { base, to_ext, first_ext, frames, stage }, MergeAction::Backup { frame: 0 })
}

impl Merging {
    fn merge_finished(self, outcome: Outcome) -> (res: (Merging, MergeAction))
        ensures
            same_merge(res.0, self),
            (res.0.stage, res.1@) == merge_ended(outcome),
    {
        (Merging { stage: MergeStage::Ended, ..self }, MergeAction::Finish { outcome })
    }

    /// Goes on from how the last thing to do went to the next thing to do.
    pub fn step(self, e: MergeEvent) -> (res: (Merging, MergeAction))
        requires
            self.wf(),
        ensures
            res.0.wf(),
            same_merge(res.0, self),
            (res.0.stage, res.1@) == merge_next(self, e),
    {
        match self.stage {
            MergeStage::BackingUp { frame } => match e {
                MergeEvent::Done => {
                    let orig_ext = self.frames[frame].from_ext.clone();
                    (
                        Merging { stage: MergeStage::Recording { frame }, ..self },
                        MergeAction::InsertBackup { frame, orig_ext, new_ext: None },
                    )
                },
                _ => self.merge_finished(Outcome::Broken),
            },
            MergeStage::Recording { frame } => match e {
                MergeEvent::Done => {
                    let n: usize = self.frames.len();
                    if frame + 1 < n {
                        let frame: usize = frame + 1;
                        (
                            Merging { stage: MergeStage::BackingUp { frame }, ..self },
                            MergeAction::Backup { frame },
                        )
                    } else {
                        let from = cat3(self.base.as_str(), ".001.", self.first_ext.as_str());
                        let dest = cat3(self.base.as_str(), ".", self.to_ext.as_str());
                        (
                            Merging { stage: MergeStage::Asking, ..self },
                            MergeAction::Prompt { from, dest, secs: PROMPT_SECS },
                        )
                    }
                },
                _ => self.merge_finished(Outcome::Broken),
            },
            MergeStage::Asking => match e {
                MergeEvent::Chosen(UserChoice::Accept) => {
                    let names = ["mp4", "webm", "avi", "mov", "mkv"];
                    assert(texts(names@) =~= seq!["mp4"@, "webm"@, "avi"@, "mov"@, "mkv"@]);
                    let video = one_of(self.to_ext.as_str(), names.as_slice());
                    let to_ext = self.to_ext.clone();
                    let dest = cat3(self.base.as_str(), ".", self.to_ext.as_str());
                    (
                        Merging { stage: MergeStage::Merging, ..self },
                        MergeAction::Merge { video, to_ext, dest },
                    )
                },
                _ => self.merge_finished(Outcome::Rejected),
            },
            MergeStage::Merging => match e {
                MergeEvent::Merged(Ok(_)) => (
                    Merging { stage: MergeStage::Removing { frame: 0 }, ..self },
                    MergeAction::Remove { frame: 0 },
                ),
                MergeEvent::Merged(Err(ConvertError::ToolNotFound(t))) => self.merge_finished(
                    Outcome::ToolMissing(t),
                ),
                MergeEvent::Merged(Err(e)) => self.merge_finished(Outcome::ConversionFailed(e)),
                _ => self.merge_finished(Outcome::Broken),
            },
            MergeStage::Removing { frame } => {
                let n: usize = self.frames.len();
                if frame + 1 < n {
                    let frame: usize = frame + 1;
                    (
                        Merging { stage: MergeStage::Removing { frame }, ..self },
                        MergeAction::Remove { frame },
                    )
                } else {
                    self.merge_finished(Outcome::Converted)
                }
            },
            MergeStage::Ended => self.merge_finished(Outcome::Broken),
        }
    }
}

} // verus!
