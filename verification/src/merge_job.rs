//! The merge of frames into one file, step by step.
//!
//! As in [`crate::job`], reading, writing and running programs are left to others.
//! [`start_animation`] and [`start_video`] give the first thing to do, and [`MergeJob::step`] the
//! next one.

use crate::converter::{
    animate, animation_source, arg_views, codec_args, first_ext, frames_to_animated,
    frames_to_video, list_file, text_args, tool_outcome, Animation, AnimationSource, Arg, ArgView,
    ConvertError, ErrorView,
};
use crate::pictures::{
    all_exact, converted, file_error, frame_decoded, frame_pixels, gif_encoded, known_format,
    raster_views, FrameFile, Raster, RasterView,
};
use vstd::prelude::*;
use vstd::string::*;

verus! {

/// A thing to do.
pub enum MergeJobAction {
    /// Create the file of the result, empty.
    CreateDest,
    /// Read the frame of this index.
    ReadFrame { frame: usize },
    /// Write the bytes to the file of the result.
    WriteDest { bytes: Vec<u8> },
    /// Find a program.
    FindTool { tool: &'static str },
    /// Write the text to the list file.
    WriteList { text: String },
    /// Run the program that was found. Its input is the list file, its output the result.
    RunTool { args: Vec<Arg> },
    /// Remove the list file.
    RemoveList,
    /// Nothing is left to do.
    Finish { result: Result<(), ConvertError> },
}

/// The contents of a [`MergeJobAction`].
pub enum MergeJobActionView {
    CreateDest,
    ReadFrame { frame: nat },
    WriteDest { bytes: Seq<u8> },
    FindTool { tool: Seq<char> },
    WriteList { text: Seq<char> },
    RunTool { args: Seq<ArgView> },
    RemoveList,
    Finish { result: Option<ErrorView> },
}

/// The error of a result, if it is one.
pub open spec fn error_of(r: Result<(), ConvertError>) -> Option<ErrorView> {
    match r {
        Ok(_) => None,
        Err(e) => Some(e@),
    }
}

impl View for MergeJobAction {
    type V = MergeJobActionView;

    open spec fn view(&self) -> MergeJobActionView {
        match *self {
            MergeJobAction::CreateDest => MergeJobActionView::CreateDest,
            MergeJobAction::ReadFrame { frame } => MergeJobActionView::ReadFrame {
                frame: frame as nat,
            },
            MergeJobAction::WriteDest { bytes } => MergeJobActionView::WriteDest { bytes: bytes@ },
            MergeJobAction::FindTool { tool } => MergeJobActionView::FindTool { tool: tool@ },
            MergeJobAction::WriteList { text } => MergeJobActionView::WriteList { text: text@ },
            MergeJobAction::RunTool { args } => MergeJobActionView::RunTool {
                args: arg_views(args@),
            },
            MergeJobAction::RemoveList => MergeJobActionView::RemoveList,
            MergeJobAction::Finish { result } => MergeJobActionView::Finish {
                result: error_of(result),
            },
        }
    }
}

/// How the last thing to do went.
pub enum MergeJobEvent {
    /// It was done, with nothing to report.
    Done,
    /// The file system or the start of a program failed.
    Failed(std::io::Error),
    /// The bytes that were read.
    Bytes(Vec<u8>),
    /// Whether the program was found.
    Tool { found: bool },
    /// Whether the program succeeded, and its error output.
    Ran { success: bool, stderr: String },
}

/// What is being done.
pub enum MergeJobStage {
    CreatingDest,
    /// The frames before the one that is read have been decoded.
    ReadingFrame { frames: Vec<Raster> },
    /// What is reported once the animation is written.
    WritingAnimation { result: Result<(), ConvertError> },
    ReadingFirst,
    WritingFirst,
    FindingFfmpeg,
    WritingList,
    RunningFfmpeg,
    RemovingList { result: Result<(), ConvertError> },
    Ended,
}

/// A merge that is being done. Of each frame there is the text of its path, and its extension
/// where that is Unicode.
pub struct MergeJob {
    pub to_ext: String,
    pub paths: Vec<String>,
    pub exts: Vec<Option<String>>,
    pub stage: MergeJobStage,
}

impl MergeJob {
    /// There is a frame to be read where one is being read, and those before it are whole.
    pub open spec fn wf(self) -> bool {
        match self.stage {
            MergeJobStage::ReadingFrame { frames } => all_exact(frames@) && frames@.len()
                < self.exts@.len(),
            MergeJobStage::ReadingFirst => self.exts@.len() > 0 && known_format(
                first_ext(self.exts@[0]),
            ) && known_format("webp"@),
            _ => true,
        }
    }
}

/// Whether the two are the same merge, at whatever stage.
pub open spec fn same_merge_job(a: MergeJob, b: MergeJob) -> bool {
    a.to_ext == b.to_ext && a.paths == b.paths && a.exts == b.exts
}

/// Whether a job with a thing to do has come to its end, with the given error or none.
pub open spec fn merge_job_ended(j: MergeJob, a: MergeJobActionView, r: Option<ErrorView>) -> bool {
    j.stage is Ended && a == (MergeJobActionView::Finish { result: r })
}

/// Whether a job with a thing to do goes on to read the next frame after those that were decoded;
/// past the last one, or where no more can be had, the animation of these frames is written.
pub open spec fn reads_on(
    j: MergeJob,
    a: MergeJobActionView,
    frames: Seq<RasterView>,
    stopped: bool,
) -> bool {
    if !stopped && frames.len() < j.exts@.len() {
        &&& j.stage matches MergeJobStage::ReadingFrame { frames: f } && raster_views(f@) == frames
        &&& a == (MergeJobActionView::ReadFrame { frame: frames.len() })
    } else {
        &&& j.stage matches MergeJobStage::WritingAnimation { result } && error_of(result)
            == if gif_encoded(frames).whole && !stopped {
            None
        } else {
            Some(ErrorView::ImageError)
        }
        &&& a == (MergeJobActionView::WriteDest { bytes: gif_encoded(frames).bytes })
    }
}

/// The arguments with which `ffmpeg` makes a video of the list.
pub open spec fn video_args(ext: Seq<char>) -> Seq<ArgView> {
    text_args(seq!["-y"@, "-f"@, "concat"@, "-safe"@, "0"@, "-i"@]) + seq![ArgView::Input]
        + text_args(codec_args(ext)) + seq![ArgView::Output]
}

/// Whether `k`, with the thing to do `a`, is what `j` goes on to after the event `e`. An event
/// that does not answer the last thing to do ends the job as unsupported.
pub open spec fn merge_job_goes_on(
    j: MergeJob,
    e: MergeJobEvent,
    k: MergeJob,
    a: MergeJobActionView,
) -> bool {
    let unsupported = merge_job_ended(k, a, Some(ErrorView::UnsupportedPair));
    match j.stage {
        MergeJobStage::CreatingDest => match e {
            MergeJobEvent::Done => reads_on(k, a, Seq::empty(), false),
            MergeJobEvent::Failed(err) => merge_job_ended(k, a, Some(ErrorView::IoError(err))),
            _ => unsupported,
        },
        MergeJobStage::ReadingFrame { frames } => {
            let before = raster_views(frames@);
            match e {
                MergeJobEvent::Bytes(bytes) => match frame_decoded(
                    FrameFile { ext: j.exts@[frames@.len() as int], bytes },
                ) {
                    Some(r) => reads_on(k, a, before.push(r), false),
                    None => reads_on(k, a, before, true),
                },
                MergeJobEvent::Failed(_) => reads_on(k, a, before, true),
                _ => unsupported,
            }
        },
        MergeJobStage::WritingAnimation { result } => match e {
            MergeJobEvent::Done => merge_job_ended(k, a, error_of(result)),
            MergeJobEvent::Failed(_) => merge_job_ended(k, a, Some(ErrorView::ImageError)),
            _ => unsupported,
        },
        MergeJobStage::ReadingFirst => match e {
            MergeJobEvent::Bytes(bytes) => match converted(
                bytes@,
                first_ext(j.exts@[0]),
                "webp"@,
            ) {
                Some(bytes) => k.stage is WritingFirst && a == (MergeJobActionView::WriteDest {
                    bytes,
                }),
                None => merge_job_ended(k, a, Some(ErrorView::ImageError)),
            },
            MergeJobEvent::Failed(err) => merge_job_ended(k, a, Some(ErrorView::IoError(err))),
            _ => unsupported,
        },
        MergeJobStage::WritingFirst => match e {
            MergeJobEvent::Done => merge_job_ended(k, a, None),
            MergeJobEvent::Failed(err) => merge_job_ended(k, a, Some(ErrorView::IoError(err))),
            _ => unsupported,
        },
        MergeJobStage::FindingFfmpeg => match e {
            MergeJobEvent::Tool { found } => if found {
                k.stage is WritingList && a == (MergeJobActionView::WriteList {
                    text: list_file(j.paths@),
                })
            } else {
                merge_job_ended(k, a, Some(ErrorView::ToolNotFound("ffmpeg")))
            },
            _ => unsupported,
        },
        MergeJobStage::WritingList => match e {
            MergeJobEvent::Done => k.stage is RunningFfmpeg && a == (MergeJobActionView::RunTool {
                args: video_args(j.to_ext@),
            }),
            MergeJobEvent::Failed(err) => merge_job_ended(k, a, Some(ErrorView::IoError(err))),
            _ => unsupported,
        },
        MergeJobStage::RunningFfmpeg => match e {
            MergeJobEvent::Ran { success, stderr } => {
                &&& a == MergeJobActionView::RemoveList
                &&& k.stage matches MergeJobStage::RemovingList { result } && error_of(result)
                    == if success {
                    None
                } else {
                    Some(ErrorView::ToolFailed(stderr))
                }
            },
            MergeJobEvent::Failed(err) => merge_job_ended(k, a, Some(ErrorView::IoError(err))),
            _ => unsupported,
        },
        MergeJobStage::RemovingList { result } => merge_job_ended(k, a, error_of(result)),
        MergeJobStage::Ended => unsupported,
    }
}

/// Starts to make an animation of the frames. For GIF that is all of them, for WebP the first
/// one only; other extensions are not supported.
pub fn start_animation(to_ext: String, paths: Vec<String>, exts: Vec<Option<String>>) -> (res: (
    MergeJob,
    MergeJobAction,
))
    requires
        to_ext@ == "webp"@ ==> exts@.len() > 0,
    ensures
        res.0.wf(),
        res.0.to_ext == to_ext,
        res.0.paths == paths,
        res.0.exts == exts,
        if to_ext@ == "gif"@ {
            res.0.stage is CreatingDest && res.1@ == MergeJobActionView::CreateDest
        } else if to_ext@ == "webp"@ && known_format(first_ext(exts@[0])) && known_format(
            "webp"@,
        ) {
            res.0.stage is ReadingFirst && res.1@ == (MergeJobActionView::ReadFrame { frame: 0 })
        } else {
            merge_job_ended(res.0, res.1@, Some(ErrorView::UnsupportedPair))
        },
{
    proof {
        reveal_strlit("gif");
        reveal_strlit("webp");
    }
    let source = if exts.len() > 0 {
        animation_source(&exts[0], to_ext.as_str())
    } else {
        animation_source(&None, to_ext.as_str())
    };
    match source {
        Ok(AnimationSource::AllFrames) => (
            MergeJob { to_ext, paths, exts, stage: MergeJobStage::CreatingDest },
            MergeJobAction::CreateDest,
        ),
        Ok(AnimationSource::FirstFrame) => (
            MergeJob { to_ext, paths, exts, stage: MergeJobStage::ReadingFirst },
            MergeJobAction::ReadFrame { frame: 0 },
        ),
        Err(e) => (
            MergeJob { to_ext, paths, exts, stage: MergeJobStage::Ended },
            MergeJobAction::Finish { result: Err(e) },
        ),
    }
}

/// Starts to make a video of the frames.
pub fn start_video(to_ext: String, paths: Vec<String>, exts: Vec<Option<String>>) -> (res: (
    MergeJob,
    MergeJobAction,
))
    ensures
        res.0.wf(),
        res.0.to_ext == to_ext,
        res.0.paths == paths,
        res.0.exts == exts,
        res.0.stage is FindingFfmpeg,
        res.1@ == (MergeJobActionView::FindTool { tool: "ffmpeg"@ }),
{
    (
        MergeJob { to_ext, paths, exts, stage: MergeJobStage::FindingFfmpeg },
        MergeJobAction::FindTool { tool: "ffmpeg" },
    )
}

/// A copy of an extension.
fn copy_ext(ext: &Option<String>) -> (res: Option<String>)
    ensures
        res == *ext,
{
    match ext {
        Some(e) => Some(e.clone()),
        None => None,
    }
}

impl MergeJob {
    fn over(self, result: Result<(), ConvertError>) -> (res: (MergeJob, MergeJobAction))
        ensures
            res.0.wf(),
            same_merge_job(res.0, self),
            merge_job_ended(res.0, res.1@, error_of(result)),
            res.1 == (MergeJobAction::Finish { result }),
    {
        (MergeJob { stage: MergeJobStage::Ended, ..self }, MergeJobAction::Finish { result })
    }

    /// Goes on where the event does not say that the last thing was done.
    fn not_ready(self, e: MergeJobEvent) -> (res: (MergeJob, MergeJobAction))
        ensures
            res.0.wf(),
            same_merge_job(res.0, self),
            merge_job_ended(
                res.0,
                res.1@,
                match e {
                    MergeJobEvent::Failed(err) => Some(ErrorView::IoError(err)),
                    _ => Some(ErrorView::UnsupportedPair),
                },
            ),
    {
        match e {
            MergeJobEvent::Failed(err) => self.over(Err(ConvertError::from(err))),
            _ => self.over(Err(ConvertError::UnsupportedPair)),
        }
    }

    /// Goes on where the event does not say that the image library read or wrote a file.
    fn not_processed(self, e: MergeJobEvent) -> (res: (MergeJob, MergeJobAction))
        ensures
            res.0.wf(),
            same_merge_job(res.0, self),
            merge_job_ended(
                res.0,
                res.1@,
                match e {
                    MergeJobEvent::Failed(_) => Some(ErrorView::ImageError),
                    _ => Some(ErrorView::UnsupportedPair),
                },
            ),
    {
        match e {
            MergeJobEvent::Failed(err) => self.over(Err(ConvertError::from(file_error(err)))),
            _ => self.over(Err(ConvertError::UnsupportedPair)),
        }
    }

    /// Goes on with a GIF, once it was made.
    pub fn animation_made(self, made: Animation) -> (res: (MergeJob, MergeJobAction))
        ensures
            res.0.wf(),
            same_merge_job(res.0, self),
            match made.written {
                Some(bytes) => {
                    &&& res.0.stage == (MergeJobStage::WritingAnimation { result: made.result })
                    &&& res.1@ == (MergeJobActionView::WriteDest { bytes: bytes@ })
                },
                None => merge_job_ended(res.0, res.1@, error_of(made.result)),
            },
    {
        let Animation { written, result } = made;
        match written {
            Some(bytes) => (
                MergeJob { stage: MergeJobStage::WritingAnimation { result }, ..self },
                MergeJobAction::WriteDest { bytes },
            ),
            None => self.over(result),
        }
    }

    /// Goes on with the first frame, once it was converted.
    pub fn first_converted(self, made: Animation) -> (res: (MergeJob, MergeJobAction))
        ensures
            res.0.wf(),
            same_merge_job(res.0, self),
            match made.written {
                Some(bytes) => res.0.stage is WritingFirst && res.1@ == (
                MergeJobActionView::WriteDest { bytes: bytes@ }),
                None => merge_job_ended(res.0, res.1@, error_of(made.result)),
            },
    {
        let Animation { written, result } = made;
        match written {
            Some(bytes) => (
                MergeJob { stage: MergeJobStage::WritingFirst, ..self },
                MergeJobAction::WriteDest { bytes },
            ),
            None => self.over(result),
        }
    }

    fn read_on(self, frames: Vec<Raster>, stop: Option<image::ImageError>) -> (res: (
        MergeJob,
        MergeJobAction,
    ))
        requires
            all_exact(frames@),
        ensures
            res.0.wf(),
            same_merge_job(res.0, self),
            reads_on(res.0, res.1@, raster_views(frames@), stop is Some),
    {
        let frame: usize = frames.len();
        if stop.is_none() && frame < self.exts.len() {
            (
                MergeJob { stage: MergeJobStage::ReadingFrame { frames }, ..self },
                MergeJobAction::ReadFrame { frame },
            )
        } else {
            self.animation_made(animate(frames, stop))
        }
    }

    /// Goes on from how the last thing to do went to the next thing to do.
    pub fn step(self, e: MergeJobEvent) -> (res: (MergeJob, MergeJobAction))
        requires
            self.wf(),
        ensures
            res.0.wf(),
            same_merge_job(res.0, self),
            merge_job_goes_on(self, e, res.0, res.1@),
            self.stage matches MergeJobStage::WritingAnimation { result } ==> e is Done ==> res.1
                == (MergeJobAction::Finish { result }),
            self.stage matches MergeJobStage::RemovingList { result } ==> res.1 == (
            MergeJobAction::Finish { result }),
    {
        let MergeJob { to_ext, paths, exts, stage } = self;
        let rest = MergeJob { to_ext, paths, exts, stage: MergeJobStage::Ended };
        match stage {
            MergeJobStage::CreatingDest => match e {
                MergeJobEvent::Done => {
                    let frames: Vec<Raster> = Vec::new();
                    assert(raster_views(frames@) =~= Seq::<RasterView>::empty());
                    rest.read_on(frames, None)
                },
                _ => rest.not_ready(e),
            },
            MergeJobStage::ReadingFrame { frames } => match e {
                MergeJobEvent::Bytes(bytes) => {
                    let ghost before = frames@;
                    let mut frames = frames;
                    let ext = copy_ext(&rest.exts[frames.len()]);
                    match frame_pixels(&FrameFile { ext, bytes }) {
                        Ok(r) => {
                            frames.push(r);
                            assert(raster_views(frames@) =~= raster_views(before).push(r@));
                            rest.read_on(frames, None)
                        },
                        Err(e) => rest.read_on(frames, Some(e)),
                    }
                },
                MergeJobEvent::Failed(err) => rest.read_on(frames, Some(file_error(err))),
                _ => rest.over(Err(ConvertError::UnsupportedPair)),
            },
            MergeJobStage::WritingAnimation { result } => match e {
                MergeJobEvent::Done => rest.over(result),
                _ => rest.not_processed(e),
            },
            MergeJobStage::ReadingFirst => match e {
                MergeJobEvent::Bytes(bytes) => {
                    let ext = copy_ext(&rest.exts[0]);
                    let files = vec![FrameFile { ext, bytes }];
                    proof {
                        reveal_strlit("gif");
                        reveal_strlit("webp");
                        assert("gif"@.len() != "webp"@.len());
                    }
                    let made = frames_to_animated(&files, "webp");
                    rest.first_converted(made)
                },
                _ => rest.not_ready(e),
            },
            MergeJobStage::WritingFirst => match e {
                MergeJobEvent::Done => rest.over(Ok(())),
                _ => rest.not_ready(e),
            },
            MergeJobStage::FindingFfmpeg => match e {
                MergeJobEvent::Tool { found: true } => {
                    let video = frames_to_video(&rest.paths, rest.to_ext.as_str());
                    (
                        MergeJob { stage: MergeJobStage::WritingList, ..rest },
                        MergeJobAction::WriteList { text: video.list },
                    )
                },
                MergeJobEvent::Tool { found: false } => rest.over(
                    Err(ConvertError::ToolNotFound("ffmpeg")),
                ),
                _ => rest.over(Err(ConvertError::UnsupportedPair)),
            },
            MergeJobStage::WritingList => match e {
                MergeJobEvent::Done => {
                    let video = frames_to_video(&rest.paths, rest.to_ext.as_str());
                    (
                        MergeJob { stage: MergeJobStage::RunningFfmpeg, ..rest },
                        MergeJobAction::RunTool { args: video.args },
                    )
                },
                _ => rest.not_ready(e),
            },
            MergeJobStage::RunningFfmpeg => match e {
                MergeJobEvent::Ran { success, stderr } => {
                    let result = tool_outcome(success, stderr);
                    (
                        MergeJob { stage: MergeJobStage::RemovingList { result }, ..rest },
                        MergeJobAction::RemoveList,
                    )
                },
                _ => rest.not_ready(e),
            },
            MergeJobStage::RemovingList { result } => rest.over(result),
            MergeJobStage::Ended => rest.over(Err(ConvertError::UnsupportedPair)),
        }
    }
}

} // verus!
