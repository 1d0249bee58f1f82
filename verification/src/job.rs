//! The conversion of one file, step by step.
//!
//! Reading, writing and the outside programs are left to others; what is made of the bytes, in
//! which order things are done and how a failure is reported stands here. [`start_job`] gives
//! the first thing to do, and [`Job::step`] the next one.

use crate::converter::{
    anim_exts, arg_views, convert, dispatch, encode_frame,
    extract_frames, extract_frames_ffmpeg, extract_gif_frames, frame_file, frame_name,
    pdf_to_frames, route, soffice_convert, Arg, ArgView, ConvertError, ErrorView,
    FrameSource, Route,
};
use crate::pictures::{
    converted, file_error, gif_decoded, known_format, raster_views, rgb_encoded, rgba_encoded,
    Encoded, EncodedView, Raster, RasterView,
};
use crate::text::lowered;
use vstd::prelude::*;
use vstd::string::*;

verus! {

/// What a conversion made.
pub enum JobOutput {
    /// The bytes of the converted file.
    SingleFile(Vec<u8>),
    /// Frames in the directory for them.
    FrameDir,
    /// A file of this name in that directory.
    ExternalFile(String),
}

/// The contents of a [`JobOutput`].
pub enum JobOutputView {
    SingleFile(Seq<u8>),
    FrameDir,
    ExternalFile(Seq<char>),
}

impl View for JobOutput {
    type V = JobOutputView;

    open spec fn view(&self) -> JobOutputView {
        match *self {
            JobOutput::SingleFile(bytes) => JobOutputView::SingleFile(bytes@),
            JobOutput::FrameDir => JobOutputView::FrameDir,
            JobOutput::ExternalFile(name) => JobOutputView::ExternalFile(name@),
        }
    }
}

/// The contents of a result.
pub type JobResult = Result<JobOutputView, ErrorView>;

/// The contents of a result.
pub open spec fn result_view(r: Result<JobOutput, ConvertError>) -> JobResult {
    match r {
        Ok(output) => Ok(output@),
        Err(e) => Err(e@),
    }
}

/// A thing to do.
pub enum JobAction {
    /// Read the file that is converted.
    Read,
    /// Create the directory for what is made.
    CreateDir,
    /// Find a program.
    FindTool { tool: &'static str },
    /// Run the program that was found.
    RunTool { args: Vec<Arg> },
    /// Write the bytes to a file of this name in the directory.
    Save { name: String, bytes: Vec<u8> },
    /// Open the file that is converted as a PDF document, and count its pages.
    OpenPdf,
    /// Draw the page of this index.
    DrawPage { page: i32 },
    /// Nothing is left to do.
    Finish { result: Result<JobOutput, ConvertError> },
}

/// The contents of a [`JobAction`].
pub enum JobActionView {
    Read,
    CreateDir,
    FindTool { tool: Seq<char> },
    RunTool { args: Seq<ArgView> },
    Save { name: Seq<char>, bytes: Seq<u8> },
    OpenPdf,
    DrawPage { page: i32 },
    Finish { result: JobResult },
}

impl View for JobAction {
    type V = JobActionView;

    open spec fn view(&self) -> JobActionView {
        match *self {
            JobAction::Read => JobActionView::Read,
            JobAction::CreateDir => JobActionView::CreateDir,
            JobAction::FindTool { tool } => JobActionView::FindTool { tool: tool@ },
            JobAction::RunTool { args } => JobActionView::RunTool { args: arg_views(args@) },
            JobAction::Save { name, bytes } => JobActionView::Save { name: name@, bytes: bytes@ },
            JobAction::OpenPdf => JobActionView::OpenPdf,
            JobAction::DrawPage { page } => JobActionView::DrawPage { page },
            JobAction::Finish { result } => JobActionView::Finish { result: result_view(result) },
        }
    }
}

/// How the last thing to do went.
pub enum JobEvent {
    /// It was done, with nothing to report.
    Done,
    /// The file system or the start of a program failed.
    Failed(std::io::Error),
    /// The bytes that were read.
    Bytes(Vec<u8>),
    /// Whether the program was found.
    Tool { found: bool },
    /// Whether the program succeeded, and its error output.
    Ran { success: bool, stderr: String },
    /// The number of pages.
    Pages { pages: i32 },
    /// A drawn page, of three bytes a pixel.
    Page(Raster),
    /// The PDF document could not be read, for this reason.
    PdfFailed(String),
    /// The path of the PDF document is not Unicode.
    NotUnicode,
}

/// What is being done.
pub enum JobStage {
    ReadingPicture { from_ext: String },
    MakingFrameDir { source: FrameSource },
    ReadingGif,
    ReadingOther,
    SavingFrame { frames: Vec<Raster>, index: usize },
    FindingFfmpeg,
    RunningFfmpeg,
    MakingPageDir,
    OpeningPdf,
    DrawingPage { page: i32, pages: i32 },
    SavingPage { page: i32, pages: i32 },
    /// What there is of a frame or page that could not be encoded as a whole is saved.
    SavingRest { error: image::ImageError },
    FindingOffice,
    MakingOfficeDir,
    RunningOffice,
    Ended,
}

/// The contents of a [`JobStage`].
pub enum JobStageView {
    ReadingPicture { from_ext: Seq<char> },
    MakingFrameDir { source: FrameSource },
    ReadingGif,
    ReadingOther,
    SavingFrame { frames: Seq<RasterView>, index: nat },
    FindingFfmpeg,
    RunningFfmpeg,
    MakingPageDir,
    OpeningPdf,
    DrawingPage { page: i32, pages: i32 },
    SavingPage { page: i32, pages: i32 },
    SavingRest,
    FindingOffice,
    MakingOfficeDir,
    RunningOffice,
    Ended,
}

impl View for JobStage {
    type V = JobStageView;

    open spec fn view(&self) -> JobStageView {
        match *self {
            JobStage::ReadingPicture { from_ext } => JobStageView::ReadingPicture {
                from_ext: from_ext@,
            },
            JobStage::MakingFrameDir { source } => JobStageView::MakingFrameDir { source },
            JobStage::ReadingGif => JobStageView::ReadingGif,
            JobStage::ReadingOther => JobStageView::ReadingOther,
            JobStage::SavingFrame { frames, index } => JobStageView::SavingFrame {
                frames: raster_views(frames@),
                index: index as nat,
            },
            JobStage::FindingFfmpeg => JobStageView::FindingFfmpeg,
            JobStage::RunningFfmpeg => JobStageView::RunningFfmpeg,
            JobStage::MakingPageDir => JobStageView::MakingPageDir,
            JobStage::OpeningPdf => JobStageView::OpeningPdf,
            JobStage::DrawingPage { page, pages } => JobStageView::DrawingPage { page, pages },
            JobStage::SavingPage { page, pages } => JobStageView::SavingPage { page, pages },
            JobStage::SavingRest { error } => JobStageView::SavingRest,
            JobStage::FindingOffice => JobStageView::FindingOffice,
            JobStage::MakingOfficeDir => JobStageView::MakingOfficeDir,
            JobStage::RunningOffice => JobStageView::RunningOffice,
            JobStage::Ended => JobStageView::Ended,
        }
    }
}

/// A conversion that is being done.
pub struct Job {
    /// The new extension, in lower case.
    pub to_ext: String,
    /// The stem of the file that is converted, where it is Unicode.
    pub stem: Option<String>,
    pub stage: JobStage,
}

/// The contents of a [`Job`].
pub struct JobView {
    pub to_ext: Seq<char>,
    pub stem: Option<Seq<char>>,
    pub stage: JobStageView,
}

/// The contents of a stem.
pub open spec fn stem_view(stem: Option<String>) -> Option<Seq<char>> {
    match stem {
        Some(s) => Some(s@),
        None => None,
    }
}

impl View for Job {
    type V = JobView;

    open spec fn view(&self) -> JobView {
        JobView { to_ext: self.to_ext@, stem: stem_view(self.stem), stage: self.stage@ }
    }
}

impl Job {
    /// The frames that are to be saved are whole, and the one at hand is among them; so is the
    /// page at hand among the pages.
    pub open spec fn wf(self) -> bool {
        match self.stage {
            JobStage::SavingFrame { frames, index } => {
                &&& index < frames@.len()
                &&& forall|i: int| 0 <= i < frames@.len() ==> (#[trigger] frames@[i])@.fits(4)
            },
            JobStage::DrawingPage { page, pages } => 0 <= page < pages,
            JobStage::SavingPage { page, pages } => 0 <= page < pages,
            JobStage::ReadingPicture { from_ext } => known_format(from_ext@) && known_format(
                self.to_ext@,
            ),
            _ => true,
        }
    }
}

/// The end, with the given result.
pub open spec fn job_ended(r: JobResult) -> (JobStageView, JobActionView) {
    (JobStageView::Ended, JobActionView::Finish { result: r })
}

/// What follows something that is done or fails.
pub open spec fn job_when_done(e: JobEvent, stage: JobStageView, action: JobActionView) -> (
    JobStageView,
    JobActionView,
) {
    match e {
        JobEvent::Done => (stage, action),
        JobEvent::Failed(err) => job_ended(Err(ErrorView::IoError(err))),
        _ => job_ended(Err(ErrorView::UnsupportedPair)),
    }
}

/// What follows the run of a program, where it succeeds.
pub open spec fn job_when_run(e: JobEvent, r: JobResult) -> (JobStageView, JobActionView) {
    match e {
        JobEvent::Ran { success, stderr } => if success {
            job_ended(r)
        } else {
            job_ended(Err(ErrorView::ToolFailed(stderr)))
        },
        JobEvent::Failed(err) => job_ended(Err(ErrorView::IoError(err))),
        _ => job_ended(Err(ErrorView::UnsupportedPair)),
    }
}

/// What follows the search for a program, where it is found.
pub open spec fn job_when_found(
    e: JobEvent,
    name: &'static str,
    stage: JobStageView,
    action: JobActionView,
) -> (JobStageView, JobActionView) {
    match e {
        JobEvent::Tool { found } => if found {
            (stage, action)
        } else {
            job_ended(Err(ErrorView::ToolNotFound(name)))
        },
        _ => job_ended(Err(ErrorView::UnsupportedPair)),
    }
}

/// What is saved under a name, before the given stage is done. Where it is not whole, the job
/// ends after that.
pub open spec fn save_step(stage: JobStageView, name: Seq<char>, encoded: EncodedView) -> (
    JobStageView,
    JobActionView,
) {
    (
        if encoded.whole {
            stage
        } else {
            JobStageView::SavingRest
        },
        JobActionView::Save { name, bytes: encoded.bytes },
    )
}

/// What is done about the frame of a given index: it is saved, unless there is no format for its
/// extension; past the last one all is done.
pub open spec fn frame_step(frames: Seq<RasterView>, index: nat, ext: Seq<char>) -> (
    JobStageView,
    JobActionView,
) {
    if index >= frames.len() {
        job_ended(Ok(JobOutputView::FrameDir))
    } else if known_format(ext) {
        save_step(
            JobStageView::SavingFrame { frames, index },
            frame_file(index + 1, ext),
            rgba_encoded(frames[index as int], ext),
        )
    } else {
        job_ended(Err(ErrorView::ImageError))
    }
}

/// What is done about the page of a given index: it is drawn; past the last one all is done.
pub open spec fn page_step(page: int, pages: i32) -> (JobStageView, JobActionView) {
    if page < pages {
        (
            JobStageView::DrawingPage { page: page as i32, pages },
            JobActionView::DrawPage { page: page as i32 },
        )
    } else {
        job_ended(Ok(JobOutputView::FrameDir))
    }
}

/// What follows a drawn page: it is saved, unless there are too few bytes for its pixels or there
/// is no format for its extension.
pub open spec fn drawn_step(page: i32, pages: i32, r: RasterView, ext: Seq<char>) -> (
    JobStageView,
    JobActionView,
) {
    if !r.fits(3) {
        job_ended(Err(ErrorView::UnsupportedPair))
    } else if known_format(ext) {
        save_step(
            JobStageView::SavingPage { page, pages },
            frame_file((page + 1) as nat, ext),
            rgb_encoded(r, ext),
        )
    } else {
        job_ended(Err(ErrorView::ImageError))
    }
}

/// The arguments with which `ffmpeg` takes frames out.
pub open spec fn ffmpeg_args(ext: Seq<char>) -> Seq<ArgView> {
    seq![
        ArgView::Text("-y"@),
        ArgView::Text("-i"@),
        ArgView::Input,
        ArgView::InDir("frame_%04d."@ + ext),
    ]
}

/// The arguments with which the office program converts a document.
pub open spec fn office_args(ext: Seq<char>) -> Seq<ArgView> {
    seq![
        ArgView::Text("--headless"@),
        ArgView::Text("--convert-to"@),
        ArgView::Text(ext),
        ArgView::Text("--outdir"@),
        ArgView::Dir,
        ArgView::Input,
    ]
}

/// The name of the file that the office program makes.
pub open spec fn office_output(stem: Option<Seq<char>>, ext: Seq<char>) -> Seq<char> {
    (match stem {
        Some(s) => s,
        None => "output"@,
    }) + "."@ + ext
}

/// The first stage and thing to do, for extensions in lower case.
pub open spec fn job_start(f: Seq<char>, t: Seq<char>) -> (JobStageView, JobActionView) {
    match route(f, t) {
        Some(Route::Picture) => (
            JobStageView::ReadingPicture { from_ext: f },
            JobActionView::Read,
        ),
        Some(Route::AnimationFrames) | Some(Route::VideoFrames) => (
            JobStageView::MakingFrameDir {
                source: if f == "gif"@ {
                    FrameSource::Gif
                } else if anim_exts().contains(f) {
                    FrameSource::FfmpegAfterReading
                } else {
                    FrameSource::Ffmpeg
                },
            },
            JobActionView::CreateDir,
        ),
        Some(Route::PdfFrames) => (JobStageView::MakingPageDir, JobActionView::CreateDir),
        Some(Route::Office) => (
            JobStageView::FindingOffice,
            JobActionView::FindTool { tool: "soffice"@ },
        ),
        None => job_ended(Err(ErrorView::UnsupportedPair)),
    }
}

/// The next stage and thing to do. An event that does not answer the last thing to do ends the
/// job as unsupported.
pub open spec fn job_next(j: JobView, e: JobEvent) -> (JobStageView, JobActionView) {
    let ext = j.to_ext;
    match j.stage {
        JobStageView::ReadingPicture { from_ext } => match e {
            JobEvent::Bytes(bytes) => match converted(bytes@, from_ext, ext) {
                Some(out) => job_ended(Ok(JobOutputView::SingleFile(out))),
                None => job_ended(Err(ErrorView::ImageError)),
            },
            JobEvent::Failed(err) => job_ended(Err(ErrorView::IoError(err))),
            _ => job_ended(Err(ErrorView::UnsupportedPair)),
        },
        JobStageView::MakingFrameDir { source } => match source {
            FrameSource::Gif => job_when_done(e, JobStageView::ReadingGif, JobActionView::Read),
            FrameSource::FfmpegAfterReading => job_when_done(
                e,
                JobStageView::ReadingOther,
                JobActionView::Read,
            ),
            FrameSource::Ffmpeg => job_when_done(
                e,
                JobStageView::FindingFfmpeg,
                JobActionView::FindTool { tool: "ffmpeg"@ },
            ),
        },
        JobStageView::ReadingGif => match e {
            JobEvent::Bytes(bytes) => match gif_decoded(bytes@) {
                Some(frames) => frame_step(frames, 0, ext),
                None => job_ended(Err(ErrorView::ImageError)),
            },
            JobEvent::Failed(err) => job_ended(Err(ErrorView::IoError(err))),
            _ => job_ended(Err(ErrorView::UnsupportedPair)),
        },
        JobStageView::ReadingOther => match e {
            JobEvent::Bytes(_) => (
                JobStageView::FindingFfmpeg,
                JobActionView::FindTool { tool: "ffmpeg"@ },
            ),
            JobEvent::Failed(err) => job_ended(Err(ErrorView::IoError(err))),
            _ => job_ended(Err(ErrorView::UnsupportedPair)),
        },
        JobStageView::SavingFrame { frames, index } => match e {
            JobEvent::Done => frame_step(frames, index + 1, ext),
            JobEvent::Failed(_) => job_ended(Err(ErrorView::ImageError)),
            _ => job_ended(Err(ErrorView::UnsupportedPair)),
        },
        JobStageView::FindingFfmpeg => job_when_found(
            e,
            "ffmpeg",
            JobStageView::RunningFfmpeg,
            JobActionView::RunTool { args: ffmpeg_args(ext) },
        ),
        JobStageView::RunningFfmpeg => job_when_run(e, Ok(JobOutputView::FrameDir)),
        JobStageView::MakingPageDir => job_when_done(
            e,
            JobStageView::OpeningPdf,
            JobActionView::OpenPdf,
        ),
        JobStageView::OpeningPdf => match e {
            JobEvent::Pages { pages } => page_step(0, pages),
            JobEvent::PdfFailed(reason) => job_ended(Err(ErrorView::ToolFailed(reason))),
            _ => job_ended(Err(ErrorView::UnsupportedPair)),
        },
        JobStageView::DrawingPage { page, pages } => match e {
            JobEvent::Page(r) => drawn_step(page, pages, r@, ext),
            JobEvent::PdfFailed(reason) => job_ended(Err(ErrorView::ToolFailed(reason))),
            _ => job_ended(Err(ErrorView::UnsupportedPair)),
        },
        JobStageView::SavingPage { page, pages } => match e {
            JobEvent::Done => page_step(page + 1, pages),
            JobEvent::Failed(_) => job_ended(Err(ErrorView::ImageError)),
            _ => job_ended(Err(ErrorView::UnsupportedPair)),
        },
        JobStageView::SavingRest => match e {
            JobEvent::Done => job_ended(Err(ErrorView::ImageError)),
            JobEvent::Failed(_) => job_ended(Err(ErrorView::ImageError)),
            _ => job_ended(Err(ErrorView::UnsupportedPair)),
        },
        JobStageView::FindingOffice => job_when_found(
            e,
            "soffice",
            JobStageView::MakingOfficeDir,
            JobActionView::CreateDir,
        ),
        JobStageView::MakingOfficeDir => job_when_done(
            e,
            JobStageView::RunningOffice,
            JobActionView::RunTool { args: office_args(ext) },
        ),
        JobStageView::RunningOffice => job_when_run(
            e,
            Ok(JobOutputView::ExternalFile(office_output(j.stem, ext))),
        ),
        JobStageView::Ended => job_ended(Err(ErrorView::UnsupportedPair)),
    }
}

/// Starts to convert a file of the given stem from one extension to another, in whatever case
/// the two are written.
pub fn start_job(from_ext: &str, to_ext: &str, stem: Option<String>) -> (res: (Job, JobAction))
    ensures
        res.0.wf(),
        res.0.to_ext@ == lowered(to_ext@),
        res.0.stem == stem,
        (res.0.stage@, res.1@) == job_start(lowered(from_ext@), lowered(to_ext@)),
{
    proof {
        crate::converter_laws::law_routed_formats_are_known(from_ext@, to_ext@);
    }
    match dispatch(from_ext, to_ext) {
        Ok(c) => match c.route {
            Route::Picture => (
                Job {
                    to_ext: c.to_ext,
                    stem,
                    stage: JobStage::ReadingPicture { from_ext: c.from_ext },
                },
                JobAction::Read,
            ),
            Route::AnimationFrames | Route::VideoFrames => {
                let source = extract_frames(c.from_ext.as_str());
                (
                    Job { to_ext: c.to_ext, stem, stage: JobStage::MakingFrameDir { source } },
                    JobAction::CreateDir,
                )
            },
            Route::PdfFrames => (
                Job { to_ext: c.to_ext, stem, stage: JobStage::MakingPageDir },
                JobAction::CreateDir,
            ),
            Route::Office => (
                Job { to_ext: c.to_ext, stem, stage: JobStage::FindingOffice },
                JobAction::FindTool { tool: "soffice" },
            ),
        },
        Err(e) => (
            Job { to_ext: to_ext.to_ascii_lowercase(), stem, stage: JobStage::Ended },
            JobAction::Finish { result: Err(e) },
        ),
    }
}

impl Job {
    fn ended(self, result: Result<JobOutput, ConvertError>) -> (res: (Job, JobAction))
        ensures
            res.0.wf(),
            res.0.to_ext == self.to_ext,
            res.0.stem == self.stem,
            (res.0.stage@, res.1@) == job_ended(result_view(result)),
            res.1 == (JobAction::Finish { result }),
    {
        (Job { stage: JobStage::Ended, ..self }, JobAction::Finish { result })
    }

    /// Goes on where the event does not say that the last thing was done.
    fn not_done(self, e: JobEvent) -> (res: (Job, JobAction))
        ensures
            res.0.wf(),
            res.0.to_ext == self.to_ext,
            res.0.stem == self.stem,
            (res.0.stage@, res.1@) == match e {
                JobEvent::Failed(err) => job_ended(Err(ErrorView::IoError(err))),
                _ => job_ended(Err(ErrorView::UnsupportedPair)),
            },
    {
        match e {
            JobEvent::Failed(err) => self.ended(Err(ConvertError::from(err))),
            _ => self.ended(Err(ConvertError::UnsupportedPair)),
        }
    }

    /// Goes on where a frame or a page was not saved.
    fn not_saved(self, e: JobEvent) -> (res: (Job, JobAction))
        ensures
            res.0.wf(),
            res.0.to_ext == self.to_ext,
            res.0.stem == self.stem,
            (res.0.stage@, res.1@) == match e {
                JobEvent::Failed(_) => job_ended(Err(ErrorView::ImageError)),
                _ => job_ended(Err(ErrorView::UnsupportedPair)),
            },
    {
        match e {
            JobEvent::Failed(err) => self.ended(Err(ConvertError::from(file_error(err)))),
            _ => self.ended(Err(ConvertError::UnsupportedPair)),
        }
    }

    /// Goes on where a PDF document was not read.
    fn not_drawn(self, e: JobEvent) -> (res: (Job, JobAction))
        ensures
            res.0.wf(),
            res.0.to_ext == self.to_ext,
            res.0.stem == self.stem,
            (res.0.stage@, res.1@) == match e {
                JobEvent::PdfFailed(reason) => job_ended(Err(ErrorView::ToolFailed(reason))),
                _ => job_ended(Err(ErrorView::UnsupportedPair)),
            },
    {
        match e {
            JobEvent::PdfFailed(reason) => self.ended(Err(ConvertError::ToolFailed(reason))),
            _ => self.ended(Err(ConvertError::UnsupportedPair)),
        }
    }

    fn ran(self, e: JobEvent, output: JobOutput) -> (res: (Job, JobAction))
        ensures
            res.0.wf(),
            res.0.to_ext == self.to_ext,
            res.0.stem == self.stem,
            (res.0.stage@, res.1@) == job_when_run(
                e,
                result_view(Ok::<JobOutput, ConvertError>(output)),
            ),
    {
        match e {
            JobEvent::Ran { success, stderr } => match crate::converter::tool_outcome(
                success,
                stderr,
            ) {
                Ok(_) => self.ended(Ok(output)),
                Err(err) => self.ended(Err(err)),
            },
            JobEvent::Failed(err) => self.ended(Err(ConvertError::from(err))),
            _ => self.ended(Err(ConvertError::UnsupportedPair)),
        }
    }

    /// Saves what was encoded, before the given stage is done. Where it is not whole, the error
    /// is reported after that.
    pub fn save(self, stage: JobStage, name: String, encoded: Encoded) -> (res: (Job, JobAction))
        requires
            (Job { stage, ..self }).wf(),
        ensures
            res.0.wf(),
            res.0.to_ext == self.to_ext,
            res.0.stem == self.stem,
            (res.0.stage@, res.1@) == save_step(stage@, name@, encoded@),
            encoded.error matches Some(e) ==> res.0.stage == (JobStage::SavingRest { error: e }),
    {
        let Encoded { bytes, error } = encoded;
        let stage = match error {
            Some(error) => JobStage::SavingRest { error },
            None => stage,
        };
        (Job { stage, ..self }, JobAction::Save { name, bytes })
    }

    /// Goes on with the frame of a given index, once it was encoded.
    pub fn frame_encoded(
        self,
        frames: Vec<Raster>,
        index: usize,
        encoded: Result<Encoded, ConvertError>,
    ) -> (res: (Job, JobAction))
        requires
            index < frames@.len(),
            forall|i: int| 0 <= i < frames@.len() ==> (#[trigger] frames@[i])@.fits(4),
        ensures
            res.0.wf(),
            res.0.to_ext == self.to_ext,
            res.0.stem == self.stem,
            (res.0.stage@, res.1@) == match encoded {
                Ok(encoded) => save_step(
                    JobStageView::SavingFrame {
                        frames: raster_views(frames@),
                        index: index as nat,
                    },
                    frame_file((index + 1) as nat, self.to_ext@),
                    encoded@,
                ),
                Err(e) => job_ended(result_view(Err::<JobOutput, ConvertError>(e))),
            },
    {
        match encoded {
            Ok(encoded) => {
                assert(frames.len() == frames@.len());
                let name = frame_name((index + 1) as u64, self.to_ext.as_str());
                self.save(JobStage::SavingFrame { frames, index }, name, encoded)
            },
            Err(e) => self.ended(Err(e)),
        }
    }

    fn frame(self, frames: Vec<Raster>, index: usize) -> (res: (Job, JobAction))
        requires
            forall|i: int| 0 <= i < frames@.len() ==> (#[trigger] frames@[i])@.fits(4),
        ensures
            res.0.wf(),
            res.0.to_ext == self.to_ext,
            res.0.stem == self.stem,
            (res.0.stage@, res.1@) == frame_step(
                raster_views(frames@),
                index as nat,
                self.to_ext@,
            ),
    {
        if index >= frames.len() {
            return self.ended(Ok(JobOutput::FrameDir));
        }
        let encoded = encode_frame(&frames[index], self.to_ext.as_str());
        self.frame_encoded(frames, index, encoded)
    }

    /// Goes on with the frames of a GIF, once it was decoded.
    pub fn frames_decoded(self, decoded: Result<Vec<Raster>, ConvertError>) -> (res: (
        Job,
        JobAction,
    ))
        requires
            decoded matches Ok(frames) ==> forall|i: int|
                0 <= i < frames@.len() ==> (#[trigger] frames@[i])@.fits(4),
        ensures
            res.0.wf(),
            res.0.to_ext == self.to_ext,
            res.0.stem == self.stem,
            (res.0.stage@, res.1@) == match decoded {
                Ok(frames) => frame_step(raster_views(frames@), 0, self.to_ext@),
                Err(e) => job_ended(result_view(Err::<JobOutput, ConvertError>(e))),
            },
    {
        match decoded {
            Ok(frames) => self.frame(frames, 0),
            Err(e) => self.ended(Err(e)),
        }
    }

    fn page(self, page: i32, pages: i32) -> (res: (Job, JobAction))
        requires
            0 <= page,
        ensures
            res.0.wf(),
            res.0.to_ext == self.to_ext,
            res.0.stem == self.stem,
            (res.0.stage@, res.1@) == page_step(page as int, pages),
    {
        if page < pages {
            (
                Job { stage: JobStage::DrawingPage { page, pages }, ..self },
                JobAction::DrawPage { page },
            )
        } else {
            self.ended(Ok(JobOutput::FrameDir))
        }
    }

    /// Goes on with the page of a given index, once it was encoded.
    pub fn page_encoded(
        self,
        page: i32,
        pages: i32,
        encoded: Result<Encoded, ConvertError>,
    ) -> (res: (Job, JobAction))
        requires
            0 <= page < pages,
        ensures
            res.0.wf(),
            res.0.to_ext == self.to_ext,
            res.0.stem == self.stem,
            (res.0.stage@, res.1@) == match encoded {
                Ok(encoded) => save_step(
                    JobStageView::SavingPage { page, pages },
                    frame_file((page + 1) as nat, self.to_ext@),
                    encoded@,
                ),
                Err(e) => job_ended(result_view(Err::<JobOutput, ConvertError>(e))),
            },
    {
        match encoded {
            Ok(encoded) => {
                let name = frame_name(page as u64 + 1, self.to_ext.as_str());
                self.save(JobStage::SavingPage { page, pages }, name, encoded)
            },
            Err(e) => self.ended(Err(e)),
        }
    }

    /// Goes on from how the last thing to do went to the next thing to do.
    pub fn step(self, e: JobEvent) -> (res: (Job, JobAction))
        requires
            self.wf(),
        ensures
            res.0.wf(),
            res.0.to_ext == self.to_ext,
            res.0.stem == self.stem,
            (res.0.stage@, res.1@) == job_next(self@, e),
            self.stage matches JobStage::SavingRest { error } ==> e is Done ==> res.1 == (
            JobAction::Finish { result: Err(ConvertError::ImageError(error)) }),
    {
        let Job { to_ext, stem, stage } = self;
        let rest = Job { to_ext, stem, stage: JobStage::Ended };
        match stage {
            JobStage::ReadingPicture { from_ext } => match e {
                JobEvent::Bytes(bytes) => {
                    match convert(bytes.as_slice(), from_ext.as_str(), rest.to_ext.as_str()) {
                        Ok(out) => rest.ended(Ok(JobOutput::SingleFile(out))),
                        Err(err) => rest.ended(Err(err)),
                    }
                },
                _ => rest.not_done(e),
            },
            JobStage::MakingFrameDir { source } => match e {
                JobEvent::Done => match source {
                    FrameSource::Gif => (
                        Job { stage: JobStage::ReadingGif, ..rest },
                        JobAction::Read,
                    ),
                    FrameSource::FfmpegAfterReading => (
                        Job { stage: JobStage::ReadingOther, ..rest },
                        JobAction::Read,
                    ),
                    FrameSource::Ffmpeg => (
                        Job { stage: JobStage::FindingFfmpeg, ..rest },
                        JobAction::FindTool { tool: "ffmpeg" },
                    ),
                },
                _ => rest.not_done(e),
            },
            JobStage::ReadingGif => match e {
                JobEvent::Bytes(bytes) => rest.frames_decoded(
                    extract_gif_frames(bytes.as_slice()),
                ),
                _ => rest.not_done(e),
            },
            JobStage::ReadingOther => match e {
                JobEvent::Bytes(_) => (
                    Job { stage: JobStage::FindingFfmpeg, ..rest },
                    JobAction::FindTool { tool: "ffmpeg" },
                ),
                _ => rest.not_done(e),
            },
            JobStage::SavingFrame { frames, index } => match e {
                JobEvent::Done => {
                    assert(frames.len() == frames@.len());
                    rest.frame(frames, index + 1)
                },
                _ => rest.not_saved(e),
            },
            JobStage::FindingFfmpeg => match e {
                JobEvent::Tool { found: true } => {
                    let args = extract_frames_ffmpeg(rest.to_ext.as_str());
                    (
                        Job { stage: JobStage::RunningFfmpeg, ..rest },
                        JobAction::RunTool { args },
                    )
                },
                JobEvent::Tool { found: false } => rest.ended(
                    Err(ConvertError::ToolNotFound("ffmpeg")),
                ),
                _ => rest.ended(Err(ConvertError::UnsupportedPair)),
            },
            JobStage::RunningFfmpeg => rest.ran(e, JobOutput::FrameDir),
            JobStage::MakingPageDir => match e {
                JobEvent::Done => (
                    Job { stage: JobStage::OpeningPdf, ..rest },
                    JobAction::OpenPdf,
                ),
                _ => rest.not_done(e),
            },
            JobStage::OpeningPdf => match e {
                JobEvent::Pages { pages } => rest.page(0, pages),
                _ => rest.not_drawn(e),
            },
            JobStage::DrawingPage { page, pages } => match e {
                JobEvent::Page(r) => {
                    let encoded = pdf_to_frames(r, rest.to_ext.as_str());
                    rest.page_encoded(page, pages, encoded)
                },
                _ => rest.not_drawn(e),
            },
            JobStage::SavingPage { page, pages } => match e {
                JobEvent::Done => rest.page(page + 1, pages),
                _ => rest.not_saved(e),
            },
            JobStage::SavingRest { error } => match e {
                JobEvent::Done => rest.ended(Err(ConvertError::from(error))),
                _ => rest.not_saved(e),
            },
            JobStage::FindingOffice => match e {
                JobEvent::Tool { found: true } => (
                    Job { stage: JobStage::MakingOfficeDir, ..rest },
                    JobAction::CreateDir,
                ),
                JobEvent::Tool { found: false } => rest.ended(
                    Err(ConvertError::ToolNotFound("soffice")),
                ),
                _ => rest.ended(Err(ConvertError::UnsupportedPair)),
            },
            JobStage::MakingOfficeDir => match e {
                JobEvent::Done => {
                    let job = soffice_convert(None, rest.to_ext.as_str());
                    (
                        Job { stage: JobStage::RunningOffice, ..rest },
                        JobAction::RunTool { args: job.args },
                    )
                },
                _ => rest.not_done(e),
            },
            JobStage::RunningOffice => {
                let stem = match &rest.stem {
                    Some(s) => Some(s.as_str()),
                    None => None,
                };
                let job = soffice_convert(stem, rest.to_ext.as_str());
                rest.ran(e, JobOutput::ExternalFile(job.output))
            },
            JobStage::Ended => rest.ended(Err(ConvertError::UnsupportedPair)),
        }
    }
}

} // verus!
