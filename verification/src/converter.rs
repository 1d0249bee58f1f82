//! Conversion: which files can be converted into which, by what means, and what comes out.

use crate::pictures::{
    all_exact, all_pixels, converted, frames_decoded, gif_animation, gif_decoded, gif_encoded,
    gif_frames, has_format, known_format, raster_views, reencode, rgb_encoded, rgba_encoded,
    unknown_extension, write_rgb, write_rgba, Encoded, FrameFile, Raster, RasterView,
};
use crate::text::{cat3, lowered, one_of, padded, padded_text, text_eq, texts};
use std::path::PathBuf;
use vstd::prelude::*;
use vstd::string::*;

verus! {

/// `image::ImageError`, what the image library reports when it cannot read or write a
/// picture. Nothing is claimed of what it holds.
#[verifier::external_type_specification]
#[verifier::external_body]
pub struct ExImageError(image::ImageError);

/// `std::io::Error`, a failure of the file system or of a process. Nothing is claimed of what
/// it holds.
#[verifier::external_type_specification]
#[verifier::external_body]
pub struct ExIoError(std::io::Error);

/// Why a conversion did not happen.
#[derive(Debug)]
pub enum ConvertError {
    UnsupportedPair,
    ImageError(image::ImageError),
    ToolNotFound(&'static str),
    ToolFailed(String),
    IoError(std::io::Error),
}

impl From<image::ImageError> for ConvertError {
    fn from(e: image::ImageError) -> (res: Self) {
        ConvertError::ImageError(e)
    }
}

impl vstd::std_specs::convert::FromSpecImpl<image::ImageError> for ConvertError {
    open spec fn obeys_from_spec() -> bool {
        true
    }

    open spec fn from_spec(e: image::ImageError) -> Self {
        ConvertError::ImageError(e)
    }
}

impl From<std::io::Error> for ConvertError {
    fn from(e: std::io::Error) -> (res: Self) {
        ConvertError::IoError(e)
    }
}

impl vstd::std_specs::convert::FromSpecImpl<std::io::Error> for ConvertError {
    open spec fn obeys_from_spec() -> bool {
        true
    }

    open spec fn from_spec(e: std::io::Error) -> Self {
        ConvertError::IoError(e)
    }
}

/// An error, without what the errors of the image library hold.
pub enum ErrorView {
    UnsupportedPair,
    ImageError,
    ToolNotFound(&'static str),
    ToolFailed(String),
    IoError(std::io::Error),
}

impl View for ConvertError {
    type V = ErrorView;

    open spec fn view(&self) -> ErrorView {
        match *self {
            ConvertError::UnsupportedPair => ErrorView::UnsupportedPair,
            ConvertError::ImageError(_) => ErrorView::ImageError,
            ConvertError::ToolNotFound(t) => ErrorView::ToolNotFound(t),
            ConvertError::ToolFailed(s) => ErrorView::ToolFailed(s),
            ConvertError::IoError(e) => ErrorView::IoError(e),
        }
    }
}

/// What a conversion produced.
pub enum ConvertOutput {
    SingleFile(Vec<u8>),
    FrameDir,
    ExternalFile(PathBuf),
}

/// The directory in which the program keeps its data, once it is known.
pub struct DataDir {
    pub path: Option<PathBuf>,
}

impl DataDir {
    /// No directory is known yet.
    pub fn unset() -> (res: DataDir)
        ensures
            res.path is None,
    {
        DataDir { path: None }
    }
}

/// Makes the data directory known. Only the first call counts.
pub fn set_data_dir(dir: &mut DataDir, p: PathBuf)
    ensures
        final(dir).path == match old(dir).path {
            Some(known) => Some(known),
            None => Some(p),
        },
{
    if dir.path.is_none() {
        dir.path = Some(p);
    }
}

// ---------------------------------------------------------------------------
// Routing
// ---------------------------------------------------------------------------

/// The extensions of videos.
pub open spec fn video_exts() -> Seq<Seq<char>> {
    seq!["mp4"@, "webm"@, "avi"@, "mov"@, "mkv"@, "flv"@]
}

/// The extensions of pictures of one frame.
pub open spec fn image_exts() -> Seq<Seq<char>> {
    seq!["png"@, "jpg"@, "jpeg"@, "bmp"@, "tiff"@, "tif"@, "ico"@, "qoi"@]
}

/// The extensions of pictures that may be animated.
pub open spec fn anim_exts() -> Seq<Seq<char>> {
    seq!["gif"@, "webp"@]
}

/// The extensions of documents.
pub open spec fn office_exts() -> Seq<Seq<char>> {
    seq![
        "docx"@, "doc"@, "odt"@, "pptx"@, "ppt"@, "odp"@, "xlsx"@, "xls"@, "ods"@, "md"@, "rtf"@,
        "txt"@, "pdf"@
    ]
}

/// By what means a file is converted.
#[derive(Clone, Copy, Debug, PartialEq, Eq, Structural)]
pub enum Route {
    /// A picture is decoded and encoded again.
    Picture,
    /// The frames of an animation are taken out.
    AnimationFrames,
    /// The frames of a video are taken out.
    VideoFrames,
    /// The pages of a PDF document are drawn.
    PdfFrames,
    /// A document is handed to the office program.
    Office,
}

/// The route from one extension to another, both in lower case.
pub open spec fn route(f: Seq<char>, t: Seq<char>) -> Option<Route> {
    if image_exts().contains(f) && (image_exts().contains(t) || anim_exts().contains(t)) {
        Some(Route::Picture)
    } else if anim_exts().contains(f) && image_exts().contains(t) {
        Some(Route::AnimationFrames)
    } else if video_exts().contains(f) && image_exts().contains(t) {
        Some(Route::VideoFrames)
    } else if f == "pdf"@ && image_exts().contains(t) {
        Some(Route::PdfFrames)
    } else if office_exts().contains(f) && office_exts().contains(t) {
        Some(Route::Office)
    } else {
        None
    }
}

/// A conversion that can be done, with both extensions in lower case.
#[derive(Debug)]
pub struct Conversion {
    pub route: Route,
    pub from_ext: String,
    pub to_ext: String,
}

/// Whether an extension is one of a video.
pub fn is_video(ext: &str) -> (res: bool)
    ensures
        res == video_exts().contains(ext@),
{
    let names = ["mp4", "webm", "avi", "mov", "mkv", "flv"];
    assert(texts(names@) =~= video_exts());
    one_of(ext, names.as_slice())
}

/// Whether an extension is one of a picture of one frame.
pub fn is_image(ext: &str) -> (res: bool)
    ensures
        res == image_exts().contains(ext@),
{
    let names = ["png", "jpg", "jpeg", "bmp", "tiff", "tif", "ico", "qoi"];
    assert(texts(names@) =~= image_exts());
    one_of(ext, names.as_slice())
}

/// Whether an extension is one of a picture that may be animated.
pub fn is_anim(ext: &str) -> (res: bool)
    ensures
        res == anim_exts().contains(ext@),
{
    let names = ["gif", "webp"];
    assert(texts(names@) =~= anim_exts());
    one_of(ext, names.as_slice())
}

/// Whether an extension is one of a document.
pub fn is_office(ext: &str) -> (res: bool)
    ensures
        res == office_exts().contains(ext@),
{
    let names = [
        "docx", "doc", "odt", "pptx", "ppt", "odp", "xlsx", "xls", "ods", "md", "rtf", "txt", "pdf",
    ];
    assert(texts(names@) =~= office_exts());
    one_of(ext, names.as_slice())
}

/// Decides how a file is converted from one extension to another, in whatever case the two are
/// written.
pub fn dispatch(from_ext: &str, to_ext: &str) -> (res: Result<Conversion, ConvertError>)
    ensures
        match res {
            Ok(c) => {
                &&& route(lowered(from_ext@), lowered(to_ext@)) == Some(c.route)
                &&& c.from_ext@ == lowered(from_ext@)
                &&& c.to_ext@ == lowered(to_ext@)
            },
            Err(e) => e is UnsupportedPair && route(lowered(from_ext@), lowered(to_ext@)) is None,
        },
{
    let f = from_ext.to_ascii_lowercase();
    let t = to_ext.to_ascii_lowercase();
    let to_image = is_image(t.as_str());
    let route = if is_image(f.as_str()) && (to_image || is_anim(t.as_str())) {
        Route::Picture
    } else if is_anim(f.as_str()) && to_image {
        Route::AnimationFrames
    } else if is_video(f.as_str()) && to_image {
        Route::VideoFrames
    } else if text_eq(f.as_str(), "pdf") && to_image {
        Route::PdfFrames
    } else if is_office(f.as_str()) && is_office(t.as_str()) {
        Route::Office
    } else {
        return Err(ConvertError::UnsupportedPair);
    };
    Ok(Conversion { route, from_ext: f, to_ext: t })
}

// ---------------------------------------------------------------------------
// Single pictures
// ---------------------------------------------------------------------------

/// Whether `res` is the outcome of an operation on pictures that gives `bytes`, or fails.
pub open spec fn is_outcome(res: Result<Vec<u8>, ConvertError>, bytes: Option<Seq<u8>>) -> bool {
    match res {
        Ok(out) => bytes == Some(out@),
        Err(e) => e is ImageError && bytes is None,
    }
}

/// Hands on what the image library returned.
pub fn picture_outcome(res: Result<Vec<u8>, image::ImageError>) -> (out: Result<
    Vec<u8>,
    ConvertError,
>)
    ensures
        out == match res {
            Ok(bytes) => Ok::<Vec<u8>, ConvertError>(bytes),
            Err(e) => Err(ConvertError::ImageError(e)),
        },
{
    match res {
        Ok(bytes) => Ok(bytes),
        Err(e) => Err(ConvertError::from(e)),
    }
}

/// Makes sure that there is a picture format for both extensions.
pub fn check_formats(from_ext: &str, to_ext: &str) -> (res: Result<(), ConvertError>)
    ensures
        match res {
            Ok(_) => known_format(from_ext@) && known_format(to_ext@),
            Err(e) => e is UnsupportedPair && !(known_format(from_ext@) && known_format(to_ext@)),
        },
{
    if has_format(from_ext) && has_format(to_ext) {
        Ok(())
    } else {
        Err(ConvertError::UnsupportedPair)
    }
}

/// Converts the bytes of a picture file from one format to another.
pub fn convert(bytes: &[u8], from_ext: &str, to_ext: &str) -> (res: Result<Vec<u8>, ConvertError>)
    ensures
        if known_format(from_ext@) && known_format(to_ext@) {
            is_outcome(res, converted(bytes@, from_ext@, to_ext@))
        } else {
            res matches Err(ConvertError::UnsupportedPair)
        },
{
    match check_formats(from_ext, to_ext) {
        Ok(_) => picture_outcome(reencode(bytes, from_ext, to_ext)),
        Err(e) => Err(e),
    }
}

// ---------------------------------------------------------------------------
// Merging frames
// ---------------------------------------------------------------------------

/// Which of the frames an animation is made of.
#[derive(Clone, Copy, Debug, PartialEq, Eq, Structural)]
pub enum AnimationSource {
    AllFrames,
    FirstFrame,
}

/// The extension by which the first frame is decoded where it alone is saved.
pub open spec fn first_ext(ext: Option<String>) -> Seq<char> {
    match ext {
        Some(e) => e@,
        None => "png"@,
    }
}

/// Decides which frames are needed for an animation of extension `to_ext`. All of them for a
/// GIF; for WebP only the first, provided that there is a format for its extension.
pub fn animation_source(first: &Option<String>, to_ext: &str) -> (res: Result<
    AnimationSource,
    ConvertError,
>)
    ensures
        match res {
            Ok(AnimationSource::AllFrames) => to_ext@ == "gif"@,
            Ok(AnimationSource::FirstFrame) => to_ext@ == "webp"@ && known_format(
                first_ext(*first),
            ) && known_format("webp"@),
            Err(e) => e is UnsupportedPair && to_ext@ != "gif"@ && !(to_ext@ == "webp"@
                && known_format(first_ext(*first)) && known_format("webp"@)),
        },
{
    proof {
        reveal_strlit("gif");
        reveal_strlit("webp");
    }
    if text_eq(to_ext, "gif") {
        Ok(AnimationSource::AllFrames)
    } else if text_eq(to_ext, "webp") {
        let ext = match first {
            Some(e) => e.as_str(),
            None => "png",
        };
        match check_formats(ext, "webp") {
            Ok(_) => Ok(AnimationSource::FirstFrame),
            Err(e) => Err(e),
        }
    } else {
        Err(ConvertError::UnsupportedPair)
    }
}

/// What making an animation comes to: what is written as the result, if anything, and whether it
/// succeeded.
#[derive(Debug)]
pub struct Animation {
    pub written: Option<Vec<u8>>,
    pub result: Result<(), ConvertError>,
}

/// Reports on an animation that was encoded. Where it is not whole, the error is the one of the
/// encoder; otherwise it is `stop`, the one for which no more frames could be had.
pub fn animation_outcome(encoded: Encoded, stop: Option<image::ImageError>) -> (res: Animation)
    ensures
        res.written == Some(encoded.bytes),
        res.result == match (encoded.error, stop) {
            (Some(e), _) => Err::<(), ConvertError>(ConvertError::ImageError(e)),
            (None, Some(e)) => Err(ConvertError::ImageError(e)),
            (None, None) => Ok(()),
        },
{
    let Encoded { bytes, error } = encoded;
    let result = match error {
        Some(e) => Err(ConvertError::from(e)),
        None => match stop {
            Some(e) => Err(ConvertError::from(e)),
            None => Ok(()),
        },
    };
    Animation { written: Some(bytes), result }
}

/// Whether an animation is made of the given frames, with `stopped` where no more could be had.
pub open spec fn is_gif(res: Animation, frames: Seq<RasterView>, stopped: bool) -> bool {
    &&& res.written matches Some(bytes) && bytes@ == gif_encoded(frames).bytes
    &&& if gif_encoded(frames).whole && !stopped {
        res.result is Ok
    } else {
        res.result matches Err(ConvertError::ImageError(_))
    }
}

/// Makes a GIF of frames, four bytes a pixel; `stop` is the error for which no more of them could
/// be had. The frames before it are written all the same.
pub fn animate(frames: Vec<Raster>, stop: Option<image::ImageError>) -> (res: Animation)
    requires
        all_exact(frames@),
    ensures
        is_gif(res, raster_views(frames@), stop is Some),
{
    animation_outcome(gif_animation(frames), stop)
}

/// Makes an animation of the bytes of its frames. For WebP only the first frame is saved. A GIF
/// is written up to the first frame that fails.
pub fn frames_to_animated(frames: &Vec<FrameFile>, to_ext: &str) -> (res: Animation)
    requires
        to_ext@ == "webp"@ ==> frames@.len() > 0,
    ensures
        if to_ext@ == "gif"@ {
            is_gif(
                res,
                frames_decoded(frames@),
                frames_decoded(frames@).len() < frames@.len(),
            )
        } else if to_ext@ == "webp"@ && known_format(first_ext(frames@[0].ext)) && known_format(
            "webp"@,
        ) {
            match converted(frames@[0].bytes@, first_ext(frames@[0].ext), "webp"@) {
                Some(bytes) => res.result is Ok && (res.written matches Some(w) && w@ == bytes),
                None => res.written is None && (res.result matches Err(
                    ConvertError::ImageError(_),
                )),
            }
        } else {
            res.written is None && (res.result matches Err(ConvertError::UnsupportedPair))
        },
{
    proof {
        reveal_strlit("gif");
        reveal_strlit("webp");
    }
    if text_eq(to_ext, "gif") {
        let (pixels, stop) = all_pixels(frames);
        animate(pixels, stop)
    } else if text_eq(to_ext, "webp") {
        let ext = match &frames[0].ext {
            Some(e) => e.as_str(),
            None => "png",
        };
        match convert(frames[0].bytes.as_slice(), ext, "webp") {
            Ok(bytes) => Animation { written: Some(bytes), result: Ok(()) },
            Err(e) => Animation { written: None, result: Err(e) },
        }
    } else {
        Animation { written: None, result: Err(ConvertError::UnsupportedPair) }
    }
}

// ---------------------------------------------------------------------------
// Outside programs
// ---------------------------------------------------------------------------

/// An argument of an outside program. Paths are filled in where the program is started.
#[derive(Debug)]
pub enum Arg {
    /// The argument itself.
    Text(String),
    /// The file that is read.
    Input,
    /// The file that is written.
    Output,
    /// The directory that is written to.
    Dir,
    /// A name in the directory that is written to.
    InDir(String),
}

/// The contents of an [`Arg`].
pub enum ArgView {
    Text(Seq<char>),
    Input,
    Output,
    Dir,
    InDir(Seq<char>),
}

impl View for Arg {
    type V = ArgView;

    open spec fn view(&self) -> ArgView {
        match self {
            Arg::Text(s) => ArgView::Text(s@),
            Arg::Input => ArgView::Input,
            Arg::Output => ArgView::Output,
            Arg::Dir => ArgView::Dir,
            Arg::InDir(s) => ArgView::InDir(s@),
        }
    }
}

/// The contents of a list of arguments.
pub open spec fn arg_views(args: Seq<Arg>) -> Seq<ArgView> {
    args.map_values(|a: Arg| a@)
}

/// Plain texts as arguments.
pub open spec fn text_args(names: Seq<Seq<char>>) -> Seq<ArgView> {
    names.map_values(|s: Seq<char>| ArgView::Text(s))
}

fn push_texts(args: &mut Vec<Arg>, names: &[&str])
    ensures
        arg_views(final(args)@) == arg_views(old(args)@) + text_args(texts(names@)),
{
    let ghost before = arg_views(args@);
    let mut i: usize = 0;
    assert(text_args(texts(names@)).take(0) =~= Seq::<ArgView>::empty());
    while i < names.len()
        invariant
            i <= names@.len(),
            arg_views(args@) == before + text_args(texts(names@)).take(i as int),
        decreases names@.len() - i,
    {
        let ghost so_far = args@;
        args.push(Arg::Text(names[i].to_owned()));
        assert(arg_views(args@) =~= arg_views(so_far).push(ArgView::Text(names@[i as int]@)));
        assert(text_args(texts(names@)).take(i + 1) =~= text_args(texts(names@)).take(
            i as int,
        ).push(ArgView::Text(names@[i as int]@)));
        i += 1;
    }
    assert(text_args(texts(names@)).take(names@.len() as int) =~= text_args(texts(names@)));
}

/// Judges a program by whether it succeeded; where it did not, its error output is the reason.
pub fn tool_outcome(success: bool, stderr: String) -> (res: Result<(), ConvertError>)
    ensures
        res == if success {
            Ok::<(), ConvertError>(())
        } else {
            Err(ConvertError::ToolFailed(stderr))
        },
{
    if success {
        Ok(())
    } else {
        Err(ConvertError::ToolFailed(stderr))
    }
}

/// The extension of the list file, which takes the place of that of the video.
pub const LIST_EXT: &'static str = "_concat.txt";

/// The line of a list file that names one frame.
pub open spec fn list_line(path: Seq<char>) -> Seq<char> {
    "file '"@ + path + "'\n"@
}

/// The list file that names all frames in order.
pub open spec fn list_file(paths: Seq<String>) -> Seq<char>
    decreases paths.len(),
{
    if paths.len() == 0 {
        Seq::empty()
    } else {
        list_file(paths.drop_last()) + list_line(paths.last()@)
    }
}

/// The arguments that choose the codec of a video.
pub open spec fn codec_args(to_ext: Seq<char>) -> Seq<Seq<char>> {
    if to_ext == "webm"@ {
        seq!["-c:v"@, "libvpx-vp9"@, "-b:v"@, "0"@, "-crf"@, "30"@]
    } else if to_ext == "avi"@ {
        seq!["-c:v"@, "mpeg4"@]
    } else {
        seq!["-c:v"@, "libx264"@, "-pix_fmt"@, "yuv420p"@]
    }
}

/// A list file and the arguments with which `ffmpeg` makes a video of it. The list is its input.
#[derive(Debug)]
pub struct VideoJob {
    pub list: String,
    pub args: Vec<Arg>,
}

/// Plans how `ffmpeg` makes a video of the frames at the given paths.
pub fn frames_to_video(frames: &Vec<String>, to_ext: &str) -> (res: VideoJob)
    ensures
        res.list@ == list_file(frames@),
        arg_views(res.args@) == text_args(seq!["-y"@, "-f"@, "concat"@, "-safe"@, "0"@, "-i"@]) + seq![
            ArgView::Input,
        ] + text_args(codec_args(to_ext@)) + seq![ArgView::Output],
{
    let mut list = String::new();
    let mut i: usize = 0;
    assert(frames@.take(0) =~= Seq::<String>::empty());
    while i < frames.len()
        invariant
            i <= frames@.len(),
            list@ == list_file(frames@.take(i as int)),
        decreases frames@.len() - i,
    {
        let line = cat3("file '", frames[i].as_str(), "'\n");
        list.append(line.as_str());
        assert(frames@.take(i + 1).drop_last() =~= frames@.take(i as int));
        i += 1;
    }
    assert(frames@.take(frames@.len() as int) =~= frames@);

    let mut args: Vec<Arg> = Vec::new();
    let head = ["-y", "-f", "concat", "-safe", "0", "-i"];
    push_texts(&mut args, head.as_slice());
    assert(texts(head@) =~= seq!["-y"@, "-f"@, "concat"@, "-safe"@, "0"@, "-i"@]);
    assert(arg_views(args@) =~= text_args(seq!["-y"@, "-f"@, "concat"@, "-safe"@, "0"@, "-i"@]));
    let ghost a0 = args@;
    args.push(Arg::Input);
    assert(arg_views(args@) =~= arg_views(a0) + seq![ArgView::Input]);
    if text_eq(to_ext, "webm") {
        let codec = ["-c:v", "libvpx-vp9", "-b:v", "0", "-crf", "30"];
        push_texts(&mut args, codec.as_slice());
        assert(texts(codec@) =~= codec_args(to_ext@));
    } else if text_eq(to_ext, "avi") {
        let codec = ["-c:v", "mpeg4"];
        push_texts(&mut args, codec.as_slice());
        assert(texts(codec@) =~= codec_args(to_ext@));
    } else {
        let codec = ["-c:v", "libx264", "-pix_fmt", "yuv420p"];
        push_texts(&mut args, codec.as_slice());
        assert(texts(codec@) =~= codec_args(to_ext@));
    }
    let ghost a1 = args@;
    args.push(Arg::Output);
    assert(arg_views(args@) =~= arg_views(a1) + seq![ArgView::Output]);
    VideoJob { list, args }
}

// ---------------------------------------------------------------------------
// Frame extraction
// ---------------------------------------------------------------------------

/// Who takes the frames out of a file.
#[derive(Clone, Copy, Debug, PartialEq, Eq, Structural)]
pub enum FrameSource {
    /// The file is a GIF, which is decoded here.
    Gif,
    /// `ffmpeg` does it, once the file has been read.
    FfmpegAfterReading,
    /// `ffmpeg` does it.
    Ffmpeg,
}

/// Decides who takes the frames out of a file of extension `from_ext`.
pub fn extract_frames(from_ext: &str) -> (res: FrameSource)
    ensures
        res == if from_ext@ == "gif"@ {
            FrameSource::Gif
        } else if anim_exts().contains(from_ext@) {
            FrameSource::FfmpegAfterReading
        } else {
            FrameSource::Ffmpeg
        },
{
    if text_eq(from_ext, "gif") {
        FrameSource::Gif
    } else if is_anim(from_ext) {
        FrameSource::FfmpegAfterReading
    } else {
        FrameSource::Ffmpeg
    }
}

/// Takes the frames out of the bytes of a GIF.
pub fn extract_gif_frames(bytes: &[u8]) -> (res: Result<Vec<Raster>, ConvertError>)
    ensures
        match res {
            Ok(frames) => {
                &&& gif_decoded(bytes@) == Some(raster_views(frames@))
                &&& forall|i: int| 0 <= i < frames@.len() ==> (#[trigger] frames@[i])@.fits(4)
            },
            Err(e) => e is ImageError && gif_decoded(bytes@) is None,
        },
{
    frames_outcome(gif_frames(bytes))
}

/// Hands on the frames that the image library returned.
pub fn frames_outcome(res: Result<Vec<Raster>, image::ImageError>) -> (out: Result<
    Vec<Raster>,
    ConvertError,
>)
    ensures
        out == match res {
            Ok(frames) => Ok::<Vec<Raster>, ConvertError>(frames),
            Err(e) => Err(ConvertError::ImageError(e)),
        },
{
    match res {
        Ok(frames) => Ok(frames),
        Err(e) => Err(ConvertError::from(e)),
    }
}

/// The name of the file for the frame of a given number.
pub open spec fn frame_file(number: nat, ext: Seq<char>) -> Seq<char> {
    "frame_"@ + padded(number, 4) + "."@ + ext
}

/// The name of the file for the frame of a given number: `frame_`, the number with at least
/// four digits, and the extension.
pub fn frame_name(number: u64, ext: &str) -> (res: String)
    ensures
        res@ == frame_file(number as nat, ext@),
{
    let digits = padded_text(number, 4);
    let mut s = cat3("frame_", digits.as_str(), ".");
    s.append(ext);
    s
}

/// What is written to the file for a frame with alpha. For an extension without a format no file
/// is made.
pub fn encode_frame(frame: &Raster, ext: &str) -> (res: Result<Encoded, ConvertError>)
    requires
        frame@.fits(4),
    ensures
        match res {
            Ok(encoded) => known_format(ext@) && encoded@ == rgba_encoded(frame@, ext@),
            Err(e) => !known_format(ext@) && e is ImageError,
        },
{
    if has_format(ext) {
        Ok(write_rgba(frame, ext))
    } else {
        Err(ConvertError::from(unknown_extension(ext)))
    }
}

/// The arguments with which `ffmpeg` takes the frames out of its input.
pub fn extract_frames_ffmpeg(to_ext: &str) -> (res: Vec<Arg>)
    ensures
        arg_views(res@) == seq![
            ArgView::Text("-y"@),
            ArgView::Text("-i"@),
            ArgView::Input,
            ArgView::InDir("frame_%04d."@ + to_ext@),
        ],
{
    let mut args: Vec<Arg> = Vec::new();
    args.push(Arg::Text("-y".to_owned()));
    args.push(Arg::Text("-i".to_owned()));
    args.push(Arg::Input);
    let mut pattern = "frame_%04d.".to_owned();
    pattern.append(to_ext);
    args.push(Arg::InDir(pattern));
    assert(arg_views(args@) =~= seq![
        ArgView::Text("-y"@),
        ArgView::Text("-i"@),
        ArgView::Input,
        ArgView::InDir("frame_%04d."@ + to_ext@),
    ]);
    args
}

/// What is written to the file for a drawn page, of three bytes a pixel. No file is made where
/// there are too few bytes for the pixels, nor for an extension without a format.
pub fn pdf_to_frames(page: Raster, ext: &str) -> (res: Result<Encoded, ConvertError>)
    ensures
        match res {
            Ok(encoded) => page@.fits(3) && known_format(ext@) && encoded@ == rgb_encoded(
                page@,
                ext@,
            ),
            Err(ConvertError::UnsupportedPair) => !page@.fits(3),
            Err(e) => page@.fits(3) && !known_format(ext@) && e is ImageError,
        },
{
    let w: u128 = page.width as u128;
    let h: u128 = page.height as u128;
    assert(3 * w * h <= 3 * 0xffff_ffffu128 * 0xffff_ffffu128 && 3 * w <= 3 * 0xffff_ffffu128)
        by (nonlinear_arith)
        requires
            w <= 0xffff_ffffu128,
            h <= 0xffff_ffffu128,
    ;
    if 3 * w > usize::MAX as u128 || 3 * w * h > page.data.len() as u128 {
        return Err(ConvertError::UnsupportedPair);
    }
    if has_format(ext) {
        Ok(write_rgb(page, ext))
    } else {
        Err(ConvertError::from(unknown_extension(ext)))
    }
}

// ---------------------------------------------------------------------------
// Documents
// ---------------------------------------------------------------------------

/// The arguments with which the office program converts its input, and the name of the file
/// that it makes.
#[derive(Debug)]
pub struct OfficeJob {
    pub args: Vec<Arg>,
    pub output: String,
}

/// Plans how the office program converts a document. The file that it makes has the stem of the
/// document, or `output` where that is not Unicode.
pub fn soffice_convert(stem: Option<&str>, to_ext: &str) -> (res: OfficeJob)
    ensures
        arg_views(res.args@) == seq![
            ArgView::Text("--headless"@),
            ArgView::Text("--convert-to"@),
            ArgView::Text(to_ext@),
            ArgView::Text("--outdir"@),
            ArgView::Dir,
            ArgView::Input,
        ],
        res.output@ == (match stem {
            Some(s) => s@,
            None => "output"@,
        }) + "."@ + to_ext@,
{
    let mut args: Vec<Arg> = Vec::new();
    args.push(Arg::Text("--headless".to_owned()));
    args.push(Arg::Text("--convert-to".to_owned()));
    args.push(Arg::Text(to_ext.to_owned()));
    args.push(Arg::Text("--outdir".to_owned()));
    args.push(Arg::Dir);
    args.push(Arg::Input);
    assert(arg_views(args@) =~= seq![
        ArgView::Text("--headless"@),
        ArgView::Text("--convert-to"@),
        ArgView::Text(to_ext@),
        ArgView::Text("--outdir"@),
        ArgView::Dir,
        ArgView::Input,
    ]);
    let name = match stem {
        Some(s) => s,
        None => "output",
    };
    OfficeJob { args, output: cat3(name, ".", to_ext) }
}

} // verus!
