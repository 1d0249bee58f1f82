//! Pictures: what the `image` library does for the converter.
//!
//! The functions that call the library are trusted; each says what it takes for granted. A
//! picture format is known by a file extension. The library is built with the codecs of the
//! formats that [`crate::converter::dispatch`] routes: BMP, GIF, ICO, JPEG, PNG, QOI, TIFF and
//! WebP. Pictures of the other formats that it knows are neither decoded nor encoded. The memory
//! that the pictures take is presumed to be there, as it is for any vector.

use crate::text::lowered;
use std::io::Cursor;
use vstd::prelude::*;
use vstd::string::*;

verus! {

/// The bytes that [`reencode`] makes of the bytes of a file; `None` where it fails.
pub uninterp spec fn converted(bytes: Seq<u8>, from_ext: Seq<char>, to_ext: Seq<char>) -> Option<
    Seq<u8>,
>;

/// The pixels that [`load_rgba`] finds in the bytes of a file; `None` where it fails.
pub uninterp spec fn rgba_decoded(bytes: Seq<u8>, ext: Seq<char>) -> Option<RasterView>;

/// The frames that [`gif_frames`] finds in the bytes of a file; `None` where it fails.
pub uninterp spec fn gif_decoded(bytes: Seq<u8>) -> Option<Seq<RasterView>>;

/// What [`gif_animation`] makes of a sequence of frames.
pub uninterp spec fn gif_encoded(frames: Seq<RasterView>) -> EncodedView;

/// What [`write_rgba`] makes of pixels with alpha.
pub uninterp spec fn rgba_encoded(img: RasterView, ext: Seq<char>) -> EncodedView;

/// What [`write_rgb`] makes of pixels without alpha.
pub uninterp spec fn rgb_encoded(img: RasterView, ext: Seq<char>) -> EncodedView;

/// Pixels in rows from the top, each as a fixed number of bytes.
#[derive(Debug)]
pub struct Raster {
    pub width: u32,
    pub height: u32,
    pub data: Vec<u8>,
}

/// The contents of a [`Raster`].
pub struct RasterView {
    pub width: u32,
    pub height: u32,
    pub data: Seq<u8>,
}

impl View for Raster {
    type V = RasterView;

    open spec fn view(&self) -> RasterView {
        RasterView { width: self.width, height: self.height, data: self.data@ }
    }
}

impl RasterView {
    /// How many bytes the pixels take, of `channels` bytes each.
    pub open spec fn size(self, channels: nat) -> nat {
        channels * (self.width as nat) * (self.height as nat)
    }

    /// Whether there are enough bytes for the pixels, of `channels` bytes each, and a row of them
    /// can be counted. The latter could fail only where there are no rows.
    pub open spec fn fits(self, channels: nat) -> bool {
        channels * (self.width as nat) <= usize::MAX && self.size(channels) <= self.data.len()
    }

    /// Whether there are just as many bytes as the pixels take, of `channels` bytes each.
    pub open spec fn is_exact(self, channels: nat) -> bool {
        self.fits(channels) && self.size(channels) == self.data.len()
    }
}

/// The contents of a list of rasters.
pub open spec fn raster_views(list: Seq<Raster>) -> Seq<RasterView> {
    list.map_values(|r: Raster| r@)
}

/// What was written when something was encoded, and the error where that was not all of it.
#[derive(Debug)]
pub struct Encoded {
    pub bytes: Vec<u8>,
    pub error: Option<image::ImageError>,
}

/// The contents of an [`Encoded`], without what the error holds.
pub struct EncodedView {
    pub bytes: Seq<u8>,
    /// Whether it is all there.
    pub whole: bool,
}

impl View for Encoded {
    type V = EncodedView;

    open spec fn view(&self) -> EncodedView {
        EncodedView { bytes: self.bytes@, whole: self.error is None }
    }
}

/// The extensions for which there is a picture format.
pub open spec fn format_exts() -> Seq<Seq<char>> {
    seq![
        "avif"@, "jpg"@, "jpeg"@, "jfif"@, "png"@, "apng"@, "gif"@, "webp"@, "tif"@, "tiff"@,
        "tga"@, "dds"@, "bmp"@, "ico"@, "hdr"@, "exr"@, "pbm"@, "pam"@, "ppm"@, "pgm"@, "pnm"@,
        "ff"@, "qoi"@
    ]
}

/// Whether there is a picture format for an extension, in whatever case it is written.
pub open spec fn known_format(ext: Seq<char>) -> bool {
    format_exts().contains(lowered(ext))
}

/// `image::ImageFormat::from_extension`: finds the format of an extension. It has one for the
/// extensions of [`format_exts`] and for no others, whatever their case.
#[verifier::external_body]
pub(crate) fn has_format(ext: &str) -> (res: bool)
    ensures
        res == known_format(ext@),
{
    image::ImageFormat::from_extension(ext).is_some()
}

/// `image::load` and `image::DynamicImage::write_to`: decodes the bytes of a file as a picture of
/// the format of `from_ext`, and encodes it in the format of `to_ext`. The result depends on the
/// bytes and the two formats alone.
#[verifier::external_body]
pub(crate) fn reencode(bytes: &[u8], from_ext: &str, to_ext: &str) -> (res: Result<
    Vec<u8>,
    image::ImageError,
>)
    requires
        known_format(from_ext@),
        known_format(to_ext@),
    ensures
        converted(bytes@, from_ext@, to_ext@) == match res {
            Ok(out) => Some(out@),
            Err(_) => None,
        },
{
    let from = image::ImageFormat::from_extension(from_ext).unwrap();
    let to = image::ImageFormat::from_extension(to_ext).unwrap();
    let mut buf = Cursor::new(Vec::new());
    image::load(Cursor::new(bytes), from)?.write_to(&mut buf, to)?;
    Ok(buf.into_inner())
}

/// `image::load` and `image::DynamicImage::into_rgba8`: decodes the bytes of a file as a picture
/// of the format of `ext`, into pixels of four bytes each. The result depends on the bytes and the
/// format alone, and has just the bytes that its pixels take.
#[verifier::external_body]
fn load_rgba(bytes: &[u8], ext: &str) -> (res: Result<Raster, image::ImageError>)
    requires
        known_format(ext@),
    ensures
        rgba_decoded(bytes@, ext@) == match res {
            Ok(r) => Some(r@),
            Err(_) => None,
        },
        res matches Ok(r) ==> r@.is_exact(4),
{
    let format = image::ImageFormat::from_extension(ext).unwrap();
    let rgba = image::load(Cursor::new(bytes), format)?.into_rgba8();
    Ok(Raster { width: rgba.width(), height: rgba.height(), data: rgba.into_raw() })
}

/// `image::ImageError::Unsupported`: the error for an extension without a picture format.
/// Nothing is claimed of what it holds.
#[verifier::external_body]
pub(crate) fn unknown_extension(ext: &str) -> image::ImageError {
    image::ImageError::Unsupported(
        image::error::ImageFormatHint::PathExtension(ext.into()).into(),
    )
}

/// `image::ImageError::Unsupported`: the error for a file without an extension. Nothing is
/// claimed of what it holds.
#[verifier::external_body]
fn no_extension() -> image::ImageError {
    image::ImageError::Unsupported(image::error::ImageFormatHint::Unknown.into())
}

/// `image::ImageError::IoError`: what the image library makes of a failure to read or write a
/// file. Nothing is claimed of what the error holds.
#[verifier::external_body]
pub(crate) fn file_error(e: std::io::Error) -> image::ImageError {
    image::ImageError::IoError(e)
}

/// `image::codecs::gif::GifDecoder`, with its frames collected: the frames of an animation, four
/// bytes a pixel, each with at least the bytes that its pixels take. The result depends on the
/// bytes of the file alone.
#[verifier::external_body]
pub(crate) fn gif_frames(bytes: &[u8]) -> (res: Result<Vec<Raster>, image::ImageError>)
    ensures
        gif_decoded(bytes@) == match res {
            Ok(frames) => Some(raster_views(frames@)),
            Err(_) => None,
        },
        res matches Ok(frames) ==> forall|i: int|
            0 <= i < frames@.len() ==> (#[trigger] frames@[i])@.fits(4),
{
    let decoder = image::codecs::gif::GifDecoder::new(Cursor::new(bytes))?;
    let frames = image::AnimationDecoder::into_frames(decoder).collect_frames()?;
    Ok(frames.into_iter().map(|frame| {
        let rgba = frame.into_buffer();
        Raster { width: rgba.width(), height: rgba.height(), data: rgba.into_raw() }
    }).collect())
}

/// The bytes of a picture file with its extension; `None` where it has none that is Unicode.
#[derive(Debug)]
pub struct FrameFile {
    pub ext: Option<String>,
    pub bytes: Vec<u8>,
}

/// What [`frame_pixels`] makes of a file; `None` where it fails.
pub open spec fn frame_decoded(f: FrameFile) -> Option<RasterView> {
    match f.ext {
        Some(ext) => if known_format(ext@) {
            rgba_decoded(f.bytes@, ext@)
        } else {
            None
        },
        None => None,
    }
}

/// What [`frame_pixels`] makes of the files, up to the first for which it fails.
pub open spec fn frames_decoded(files: Seq<FrameFile>) -> Seq<RasterView>
    decreases files.len(),
{
    if files.len() == 0 {
        Seq::empty()
    } else {
        let before = frames_decoded(files.drop_last());
        match frame_decoded(files.last()) {
            Some(r) if before.len() == files.len() - 1 => before.push(r),
            _ => before,
        }
    }
}

/// Decodes a picture file by its extension.
pub fn frame_pixels(f: &FrameFile) -> (res: Result<Raster, image::ImageError>)
    ensures
        frame_decoded(*f) == match res {
            Ok(r) => Some(r@),
            Err(_) => None,
        },
        res matches Ok(r) ==> r@.is_exact(4),
{
    match &f.ext {
        Some(ext) => {
            if has_format(ext.as_str()) {
                load_rgba(f.bytes.as_slice(), ext.as_str())
            } else if ext.as_str().unicode_len() == 0 {
                Err(no_extension())
            } else {
                Err(unknown_extension(ext.as_str()))
            }
        },
        None => Err(no_extension()),
    }
}

/// Whether all of the pictures have just the bytes that their pixels take, four each.
pub open spec fn all_exact(frames: Seq<Raster>) -> bool {
    forall|i: int| 0 <= i < frames.len() ==> (#[trigger] frames[i])@.is_exact(4)
}

proof fn lemma_stopped(files: Seq<FrameFile>, k: int)
    requires
        0 <= k < files.len(),
        frames_decoded(files.take(k)).len() == k,
        frame_decoded(files[k]) is None,
    ensures
        frames_decoded(files) == frames_decoded(files.take(k)),
    decreases files.len(),
{
    if files.len() == k + 1 {
        assert(files.drop_last() =~= files.take(k));
    } else {
        let before = files.drop_last();
        assert(before.take(k) =~= files.take(k));
        lemma_stopped(before, k);
    }
}

/// Decodes picture files by their extensions, one after the other, up to the first that fails.
pub fn all_pixels(files: &Vec<FrameFile>) -> (res: (Vec<Raster>, Option<image::ImageError>))
    ensures
        raster_views(res.0@) == frames_decoded(files@),
        res.0@.len() <= files@.len(),
        res.1 is None <==> res.0@.len() == files@.len(),
        all_exact(res.0@),
{
    let mut frames: Vec<Raster> = Vec::new();
    let mut i: usize = 0;
    assert(files@.take(0) =~= Seq::<FrameFile>::empty());
    assert(raster_views(frames@) =~= frames_decoded(files@.take(0)));
    while i < files.len()
        invariant
            i <= files@.len(),
            frames@.len() == i,
            raster_views(frames@) == frames_decoded(files@.take(i as int)),
            all_exact(frames@),
        decreases files@.len() - i,
    {
        let ghost before = frames@;
        match frame_pixels(&files[i]) {
            Ok(r) => {
                frames.push(r);
                assert(files@.take(i + 1).drop_last() =~= files@.take(i as int));
                assert(raster_views(frames@) =~= raster_views(before).push(r@));
            },
            Err(e) => {
                proof {
                    lemma_stopped(files@, i as int);
                }
                return (frames, Some(e));
            },
        }
        i += 1;
    }
    assert(files@.take(files@.len() as int) =~= files@);
    (frames, None)
}

/// `image::codecs::gif::GifEncoder::encode_frames`: encodes frames of four bytes a pixel one
/// after the other as an animation, up to the first that fails. What is written depends on the
/// frames alone, and so does whether that is all of it.
#[verifier::external_body]
pub(crate) fn gif_animation(frames: Vec<Raster>) -> (res: Encoded)
    requires
        all_exact(frames@),
    ensures
        res@ == gif_encoded(raster_views(frames@)),
{
    let mut bytes = Vec::new();
    let res = image::codecs::gif::GifEncoder::new(&mut bytes).encode_frames(
        frames.into_iter().map(|r| {
            image::Frame::new(image::RgbaImage::from_raw(r.width, r.height, r.data).unwrap())
        }),
    );
    Encoded { bytes, error: res.err() }
}

/// `image::RgbaImage::write_to`: encodes pixels of four bytes in the format of `ext`. What is
/// written depends on the pixels and the format alone, and so does whether that is all of it.
#[verifier::external_body]
pub(crate) fn write_rgba(img: &Raster, ext: &str) -> (res: Encoded)
    requires
        known_format(ext@),
        img@.fits(4),
    ensures
        res@ == rgba_encoded(img@, ext@),
{
    let rgba = image::RgbaImage::from_raw(img.width, img.height, img.data.clone()).unwrap();
    let mut buf = Cursor::new(Vec::new());
    let res = rgba.write_to(&mut buf, image::ImageFormat::from_extension(ext).unwrap());
    Encoded { bytes: buf.into_inner(), error: res.err() }
}

/// `image::RgbImage::write_to`: encodes pixels of three bytes in the format of `ext`. What is
/// written depends on the pixels and the format alone, and so does whether that is all of it.
#[verifier::external_body]
pub(crate) fn write_rgb(img: Raster, ext: &str) -> (res: Encoded)
    requires
        known_format(ext@),
        img@.fits(3),
    ensures
        res@ == rgb_encoded(img@, ext@),
{
    let rgb = image::RgbImage::from_raw(img.width, img.height, img.data).unwrap();
    let mut buf = Cursor::new(Vec::new());
    let res = rgb.write_to(&mut buf, image::ImageFormat::from_extension(ext).unwrap());
    Encoded { bytes: buf.into_inner(), error: res.err() }
}

/// A list of pictures stands for as many, in the same order, each of the same size and with the same
/// bytes.
pub proof fn law_the_contents_of_pictures(list: Seq<Raster>, i: int)
    requires
        0 <= i < list.len(),
    ensures
        raster_views(list).len() == list.len(),
        raster_views(list)[i].width == list[i].width,
        raster_views(list)[i].height == list[i].height,
        raster_views(list)[i].data == list[i].data@,
{
}

/// What was encoded stands for all the bytes that were written, and is whole just where there was no
/// error.
pub proof fn law_the_contents_of_what_was_encoded(e: Encoded)
    ensures
        e@.bytes == e.bytes@,
        e@.whole <==> e.error is None,
{
}

/// The bytes suffice for a picture just where there are as many as its pixels take, row by row.
pub proof fn law_when_bytes_suffice(r: RasterView, channels: nat)
    requires
        channels * r.width <= usize::MAX,
    ensures
        r.fits(channels) <==> channels * r.width * r.height <= r.data.len(),
        r.is_exact(channels) <==> channels * r.width * r.height == r.data.len(),
{
}

} // verus!
