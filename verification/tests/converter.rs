use image::{DynamicImage, ImageFormat, Rgba, RgbaImage};
use powerext::converter::{
    animation_source, check_formats, convert, dispatch, encode_frame, extract_frames,
    extract_frames_ffmpeg, extract_gif_frames, frame_name, frames_to_animated, frames_to_video,
    animation_outcome, frames_outcome, pdf_to_frames, picture_outcome, soffice_convert,
    tool_outcome, AnimationSource, Arg, ConvertError, FrameSource, Route,
};
use powerext::pictures::{all_pixels, frame_pixels, Encoded, FrameFile, Raster};
use std::io::Cursor;

/// A picture of three by two pixels, which all differ.
fn picture(seed: u8) -> RgbaImage {
    RgbaImage::from_fn(3, 2, |x, y| Rgba([seed, (x * 80) as u8, (y * 200) as u8, 255]))
}

fn encoded(img: &RgbaImage, format: ImageFormat) -> Vec<u8> {
    let mut buf = Cursor::new(Vec::new());
    DynamicImage::ImageRgba8(img.clone()).write_to(&mut buf, format).unwrap();
    buf.into_inner()
}

fn png(seed: u8) -> Vec<u8> {
    encoded(&picture(seed), ImageFormat::Png)
}

fn frame(ext: Option<&str>, bytes: Vec<u8>) -> FrameFile {
    FrameFile { ext: ext.map(|e| e.to_string()), bytes }
}

fn args(list: &[Arg]) -> Vec<String> {
    list.iter().map(|a| match a {
        Arg::Text(s) => s.clone(),
        Arg::Input => "<input>".to_string(),
        Arg::Output => "<output>".to_string(),
        Arg::Dir => "<dir>".to_string(),
        Arg::InDir(s) => format!("<dir>/{s}"),
    }).collect()
}

fn route(f: &str, t: &str) -> Option<Route> {
    match dispatch(f, t) {
        Ok(c) => {
            assert_eq!(c.from_ext, f.to_ascii_lowercase());
            assert_eq!(c.to_ext, t.to_ascii_lowercase());
            Some(c.route)
        }
        Err(ConvertError::UnsupportedPair) => None,
        Err(e) => panic!("{e:?}"),
    }
}

#[test]
fn conversions_are_routed() {
    assert_eq!(route("png", "jpg"), Some(Route::Picture));
    assert_eq!(route("png", "gif"), Some(Route::Picture));
    assert_eq!(route("QOI", "WebP"), Some(Route::Picture));
    assert_eq!(route("gif", "png"), Some(Route::AnimationFrames));
    assert_eq!(route("webp", "tif"), Some(Route::AnimationFrames));
    assert_eq!(route("MP4", "png"), Some(Route::VideoFrames));
    assert_eq!(route("flv", "ico"), Some(Route::VideoFrames));
    assert_eq!(route("pdf", "png"), Some(Route::PdfFrames));
    assert_eq!(route("pdf", "docx"), Some(Route::Office));
    assert_eq!(route("docx", "pdf"), Some(Route::Office));
    assert_eq!(route("md", "md"), Some(Route::Office));
}

#[test]
fn other_pairs_are_not_supported() {
    for (f, t) in [
        ("png", "mp4"), ("gif", "webp"), ("gif", "gif"), ("mp4", "webm"), ("mp4", "gif"),
        ("docx", "png"), ("png", "pdf"), ("pdf", "gif"), ("", ""), ("png", ""), ("exe", "png"),
        ("png", "avif"), ("tga", "png"),
    ] {
        assert_eq!(route(f, t), None, "{f} {t}");
    }
}

#[test]
fn routed_formats_are_known() {
    let all = ["png", "jpg", "jpeg", "bmp", "tiff", "tif", "ico", "qoi", "gif", "webp"];
    for f in all {
        for t in all {
            assert!(check_formats(f, t).is_ok());
        }
    }
}

#[test]
fn formats_are_known_by_extension() {
    for ext in [
        "avif", "jpg", "jpeg", "jfif", "png", "apng", "gif", "webp", "tif", "tiff", "tga", "dds",
        "bmp", "ico", "hdr", "exr", "pbm", "pam", "ppm", "pgm", "pnm", "ff", "qoi", "PNG", "JpEg",
    ] {
        assert!(check_formats(ext, "png").is_ok(), "{ext}");
        assert!(check_formats("png", ext).is_ok(), "{ext}");
    }
    for ext in ["", "xyz", "mp4", "pngx", ".png", "svg", "pdf", "heic", "pcx", "jxl", "PNG "] {
        assert!(matches!(check_formats(ext, "png"), Err(ConvertError::UnsupportedPair)), "{ext}");
        assert!(matches!(check_formats("png", ext), Err(ConvertError::UnsupportedPair)), "{ext}");
    }
}

#[test]
fn a_picture_is_converted() {
    let bytes = convert(&png(9), "png", "bmp").unwrap();
    assert_eq!(&bytes[..2], b"BM");
    let back = image::load_from_memory_with_format(&bytes, ImageFormat::Bmp).unwrap();
    assert_eq!(back.into_rgba8(), picture(9));
    let qoi = convert(&bytes, "bmp", "qoi").unwrap();
    assert_eq!(&qoi[..4], b"qoif");
    let again = convert(&qoi, "qoi", "png").unwrap();
    assert_eq!(image::load_from_memory(&again).unwrap().into_rgba8(), picture(9));
}

#[test]
fn a_picture_of_an_unknown_format_is_not_converted() {
    assert!(matches!(convert(&png(1), "xyz", "png"), Err(ConvertError::UnsupportedPair)));
    assert!(matches!(convert(&png(1), "png", "xyz"), Err(ConvertError::UnsupportedPair)));
}

#[test]
fn a_broken_picture_is_not_converted() {
    assert!(matches!(convert(b"no picture", "png", "bmp"), Err(ConvertError::ImageError(_))));
    // the bytes count, not what they were made for
    assert!(matches!(convert(&png(1), "bmp", "png"), Err(ConvertError::ImageError(_))));
    // a picture too large for its new format
    let wide = encoded(&RgbaImage::new(300, 1), ImageFormat::Png);
    assert!(matches!(convert(&wide, "png", "ico"), Err(ConvertError::ImageError(_))));
}

#[test]
fn a_known_format_without_a_codec_is_an_image_error() {
    for ext in ["exr", "hdr", "avif", "tga", "pnm"] {
        assert!(matches!(convert(&png(1), "png", ext), Err(ConvertError::ImageError(_))), "{ext}");
        assert!(matches!(convert(&png(1), ext, "png"), Err(ConvertError::ImageError(_))), "{ext}");
    }
}

#[test]
fn an_animation_is_reported_on() {
    let error = || image::ImageError::IoError(std::io::Error::other("disk"));
    let whole = animation_outcome(Encoded { bytes: vec![1], error: None }, None);
    assert!(whole.result.is_ok());
    assert_eq!(whole.written, Some(vec![1]));
    for (e, stop) in [(Some(error()), None), (None, Some(error()))] {
        let part = animation_outcome(Encoded { bytes: vec![2], error: e }, stop);
        assert!(matches!(
            part.result,
            Err(ConvertError::ImageError(image::ImageError::IoError(_))),
        ));
        assert_eq!(part.written, Some(vec![2]));
    }
}

#[test]
fn outcomes_of_the_image_library_are_handed_on() {
    assert_eq!(frames_outcome(Ok(vec![])).unwrap().len(), 0);
    let e = image::ImageError::IoError(std::io::Error::other("disk"));
    assert!(matches!(
        frames_outcome(Err(e)),
        Err(ConvertError::ImageError(image::ImageError::IoError(_))),
    ));
    assert_eq!(picture_outcome(Ok(vec![1, 2])).unwrap(), vec![1, 2]);
    let e = image::ImageError::IoError(std::io::Error::other("disk"));
    assert!(matches!(
        picture_outcome(Err(e)),
        Err(ConvertError::ImageError(image::ImageError::IoError(_))),
    ));
}

#[test]
fn errors_are_converted() {
    let io = ConvertError::from(std::io::Error::other("disk"));
    assert!(matches!(io, ConvertError::IoError(_)));
    let img = ConvertError::from(image::ImageError::IoError(std::io::Error::other("disk")));
    assert!(matches!(img, ConvertError::ImageError(_)));
}

#[test]
fn a_frame_is_decoded_by_its_extension() {
    let r = frame_pixels(&frame(Some("PNG"), png(5))).unwrap();
    assert_eq!((r.width, r.height), (3, 2));
    assert_eq!(r.data, picture(5).into_raw());
    assert!(frame_pixels(&frame(Some("bmp"), png(5))).is_err());
    assert!(frame_pixels(&frame(Some("xyz"), png(5))).is_err());
    assert!(frame_pixels(&frame(None, png(5))).is_err());
}

#[test]
fn frames_become_a_gif_and_come_back() {
    let files = vec![
        frame(Some("png"), png(10)),
        frame(Some("bmp"), encoded(&picture(250), ImageFormat::Bmp)),
        frame(Some("png"), png(120)),
    ];
    let made = frames_to_animated(&files, "gif");
    assert!(made.result.is_ok());
    let gif = made.written.unwrap();
    assert_eq!(&gif[..6], b"GIF89a");
    assert_eq!(gif.last(), Some(&0x3b));
    let frames = extract_gif_frames(&gif).unwrap();
    assert_eq!(frames.len(), 3);
    for (r, seed) in frames.iter().zip([10u8, 250, 120]) {
        assert_eq!((r.width, r.height), (3, 2));
        assert_eq!(r.data, picture(seed).into_raw());
    }
}

#[test]
fn a_frame_that_cannot_be_decoded_spoils_the_gif() {
    for bad in [frame(Some("png"), vec![1, 2, 3]), frame(None, png(1)), frame(Some("xyz"), png(1))] {
        let files = vec![frame(Some("png"), png(1)), bad, frame(Some("png"), png(2))];
        let made = frames_to_animated(&files, "gif");
        assert!(matches!(made.result, Err(ConvertError::ImageError(_))));
        // the frames before it are there all the same
        let first = vec![frame(Some("png"), png(1))];
        assert_eq!(made.written, frames_to_animated(&first, "gif").written);
        let (pixels, stop) = all_pixels(&files);
        assert_eq!(pixels.len(), 1);
        assert!(stop.is_some());
    }
}

#[test]
fn only_the_first_frame_becomes_a_webp() {
    let files = vec![frame(Some("png"), png(10)), frame(Some("png"), vec![])];
    let made = frames_to_animated(&files, "webp");
    assert!(made.result.is_ok());
    let webp = made.written.unwrap();
    assert_eq!(&webp[8..12], b"WEBP");
    assert_eq!(image::load_from_memory(&webp).unwrap().into_rgba8(), picture(10));
    // without an extension the first frame is taken for a PNG
    assert!(frames_to_animated(&vec![frame(None, png(3))], "webp").result.is_ok());
    let odd = frames_to_animated(&vec![frame(Some("xyz"), png(3))], "webp");
    assert!(matches!(odd.result, Err(ConvertError::UnsupportedPair)));
    assert_eq!(odd.written, None);
    let broken = frames_to_animated(&vec![frame(Some("png"), vec![])], "webp");
    assert!(matches!(broken.result, Err(ConvertError::ImageError(_))));
    assert_eq!(broken.written, None);
}

#[test]
fn other_animations_are_not_supported() {
    let files = vec![frame(Some("png"), png(1))];
    for ext in ["apng", "GIF", "WEBP", "png", "mp4", ""] {
        let made = frames_to_animated(&files, ext);
        assert!(matches!(made.result, Err(ConvertError::UnsupportedPair)));
        assert_eq!(made.written, None);
        assert!(matches!(animation_source(&None, ext), Err(ConvertError::UnsupportedPair)));
    }
}

#[test]
fn an_animation_needs_all_or_the_first_of_its_frames() {
    let odd = Some("xyz".to_string());
    assert_eq!(animation_source(&odd, "gif").unwrap(), AnimationSource::AllFrames);
    assert_eq!(animation_source(&None, "webp").unwrap(), AnimationSource::FirstFrame);
    assert!(matches!(animation_source(&odd, "webp"), Err(ConvertError::UnsupportedPair)));
}

#[test]
fn a_gif_that_is_none_has_no_frames() {
    assert!(matches!(extract_gif_frames(&png(1)), Err(ConvertError::ImageError(_))));
    assert!(matches!(extract_gif_frames(b""), Err(ConvertError::ImageError(_))));
}

#[test]
fn videos_are_made_by_ffmpeg() {
    let frames = vec!["/d/s.1.mp4".to_string(), "/d/s.2.mp4".to_string()];
    let job = frames_to_video(&frames, "mp4");
    assert_eq!(job.list, "file '/d/s.1.mp4'\nfile '/d/s.2.mp4'\n");
    assert_eq!(args(&job.args), vec![
        "-y", "-f", "concat", "-safe", "0", "-i", "<input>", "-c:v", "libx264", "-pix_fmt",
        "yuv420p", "<output>",
    ]);
    assert_eq!(args(&frames_to_video(&frames, "webm").args)[7..], [
        "-c:v", "libvpx-vp9", "-b:v", "0", "-crf", "30", "<output>",
    ]);
    assert_eq!(args(&frames_to_video(&frames, "avi").args)[7..], ["-c:v", "mpeg4", "<output>"]);
    assert_eq!(args(&frames_to_video(&frames, "WEBM").args)[8], "libx264");
    assert_eq!(frames_to_video(&vec![], "mp4").list, "");
}

#[test]
fn frames_are_taken_out_of_files() {
    assert_eq!(extract_frames("gif"), FrameSource::Gif);
    assert_eq!(extract_frames("webp"), FrameSource::FfmpegAfterReading);
    assert_eq!(extract_frames("mp4"), FrameSource::Ffmpeg);
    assert_eq!(extract_frames("GIF"), FrameSource::Ffmpeg);
    assert_eq!(
        args(&extract_frames_ffmpeg("png")),
        vec!["-y", "-i", "<input>", "<dir>/frame_%04d.png"],
    );
}

#[test]
fn frames_are_named_by_their_numbers() {
    assert_eq!(frame_name(1, "png"), "frame_0001.png");
    assert_eq!(frame_name(9999, "jpg"), "frame_9999.jpg");
    assert_eq!(frame_name(10000, "jpg"), "frame_10000.jpg");
    assert_ne!(frame_name(1, "png"), frame_name(10, "png"));
}

#[test]
fn a_frame_is_encoded() {
    let r = Raster { width: 3, height: 2, data: picture(77).into_raw() };
    let encoded = encode_frame(&r, "png").unwrap();
    assert!(encoded.error.is_none());
    assert_eq!(image::load_from_memory(&encoded.bytes).unwrap().into_rgba8(), picture(77));
    match encode_frame(&r, "xyz") {
        Err(ConvertError::ImageError(e)) => assert!(e.to_string().contains("xyz"), "{e}"),
        other => panic!("{other:?}"),
    }
    // a format that takes no pixels with alpha: the file is left empty
    let none = encode_frame(&r, "jpg").unwrap();
    assert!(none.error.is_some());
    assert!(none.bytes.is_empty());
}

#[test]
fn a_page_is_encoded() {
    let page = |n: usize| Raster { width: 2, height: 2, data: (0..n).map(|i| i as u8 * 20).collect() };
    let encoded = pdf_to_frames(page(12), "png").unwrap();
    assert!(encoded.error.is_none());
    let back = image::load_from_memory(&encoded.bytes).unwrap().into_rgb8();
    assert_eq!(back.dimensions(), (2, 2));
    assert_eq!(back.into_raw(), page(12).data);
    assert!(pdf_to_frames(page(13), "png").is_ok());
    assert!(matches!(pdf_to_frames(page(11), "png"), Err(ConvertError::UnsupportedPair)));
    assert!(matches!(pdf_to_frames(page(12), "xyz"), Err(ConvertError::ImageError(_))));
    let huge = Raster { width: u32::MAX, height: u32::MAX, data: vec![] };
    assert!(matches!(pdf_to_frames(huge, "png"), Err(ConvertError::UnsupportedPair)));
}

#[test]
fn documents_are_converted_by_the_office_program() {
    let job = soffice_convert(Some("letter"), "pdf");
    assert_eq!(args(&job.args), vec![
        "--headless", "--convert-to", "pdf", "--outdir", "<dir>", "<input>",
    ]);
    assert_eq!(job.output, "letter.pdf");
    assert_eq!(soffice_convert(None, "odt").output, "output.odt");
}

#[test]
fn a_program_is_judged_by_its_status() {
    assert!(tool_outcome(true, "warning".to_string()).is_ok());
    match tool_outcome(false, "no such codec".to_string()) {
        Err(ConvertError::ToolFailed(s)) => assert_eq!(s, "no such codec"),
        other => panic!("{other:?}"),
    }
}

#[test]
fn a_picture_without_pixels_is_handled() {
    for (width, height) in [(0, 0), (0, 5), (5, 0), (u32::MAX, 0), (0, 70_000)] {
        for ext in ["ico", "jpg", "png", "webp"] {
            assert!(encode_frame(&Raster { width, height, data: vec![] }, ext).unwrap().error.is_some());
            assert!(pdf_to_frames(Raster { width, height, data: vec![] }, ext).unwrap().error.is_some());
        }
        for ext in ["bmp", "gif", "qoi", "tiff"] {
            assert!(encode_frame(&Raster { width, height, data: vec![] }, ext).is_ok());
            assert!(pdf_to_frames(Raster { width, height, data: vec![] }, ext).is_ok());
        }
    }
}
