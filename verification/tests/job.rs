use image::{DynamicImage, ImageFormat, Rgba, RgbaImage};
use powerext::converter::{frames_to_animated, Animation, Arg, ConvertError};
use powerext::job::{start_job, Job, JobAction, JobEvent, JobOutput};
use powerext::merge_job::{
    start_animation, start_video, MergeJob, MergeJobAction, MergeJobEvent,
};
use powerext::pictures::{Encoded, FrameFile, Raster};
use std::io::{Cursor, Error};

fn png(seed: u8) -> Vec<u8> {
    let img = RgbaImage::from_fn(3, 2, |x, _| Rgba([seed, x as u8, 0, 255]));
    let mut buf = Cursor::new(Vec::new());
    DynamicImage::ImageRgba8(img).write_to(&mut buf, ImageFormat::Png).unwrap();
    buf.into_inner()
}

fn gif(seeds: &[u8]) -> Vec<u8> {
    let files = seeds.iter()
        .map(|s| FrameFile { ext: Some("png".to_string()), bytes: png(*s) })
        .collect();
    frames_to_animated(&files, "gif").written.unwrap()
}

fn args(list: &[Arg]) -> Vec<String> {
    list.iter().map(|a| match a {
        Arg::Text(s) => s.clone(),
        Arg::Input => "<input>".to_string(),
        Arg::Output => "<output>".to_string(),
        Arg::Dir => "<dir>".to_string(),
        Arg::InDir(s) => format!("<dir>/{s}"),
    }).collect()
}

/// A thing to do, on one line.
fn show(a: &JobAction) -> String {
    match a {
        JobAction::Read => "read".to_string(),
        JobAction::CreateDir => "mkdir".to_string(),
        JobAction::FindTool { tool } => format!("find {tool}"),
        JobAction::RunTool { args: list } => format!("run {}", args(list).join(" ")),
        JobAction::Save { name, .. } => format!("save {name}"),
        JobAction::OpenPdf => "open".to_string(),
        JobAction::DrawPage { page } => format!("draw {page}"),
        JobAction::Finish { result } => format!("finish {}", match result {
            Ok(JobOutput::SingleFile(_)) => "file".to_string(),
            Ok(JobOutput::FrameDir) => "frames".to_string(),
            Ok(JobOutput::ExternalFile(name)) => name.clone(),
            Err(e) => error(e),
        }),
    }
}

fn error(e: &ConvertError) -> String {
    match e {
        ConvertError::UnsupportedPair => "unsupported".to_string(),
        ConvertError::ImageError(_) => "image error".to_string(),
        ConvertError::ToolNotFound(t) => format!("no {t}"),
        ConvertError::ToolFailed(s) => format!("failed: {s}"),
        ConvertError::IoError(e) => format!("io error: {e}"),
    }
}

/// Runs a job with the given events, and gives its things to do.
fn run(f: &str, t: &str, events: Vec<JobEvent>) -> Vec<String> {
    let start: (Job, JobAction) = start_job(f, t, Some("a".to_string()));
    let (mut job, action) = start;
    let mut res = vec![show(&action)];
    for e in events {
        let (next, action) = job.step(e);
        job = next;
        res.push(show(&action));
    }
    res
}

fn failed() -> JobEvent {
    JobEvent::Failed(Error::other("disk"))
}

fn ran(success: bool) -> JobEvent {
    JobEvent::Ran { success, stderr: "reason".to_string() }
}

fn found(found: bool) -> JobEvent {
    JobEvent::Tool { found }
}

fn page(n: usize) -> JobEvent {
    JobEvent::Page(Raster { width: 2, height: 1, data: vec![7; n] })
}

#[test]
fn a_picture_is_read_and_converted() {
    let (job, action) = start_job("PNG", "bmp", None);
    assert!(matches!(action, JobAction::Read));
    match job.step(JobEvent::Bytes(png(1))).1 {
        JobAction::Finish { result: Ok(JobOutput::SingleFile(bytes)) } => {
            assert_eq!(&bytes[..2], b"BM");
        }
        other => panic!("{}", show(&other)),
    }
    assert_eq!(run("png", "bmp", vec![failed()]), vec!["read", "finish io error: disk"]);
    assert_eq!(
        run("png", "bmp", vec![JobEvent::Bytes(vec![1])]),
        vec!["read", "finish image error"],
    );
}

#[test]
fn an_unsupported_pair_is_not_started() {
    assert_eq!(run("png", "mp4", vec![]), vec!["finish unsupported"]);
}

#[test]
fn the_frames_of_a_gif_are_saved_one_by_one() {
    let events = vec![
        JobEvent::Done, JobEvent::Bytes(gif(&[1, 2, 3])), JobEvent::Done, JobEvent::Done,
        JobEvent::Done,
    ];
    assert_eq!(run("gif", "PNG", events), vec![
        "mkdir", "read", "save frame_0001.png", "save frame_0002.png", "save frame_0003.png",
        "finish frames",
    ]);
}

#[test]
fn the_bytes_of_a_saved_frame_are_its_picture() {
    let (job, _) = start_job("gif", "png", None);
    let (job, _) = job.step(JobEvent::Done);
    let (job, first) = job.step(JobEvent::Bytes(gif(&[40, 50])));
    let (_, second) = job.step(JobEvent::Done);
    for (action, seed) in [(first, 40u8), (second, 50)] {
        match action {
            JobAction::Save { bytes, .. } => {
                let img = image::load_from_memory(&bytes).unwrap().into_rgba8();
                assert_eq!(img.get_pixel(0, 0).0, [seed, 0, 0, 255]);
                assert_eq!(img.get_pixel(2, 1).0, [seed, 2, 0, 255]);
            }
            other => panic!("{}", show(&other)),
        }
    }
}

#[test]
fn the_conversion_of_a_gif_may_fail_anywhere() {
    assert_eq!(run("gif", "png", vec![failed()]), vec!["mkdir", "finish io error: disk"]);
    assert_eq!(
        run("gif", "png", vec![JobEvent::Done, failed()]),
        vec!["mkdir", "read", "finish io error: disk"],
    );
    assert_eq!(
        run("gif", "png", vec![JobEvent::Done, JobEvent::Bytes(png(1))]),
        vec!["mkdir", "read", "finish image error"],
    );
    // JPEG takes no pixels with alpha: an empty file is left
    let jpg = |last: JobEvent| {
        run("gif", "jpg", vec![JobEvent::Done, JobEvent::Bytes(gif(&[1, 2])), last])
    };
    for last in [JobEvent::Done, failed()] {
        assert_eq!(jpg(last), vec!["mkdir", "read", "save frame_0001.jpg", "finish image error"]);
    }
    assert_eq!(
        run("gif", "png", vec![JobEvent::Done, JobEvent::Bytes(gif(&[1, 2])), failed()]),
        vec!["mkdir", "read", "save frame_0001.png", "finish image error"],
    );
}

#[test]
fn videos_are_taken_apart_by_ffmpeg() {
    assert_eq!(run("mkv", "png", vec![JobEvent::Done, found(true), ran(true)]), vec![
        "mkdir", "find ffmpeg", "run -y -i <input> <dir>/frame_%04d.png", "finish frames",
    ]);
    assert_eq!(
        run("mkv", "png", vec![JobEvent::Done, found(false)]),
        vec!["mkdir", "find ffmpeg", "finish no ffmpeg"],
    );
    assert_eq!(
        run("mkv", "png", vec![JobEvent::Done, found(true), ran(false)]).last().unwrap(),
        "finish failed: reason",
    );
    assert_eq!(
        run("mkv", "png", vec![JobEvent::Done, found(true), failed()]).last().unwrap(),
        "finish io error: disk",
    );
}

#[test]
fn a_webp_is_read_before_ffmpeg_is_asked() {
    let events = vec![JobEvent::Done, JobEvent::Bytes(vec![]), found(true), ran(true)];
    assert_eq!(run("webp", "png", events), vec![
        "mkdir", "read", "find ffmpeg", "run -y -i <input> <dir>/frame_%04d.png", "finish frames",
    ]);
    assert_eq!(
        run("webp", "png", vec![JobEvent::Done, failed()]),
        vec!["mkdir", "read", "finish io error: disk"],
    );
}

#[test]
fn the_pages_of_a_pdf_are_drawn_and_saved() {
    let events = vec![
        JobEvent::Done, JobEvent::Pages { pages: 2 }, page(6), JobEvent::Done, page(6),
        JobEvent::Done,
    ];
    assert_eq!(run("pdf", "png", events), vec![
        "mkdir", "open", "draw 0", "save frame_0001.png", "draw 1", "save frame_0002.png",
        "finish frames",
    ]);
    for pages in [0, -1] {
        assert_eq!(
            run("pdf", "png", vec![JobEvent::Done, JobEvent::Pages { pages }]),
            vec!["mkdir", "open", "finish frames"],
        );
    }
}

#[test]
fn the_conversion_of_a_pdf_may_fail_anywhere() {
    let pdf = |events: Vec<JobEvent>| run("pdf", "png", events).last().unwrap().clone();
    let open = || vec![JobEvent::Done, JobEvent::Pages { pages: 2 }];
    let with = |e: JobEvent| { let mut v = open(); v.push(e); v };
    assert_eq!(pdf(vec![failed()]), "finish io error: disk");
    assert_eq!(pdf(vec![JobEvent::Done, JobEvent::NotUnicode]), "finish unsupported");
    assert_eq!(
        pdf(vec![JobEvent::Done, JobEvent::PdfFailed("locked".to_string())]),
        "finish failed: locked",
    );
    assert_eq!(pdf(with(JobEvent::PdfFailed("torn".to_string()))), "finish failed: torn");
    assert_eq!(pdf(with(page(5))), "finish unsupported");
    let mut v = with(page(6));
    v.push(failed());
    assert_eq!(pdf(v), "finish image error");
}

#[test]
fn documents_are_handed_to_the_office_program() {
    assert_eq!(run("docx", "PDF", vec![found(true), JobEvent::Done, ran(true)]), vec![
        "find soffice", "mkdir", "run --headless --convert-to pdf --outdir <dir> <input>",
        "finish a.pdf",
    ]);
    assert_eq!(
        run("docx", "pdf", vec![found(false)]),
        vec!["find soffice", "finish no soffice"],
    );
    assert_eq!(
        run("docx", "pdf", vec![found(true), failed()]).last().unwrap(),
        "finish io error: disk",
    );
    assert_eq!(
        run("docx", "pdf", vec![found(true), JobEvent::Done, ran(false)]).last().unwrap(),
        "finish failed: reason",
    );
    assert_eq!(
        run("docx", "pdf", vec![found(true), JobEvent::Done, failed()]).last().unwrap(),
        "finish io error: disk",
    );
}

#[test]
fn an_event_that_does_not_fit_ends_the_job() {
    assert_eq!(run("png", "bmp", vec![JobEvent::Done]), vec!["read", "finish unsupported"]);
    assert_eq!(run("docx", "pdf", vec![JobEvent::Done]), vec!["find soffice", "finish unsupported"]);
    assert_eq!(
        run("png", "mp4", vec![JobEvent::Done]),
        vec!["finish unsupported", "finish unsupported"],
    );
}

#[test]
fn results_of_the_image_library_are_taken_up() {
    let idle = || start_job("gif", "png", None).0;
    let raster = || Raster { width: 1, height: 1, data: vec![1, 2, 3, 255] };
    assert_eq!(show(&idle().frames_decoded(Ok(vec![])).1), "finish frames");
    assert_eq!(show(&idle().frames_decoded(Ok(vec![raster()])).1), "save frame_0001.png");
    assert_eq!(
        show(&idle().frames_decoded(Err(ConvertError::UnsupportedPair)).1),
        "finish unsupported",
    );
    let whole = |b: u8| Ok(Encoded { bytes: vec![b], error: None });
    match idle().frame_encoded(vec![raster(), raster()], 1, whole(42)).1 {
        JobAction::Save { name, bytes } => {
            assert_eq!(name, "frame_0002.png");
            assert_eq!(bytes, vec![42]);
        }
        other => panic!("{}", show(&other)),
    }
    match idle().page_encoded(11, 12, whole(43)).1 {
        JobAction::Save { name, bytes } => {
            assert_eq!(name, "frame_0012.png");
            assert_eq!(bytes, vec![43]);
        }
        other => panic!("{}", show(&other)),
    }
    assert_eq!(
        show(&idle().page_encoded(0, 1, Err(ConvertError::ToolNotFound("x"))).1),
        "finish no x",
    );
}

/// A thing to do of a merge, on one line.
fn show_merge(a: &MergeJobAction) -> String {
    match a {
        MergeJobAction::CreateDest => "create".to_string(),
        MergeJobAction::ReadFrame { frame } => format!("read {frame}"),
        MergeJobAction::WriteDest { .. } => "write".to_string(),
        MergeJobAction::FindTool { tool } => format!("find {tool}"),
        MergeJobAction::WriteList { text } => format!("list {text}"),
        MergeJobAction::RunTool { args: list } => format!("run {}", args(list).join(" ")),
        MergeJobAction::RemoveList => "unlist".to_string(),
        MergeJobAction::Finish { result } => match result {
            Ok(()) => "finish".to_string(),
            Err(e) => format!("finish {}", error(e)),
        },
    }
}

fn go(start: (MergeJob, MergeJobAction), events: Vec<MergeJobEvent>) -> Vec<String> {
    let (mut job, action) = start;
    let mut res = vec![show_merge(&action)];
    for e in events {
        let (next, action) = job.step(e);
        job = next;
        res.push(show_merge(&action));
    }
    res
}

fn animation(to_ext: &str, exts: &[&str]) -> (MergeJob, MergeJobAction) {
    let paths = exts.iter().map(|e| format!("/d/f.{e}")).collect();
    start_animation(to_ext.to_string(), paths, exts.iter().map(|e| Some(e.to_string())).collect())
}

fn video(to_ext: &str) -> (MergeJob, MergeJobAction) {
    let paths = vec!["/d/1".to_string(), "/d/2".to_string()];
    start_video(to_ext.to_string(), paths, vec![None, None])
}

fn merge_failed() -> MergeJobEvent {
    MergeJobEvent::Failed(Error::other("disk"))
}

#[test]
fn an_animation_is_made_of_all_frames() {
    let events = vec![
        MergeJobEvent::Done, MergeJobEvent::Bytes(png(1)), MergeJobEvent::Bytes(png(2)),
        MergeJobEvent::Done,
    ];
    assert_eq!(
        go(animation("gif", &["png", "png"]), events),
        vec!["create", "read 0", "read 1", "write", "finish"],
    );
}

#[test]
fn the_written_animation_holds_the_frames() {
    let (job, _) = animation("gif", &["png", "png"]);
    let (job, _) = job.step(MergeJobEvent::Done);
    let (job, _) = job.step(MergeJobEvent::Bytes(png(1)));
    match job.step(MergeJobEvent::Bytes(png(2))).1 {
        MergeJobAction::WriteDest { bytes } => assert_eq!(bytes, gif(&[1, 2])),
        other => panic!("{}", show_merge(&other)),
    }
}

#[test]
fn the_frames_before_a_broken_one_are_written() {
    let (job, _) = animation("gif", &["png", "png", "png"]);
    let (job, _) = job.step(MergeJobEvent::Done);
    let (job, _) = job.step(MergeJobEvent::Bytes(png(1)));
    match job.step(MergeJobEvent::Bytes(vec![0])).1 {
        MergeJobAction::WriteDest { bytes } => assert_eq!(bytes, gif(&[1])),
        other => panic!("{}", show_merge(&other)),
    }
}

#[test]
fn an_animation_may_fail_anywhere() {
    let gif = |events: Vec<MergeJobEvent>| {
        go(animation("gif", &["png", "png"]), events).last().unwrap().clone()
    };
    assert_eq!(gif(vec![merge_failed()]), "finish io error: disk");
    // what could be had of the frames is written first
    assert_eq!(
        go(
            animation("gif", &["png", "png"]),
            vec![MergeJobEvent::Done, merge_failed(), MergeJobEvent::Done],
        ),
        vec!["create", "read 0", "write", "finish image error"],
    );
    let broken = vec![
        MergeJobEvent::Done, MergeJobEvent::Bytes(png(1)), MergeJobEvent::Bytes(vec![0]),
        MergeJobEvent::Done,
    ];
    assert_eq!(
        go(animation("gif", &["png", "png"]), broken),
        vec!["create", "read 0", "read 1", "write", "finish image error"],
    );
    let unwritten = vec![
        MergeJobEvent::Done, MergeJobEvent::Bytes(png(1)), MergeJobEvent::Bytes(png(2)),
        merge_failed(),
    ];
    assert_eq!(gif(unwritten), "finish image error");
    assert_eq!(go(animation("apng", &["png"]), vec![]), vec!["finish unsupported"]);
}

#[test]
fn a_webp_is_made_of_the_first_frame() {
    let events = || vec![MergeJobEvent::Bytes(png(1)), MergeJobEvent::Done];
    assert_eq!(
        go(animation("webp", &["png", "png"]), events()),
        vec!["read 0", "write", "finish"],
    );
    assert_eq!(
        go(animation("webp", &["png"]), vec![merge_failed()]),
        vec!["read 0", "finish io error: disk"],
    );
    assert_eq!(
        go(animation("webp", &["png"]), vec![MergeJobEvent::Bytes(png(1)), merge_failed()]),
        vec!["read 0", "write", "finish io error: disk"],
    );
    assert_eq!(
        go(animation("webp", &["png"]), vec![MergeJobEvent::Bytes(vec![])]),
        vec!["read 0", "finish image error"],
    );
    assert_eq!(go(animation("webp", &["xyz"]), vec![]), vec!["finish unsupported"]);
}

#[test]
fn a_video_is_made_of_a_list() {
    let ran = |success: bool| MergeJobEvent::Ran { success, stderr: "reason".to_string() };
    let up_to = |last: Vec<MergeJobEvent>| {
        let mut v = vec![MergeJobEvent::Tool { found: true }, MergeJobEvent::Done];
        v.extend(last);
        v
    };
    assert_eq!(go(video("avi"), up_to(vec![ran(true), MergeJobEvent::Done])), vec![
        "find ffmpeg",
        "list file '/d/1'\nfile '/d/2'\n",
        "run -y -f concat -safe 0 -i <input> -c:v mpeg4 <output>",
        "unlist",
        "finish",
    ]);
    // the list is removed all the same, and that may fail
    assert_eq!(
        go(video("avi"), up_to(vec![ran(false), merge_failed()]))[3..],
        ["unlist", "finish failed: reason"],
    );
    assert_eq!(
        go(video("avi"), up_to(vec![merge_failed()])).last().unwrap(),
        "finish io error: disk",
    );
    assert_eq!(
        go(video("avi"), vec![MergeJobEvent::Tool { found: false }]),
        vec!["find ffmpeg", "finish no ffmpeg"],
    );
    assert_eq!(
        go(video("avi"), vec![MergeJobEvent::Tool { found: true }, merge_failed()]).last().unwrap(),
        "finish io error: disk",
    );
}

#[test]
fn made_bytes_are_written() {
    let made = |b: Option<u8>, result| Animation { written: b.map(|b| vec![b]), result };
    match video("gif").0.animation_made(made(Some(1), Ok(()))).1 {
        MergeJobAction::WriteDest { bytes } => assert_eq!(bytes, vec![1]),
        other => panic!("{}", show_merge(&other)),
    }
    match video("webp").0.first_converted(made(Some(3), Ok(()))).1 {
        MergeJobAction::WriteDest { bytes } => assert_eq!(bytes, vec![3]),
        other => panic!("{}", show_merge(&other)),
    }
    let unsupported = || made(None, Err(ConvertError::UnsupportedPair));
    let none = video("gif").0.animation_made(unsupported()).1;
    assert_eq!(show_merge(&none), "finish unsupported");
    let none = video("webp").0.first_converted(unsupported()).1;
    assert_eq!(show_merge(&none), "finish unsupported");
}
