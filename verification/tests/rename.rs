use powerext::converter::{ConvertError, ConvertOutput};
use powerext::db::BackupRow;
use powerext::notifier::UserChoice;
use powerext::path::OsText;
use powerext::rename::{handle_rename, Action, Event, Outcome, Renaming, PROMPT_SECS};
use std::path::PathBuf;

fn start() -> (Renaming, Action) {
    start_with(Some("png"), Some("jpg"))
}

fn start_with(from: Option<&str>, to: Option<&str>) -> (Renaming, Action) {
    let piece = |e: Option<&str>| e.map(|e| OsText::Unicode(e.to_string()));
    handle_rename(
        "/d/a.png".to_string(), "/d/a.jpg".to_string(), &piece(from), &piece(to),
        "/d/a".to_string(),
    )
}

/// A thing to do, on one line.
fn show(a: &Action) -> String {
    match a {
        Action::FindBackup => "find".to_string(),
        Action::Restore { stored } => format!("restore {stored}"),
        Action::MarkRestored { id } => format!("mark {id}"),
        Action::Backup => "backup".to_string(),
        Action::InsertBackup { orig_ext, new_ext } => {
            assert_eq!(*new_ext, None);
            format!("insert {orig_ext}")
        }
        Action::Prompt { secs } => format!("prompt {secs}"),
        Action::Convert { from_ext, to_ext } => format!("convert {from_ext} {to_ext}"),
        Action::Write { bytes } => format!("write {bytes:?}"),
        Action::Remove => "remove".to_string(),
        Action::Replace { out } => format!("replace {}", out.display()),
        Action::SetNewExt { ext } => format!("set {ext}"),
        Action::Notify { summary, body } => format!("notify {summary} | {body}"),
        Action::Finish { outcome } => format!("finish {outcome:?}"),
    }
}

fn run(events: Vec<Event>) -> Vec<String> {
    run_from(start(), events)
}

fn run_from(start: (Renaming, Action), events: Vec<Event>) -> Vec<String> {
    let (mut r, action) = start;
    let mut res = vec![show(&action)];
    for e in events {
        let (next, action) = r.step(e);
        r = next;
        res.push(show(&action));
    }
    res
}

/// The events up to the conversion, and then those given.
fn accepted(last: Vec<Event>) -> Vec<Event> {
    let mut v = vec![
        Event::Found(None), Event::Done, Event::Done, Event::Chosen(UserChoice::Accept),
    ];
    v.extend(last);
    v
}

fn converted(result: Result<ConvertOutput, ConvertError>) -> Event {
    Event::Converted { result, in_place: false }
}

fn row() -> Event {
    Event::Found(Some(BackupRow {
        id: 7,
        backup_path: "/b/x.jpg".to_string(),
        original_ext: "jpg".to_string(),
    }))
}

#[test]
fn a_file_that_is_renamed_back_is_restored() {
    assert_eq!(run(vec![row(), Event::Done, Event::Done, Event::Done]), vec![
        "find", "restore /b/x.jpg", "mark 7",
        "notify PowerEXT: file restored | Restored /d/a.jpg", "finish Restored",
    ]);
}

#[test]
fn a_restoration_may_fail() {
    assert_eq!(
        run(vec![row(), Event::Failed]),
        vec!["find", "restore /b/x.jpg", "finish Broken"],
    );
    assert_eq!(
        run(vec![row(), Event::Done, Event::Failed]),
        vec!["find", "restore /b/x.jpg", "mark 7", "finish Broken"],
    );
}

#[test]
fn a_backup_is_made_and_recorded_before_the_user_is_asked() {
    assert_eq!(
        run(vec![Event::Found(None), Event::Done, Event::Done]),
        vec!["find", "backup", "insert png", "prompt 30"],
    );
    assert_eq!(run(vec![Event::Found(None), Event::Failed]), vec!["find", "backup", "finish Broken"]);
    assert_eq!(
        run(vec![Event::Found(None), Event::Done, Event::Failed]),
        vec!["find", "backup", "insert png", "finish Broken"],
    );
    assert_eq!(PROMPT_SECS, 30);
}

#[test]
fn a_lookup_that_fails_finds_nothing() {
    assert_eq!(run(vec![Event::Failed]), vec!["find", "backup"]);
}

#[test]
fn a_rejected_rename_is_left_alone() {
    for e in [Event::Chosen(UserChoice::Reject), Event::Failed, Event::Done] {
        assert_eq!(
            run(vec![Event::Found(None), Event::Done, Event::Done, e])[4..],
            ["finish Rejected"],
        );
    }
}

#[test]
fn a_single_file_is_written() {
    let bytes = || converted(Ok(ConvertOutput::SingleFile(vec![1, 2])));
    assert_eq!(
        run(accepted(vec![bytes(), Event::Done, Event::Done]))[4..],
        ["convert png jpg", "write [1, 2]", "set jpg", "finish Converted"],
    );
    assert_eq!(
        run(accepted(vec![bytes(), Event::Failed]))[5..],
        ["write [1, 2]", "finish Broken"],
    );
    assert_eq!(
        run(accepted(vec![bytes(), Event::Done, Event::Failed]))[6..],
        ["set jpg", "finish Broken"],
    );
}

#[test]
fn a_file_gives_way_to_its_frames() {
    let frames = || converted(Ok(ConvertOutput::FrameDir));
    assert_eq!(
        run(accepted(vec![frames(), Event::Done, Event::Done, Event::Done]))[5..],
        ["remove", "set jpg", "notify PowerEXT: frames extracted | /d/a", "finish Extracted"],
    );
    assert_eq!(run(accepted(vec![frames(), Event::Failed]))[5..], ["remove", "finish Broken"]);
}

#[test]
fn a_file_made_elsewhere_is_moved_in_place() {
    let out = |in_place: bool| Event::Converted {
        result: Ok(ConvertOutput::ExternalFile(PathBuf::from("/d/a/a.jpg"))),
        in_place,
    };
    assert_eq!(
        run(accepted(vec![out(false), Event::Done, Event::Done]))[5..],
        ["replace /d/a/a.jpg", "set jpg", "finish Converted"],
    );
    assert_eq!(
        run(accepted(vec![out(true), Event::Done]))[5..],
        ["set jpg", "finish Converted"],
    );
    assert_eq!(
        run(accepted(vec![out(false), Event::Failed]))[5..],
        ["replace /d/a/a.jpg", "finish Broken"],
    );
}

#[test]
fn the_user_is_told_why_nothing_was_converted() {
    assert_eq!(
        run(accepted(vec![converted(Err(ConvertError::UnsupportedPair)), Event::Done]))[5..],
        ["notify PowerEXT: skipped | No converter .png → .jpg", "finish Unsupported"],
    );
    assert_eq!(
        run(accepted(vec![converted(Err(ConvertError::ToolNotFound("ffmpeg"))), Event::Done]))[5..],
        [
            "notify PowerEXT: tool missing | ffmpeg not found — install it to convert .png → .jpg",
            "finish ToolMissing(\"ffmpeg\")",
        ],
    );
}

#[test]
fn a_failed_conversion_ends_the_rename() {
    assert_eq!(
        run(accepted(vec![converted(Err(ConvertError::ToolFailed("why".to_string())))]))[5..],
        ["finish ToolFailed(\"why\")"],
    );
    let io = ConvertError::IoError(std::io::Error::other("disk"));
    let (r, _) = start();
    let mut r = r;
    for e in accepted(vec![]) {
        r = r.step(e).0;
    }
    match r.step(converted(Err(io))).1 {
        Action::Finish { outcome: Outcome::ConversionFailed(ConvertError::IoError(e)) } => {
            assert_eq!(e.to_string(), "disk");
        }
        other => panic!("{}", show(&other)),
    }
    assert_eq!(run(accepted(vec![Event::Done]))[5..], ["finish Broken"]);
}

#[test]
fn a_run_stays_at_its_end() {
    assert_eq!(
        run(vec![Event::Found(None), Event::Failed, Event::Done, Event::Done])[2..],
        ["finish Broken", "finish Broken", "finish Broken"],
    );
}

#[test]
fn the_backup_keeps_the_old_extension() {
    let (r, _) = start();
    assert!(r.backup_name.ends_with(".png"));
    assert_eq!(r.backup_name.len(), 40);
    for ext in [None, Some("")] {
        let (r, _) = start_with(ext, Some("jpg"));
        assert!(r.backup_name.ends_with(".bak"));
        assert_eq!(r.from_ext, "");
    }
    let raw = Some(OsText::Other(vec![0xff]));
    let (r, _) = handle_rename("a".to_string(), "b".to_string(), &raw, &raw, "d".to_string());
    assert!(r.backup_name.ends_with(".bak"));
    assert_eq!(r.to_ext, "");
}

#[test]
fn two_renames_have_different_backups() {
    assert_ne!(start().0.backup_name, start().0.backup_name);
}

#[test]
fn a_file_without_extension_is_recorded_with_an_empty_one() {
    assert_eq!(
        run_from(start_with(None, Some("jpg")), vec![Event::Found(None), Event::Done])[2..],
        ["insert "],
    );
}
