use powerext::converter::ConvertError;
use powerext::merge::{handle_sequence_merge, MergeAction, MergeEvent, Merging, SequenceFile};
use powerext::notifier::UserChoice;
use powerext::path::OsText;

fn start(exts: &[Option<&str>], to_ext: &str) -> (Merging, MergeAction) {
    let files = exts.iter().enumerate()
        .map(|(i, e)| SequenceFile {
            from: format!("/d/clip.{i}.{}", e.unwrap_or("")),
            to: format!("/d/clip.{i}.{to_ext}"),
            from_ext: e.map(|e| OsText::Unicode(e.to_string())),
        })
        .collect();
    handle_sequence_merge(&files, "clip".to_string(), to_ext.to_string())
}

/// A thing to do, on one line.
fn show(a: &MergeAction) -> String {
    match a {
        MergeAction::Backup { frame } => format!("backup {frame}"),
        MergeAction::InsertBackup { frame, orig_ext, new_ext } => {
            assert_eq!(*new_ext, None);
            format!("insert {frame} {orig_ext}")
        }
        MergeAction::Prompt { from, dest, secs } => format!("prompt {from} {dest} {secs}"),
        MergeAction::Merge { video, to_ext, dest } => {
            assert_eq!(*dest, format!("clip.{to_ext}"));
            format!("merge {} {to_ext}", if *video { "video" } else { "animation" })
        }
        MergeAction::Remove { frame } => format!("remove {frame}"),
        MergeAction::Finish { outcome } => format!("finish {outcome:?}"),
    }
}

fn run(start: (Merging, MergeAction), events: Vec<MergeEvent>) -> Vec<String> {
    let (mut m, action) = start;
    let mut res = vec![show(&action)];
    for e in events {
        let (next, action) = m.step(e);
        m = next;
        res.push(show(&action));
    }
    res
}

fn two(to_ext: &str) -> (Merging, MergeAction) {
    start(&[Some("png"), None], to_ext)
}

/// The events that save both files, and then those given.
fn saved(last: Vec<MergeEvent>) -> Vec<MergeEvent> {
    let mut v = vec![MergeEvent::Done, MergeEvent::Done, MergeEvent::Done, MergeEvent::Done];
    v.extend(last);
    v
}

fn accept() -> MergeEvent {
    MergeEvent::Chosen(UserChoice::Accept)
}

#[test]
fn a_sequence_is_saved_merged_and_removed() {
    let events = saved(vec![accept(), MergeEvent::Merged(Ok(())), MergeEvent::Done, MergeEvent::Failed]);
    assert_eq!(run(two("gif"), events), vec![
        "backup 0", "insert 0 png", "backup 1", "insert 1 bak",
        "prompt clip.001.png clip.gif 30", "merge animation gif", "remove 0", "remove 1",
        "finish Converted",
    ]);
}

#[test]
fn nothing_is_removed_where_a_backup_fails() {
    assert_eq!(run(two("gif"), vec![MergeEvent::Failed]), vec!["backup 0", "finish Broken"]);
    assert_eq!(
        run(two("gif"), vec![MergeEvent::Done, MergeEvent::Done, MergeEvent::Failed])[2..],
        ["backup 1", "finish Broken"],
    );
    assert_eq!(
        run(two("gif"), vec![MergeEvent::Done, MergeEvent::Failed])[1..],
        ["insert 0 png", "finish Broken"],
    );
}

#[test]
fn a_rejected_merge_is_left_alone() {
    for e in [MergeEvent::Chosen(UserChoice::Reject), MergeEvent::Failed, MergeEvent::Done] {
        assert_eq!(run(two("gif"), saved(vec![e]))[5..], ["finish Rejected"]);
    }
}

#[test]
fn a_failed_merge_removes_nothing() {
    let failed = |e: ConvertError| {
        run(two("mp4"), saved(vec![accept(), MergeEvent::Merged(Err(e))]))[6..].to_vec()
    };
    assert_eq!(failed(ConvertError::ToolNotFound("ffmpeg")), vec!["finish ToolMissing(\"ffmpeg\")"]);
    assert_eq!(
        failed(ConvertError::UnsupportedPair),
        vec!["finish ConversionFailed(UnsupportedPair)"],
    );
    assert_eq!(
        failed(ConvertError::ToolFailed("x".to_string())),
        vec!["finish ConversionFailed(ToolFailed(\"x\"))"],
    );
    assert_eq!(run(two("mp4"), saved(vec![accept(), MergeEvent::Done]))[6..], ["finish Broken"]);
}

#[test]
fn videos_and_animations_are_told_apart() {
    let merged = |ext: &str| run(two(ext), saved(vec![accept()]))[5].clone();
    for ext in ["mp4", "webm", "avi", "mov", "mkv"] {
        assert_eq!(merged(ext), format!("merge video {ext}"));
    }
    for ext in ["gif", "webp", "flv", "MP4", "png", ""] {
        assert_eq!(merged(ext), format!("merge animation {ext}"));
    }
}

#[test]
fn the_user_is_asked_about_the_first_file() {
    assert_eq!(
        run(start(&[None, Some("png")], "gif"), saved(vec![]))[4],
        "prompt clip.001.img clip.gif 30",
    );
}

#[test]
fn every_file_has_a_backup_of_its_own() {
    let (m, _) = start(&[Some("png"), Some("jpg"), None, Some("")], "gif");
    let ends: Vec<&str> = m.frames.iter().map(|f| &f.backup_name[36..]).collect();
    assert_eq!(ends, vec![".png", ".jpg", ".bak", "."]);
    assert_eq!(m.frames[1].from, "/d/clip.1.jpg");
    assert_eq!(m.frames[1].to, "/d/clip.1.gif");
    for i in 0..4 {
        for j in 0..i {
            assert_ne!(m.frames[i].backup_name, m.frames[j].backup_name);
        }
    }
}
