//! Runs of renames and merges against files and records in memory.

use powerext::converter::{dispatch, ConvertError, ConvertOutput, Route};
use powerext::db::BackupRow;
use powerext::merge::{handle_sequence_merge, MergeAction, MergeEvent, SequenceFile};
use powerext::notifier::UserChoice;
use powerext::path::OsText;
use powerext::rename::{handle_rename, Action, Event, Outcome};
use std::collections::HashMap;
use std::path::PathBuf;

#[derive(Clone, Debug, Default, PartialEq)]
struct World {
    files: HashMap<String, Vec<u8>>,
    active: HashMap<String, (i64, String)>,
    new_ext: HashMap<String, String>,
    next_id: i64,
}

impl World {
    fn with(path: &str, bytes: &[u8]) -> World {
        let mut w = World::default();
        w.files.insert(path.to_string(), bytes.to_vec());
        w
    }

    fn holds(&self, path: &str, bytes: &[u8]) -> bool {
        self.files.get(path).map(|b| b.as_slice()) == Some(bytes)
    }

    fn copy(&mut self, from: &str, to: &str) -> bool {
        match self.files.get(from).cloned() {
            Some(b) => {
                self.files.insert(to.to_string(), b);
                true
            }
            None => false,
        }
    }

    fn record(&mut self, path: &str, backup: &str) {
        self.next_id += 1;
        self.active.insert(path.to_string(), (self.next_id, backup.to_string()));
        self.new_ext.remove(path);
    }

    /// Whether the bytes are in a backup file that is on record for the path.
    fn saved(&self, path: &str, bytes: &[u8]) -> bool {
        self.active.get(path).is_some_and(|(_, b)| self.holds(b, bytes))
    }
}

fn ext(path: &str) -> Option<OsText> {
    path.rsplit_once('.').map(|(_, e)| OsText::Unicode(e.to_string()))
}

/// Handles a rename. The thing to do of index `fail` fails, and spoils what it writes. Calls
/// `check` after every thing that was done.
fn rename(
    w: &mut World,
    from: &str,
    to: &str,
    choice: UserChoice,
    convert: fn() -> Result<ConvertOutput, ConvertError>,
    fail: Option<usize>,
    mut check: impl FnMut(&World),
) -> Outcome {
    let (mut r, mut action) = handle_rename(
        from.to_string(), to.to_string(), &ext(from), &ext(to), "/d/frames".to_string(),
    );
    let backup = format!("/b/{}", r.backup_name);
    let mut n = 0;
    loop {
        let failing = fail == Some(n);
        n += 1;
        assert!(n <= 9, "a run ends after eight events");
        let ok = |b: bool| if b { Event::Done } else { Event::Failed };
        let event = match action {
            Action::FindBackup => Event::Found(w.active.get(to).filter(|_| !failing).map(|(id, p)| {
                BackupRow { id: *id, backup_path: p.clone(), original_ext: String::new() }
            })),
            Action::Prompt { .. } => Event::Chosen(if failing { UserChoice::Reject } else { choice }),
            Action::Convert { .. } => Event::Converted {
                result: if failing { Err(ConvertError::UnsupportedPair) } else { convert() },
                in_place: false,
            },
            Action::Restore { .. } | Action::Write { .. } if failing => {
                w.files.insert(to.to_string(), b"spoiled".to_vec());
                Event::Failed
            }
            Action::Backup if failing => {
                w.files.insert(backup.clone(), b"spoiled".to_vec());
                Event::Failed
            }
            Action::Finish { outcome } => return outcome,
            Action::Notify { .. } => Event::Done,
            _ if failing => Event::Failed,
            Action::Restore { stored } => ok(w.copy(&stored, to)),
            Action::MarkRestored { id } => {
                w.active.retain(|_, (i, _)| *i != id);
                Event::Done
            }
            Action::Backup => ok(w.copy(to, &backup)),
            Action::InsertBackup { .. } => {
                w.record(from, &backup);
                Event::Done
            }
            Action::Write { bytes } => {
                w.files.insert(to.to_string(), bytes);
                Event::Done
            }
            Action::Remove => ok(w.files.remove(to).is_some()),
            Action::Replace { .. } => {
                w.files.insert(to.to_string(), b"from outside".to_vec());
                Event::Done
            }
            Action::SetNewExt { ext } => {
                w.new_ext.insert(from.to_string(), ext);
                Event::Done
            }
        };
        check(w);
        (r, action) = r.step(event);
    }
}

fn conversions() -> Vec<fn() -> Result<ConvertOutput, ConvertError>> {
    vec![
        || Ok(ConvertOutput::SingleFile(b"converted".to_vec())),
        || Ok(ConvertOutput::FrameDir),
        || Ok(ConvertOutput::ExternalFile(PathBuf::from("/d/frames/a.jpg"))),
        || Err(ConvertError::UnsupportedPair),
        || Err(ConvertError::ToolNotFound("ffmpeg")),
        || Err(ConvertError::ToolFailed("why".to_string())),
        || Err(ConvertError::IoError(std::io::Error::other("disk"))),
    ]
}

#[test]
fn no_bytes_are_lost_wherever_a_rename_fails() {
    for convert in conversions() {
        for fail in [None, Some(0), Some(1), Some(2), Some(3), Some(4), Some(5), Some(6), Some(7)] {
            let mut w = World::with("/d/a.jpg", b"picture");
            rename(&mut w, "/d/a.png", "/d/a.jpg", UserChoice::Accept, convert, fail, |w| {
                assert!(w.holds("/d/a.jpg", b"picture") || w.saved("/d/a.png", b"picture"));
            });
        }
    }
}

#[test]
fn a_converted_file_comes_back_when_it_is_renamed_back() {
    for convert in conversions() {
        let mut w = World::with("/d/a.jpg", b"picture");
        rename(&mut w, "/d/a.png", "/d/a.jpg", UserChoice::Accept, convert, None, |_| {});
        // renamed back by the user
        let now = w.files.remove("/d/a.jpg").unwrap_or_default();
        w.files.insert("/d/a.png".to_string(), now);
        let before = w.clone();
        let outcome = rename(
            &mut w, "/d/a.jpg", "/d/a.png", UserChoice::Reject, convert, None, |_| {},
        );
        assert!(matches!(outcome, Outcome::Restored));
        assert!(w.holds("/d/a.png", b"picture"));
        assert!(!w.active.contains_key("/d/a.png"));
        // nothing else has changed
        let mut after = w.clone();
        after.files.insert("/d/a.png".to_string(), before.files["/d/a.png"].clone());
        assert_eq!(after.files, before.files);
    }
}

#[test]
fn the_new_extension_is_set_after_a_conversion() {
    for (k, convert) in conversions().into_iter().enumerate() {
        for fail in [None, Some(3), Some(4), Some(5), Some(6)] {
            let mut w = World::with("/d/a.jpg", b"picture");
            let outcome = rename(
                &mut w, "/d/a.png", "/d/a.jpg", UserChoice::Accept, convert, fail, |_| {},
            );
            let set = w.new_ext.get("/d/a.png").map(|e| e.as_str());
            if matches!(outcome, Outcome::Converted | Outcome::Extracted) {
                assert_eq!(set, Some("jpg"));
            } else {
                assert_eq!(set, None);
            }
            assert!(set.is_none() || k < 3);
        }
    }
}

#[test]
fn a_backup_is_kept_until_the_file_is_restored() {
    for fail in [None, Some(1), Some(2)] {
        let mut w = World::with("/d/a.jpg", b"converted");
        w.files.insert("/b/1.jpg".to_string(), b"picture".to_vec());
        w.record("/d/a.jpg", "/b/1.jpg");
        rename(&mut w, "/d/a.png", "/d/a.jpg", UserChoice::Accept, conversions()[0], fail, |w| {
            assert!(w.holds("/b/1.jpg", b"picture"));
            assert!(w.active.contains_key("/d/a.jpg") || w.holds("/d/a.jpg", b"picture"));
        });
    }
}

#[test]
fn a_rejected_rename_changes_no_file() {
    let mut w = World::with("/d/a.jpg", b"picture");
    w.files.insert("/d/other".to_string(), b"other".to_vec());
    let outcome = rename(
        &mut w, "/d/a.png", "/d/a.jpg", UserChoice::Reject, conversions()[0], None, |w| {
            assert!(w.holds("/d/a.jpg", b"picture"));
        },
    );
    assert!(matches!(outcome, Outcome::Rejected));
    assert!(w.holds("/d/a.jpg", b"picture"));
    assert!(w.holds("/d/other", b"other"));
    assert!(w.saved("/d/a.png", b"picture"));
    assert_eq!(w.files.len(), 3);
}

/// Merges three files. The thing to do of index `fail` fails. Calls `check` after every thing
/// that was done, and tells it whether files have been removed and whether the user was asked.
fn merge(fail: Option<usize>, mut check: impl FnMut(&World, bool, bool)) -> (World, Outcome) {
    let mut w = World::default();
    let paths: Vec<(String, String)> = (0..3)
        .map(|i| (format!("/d/s.{i}.png"), format!("/d/s.{i}.gif")))
        .collect();
    for (i, (_, to)) in paths.iter().enumerate() {
        w.files.insert(to.clone(), vec![i as u8]);
    }
    let files = paths.iter()
        .map(|(from, to)| SequenceFile { from: from.clone(), to: to.clone(), from_ext: ext(from) })
        .collect();
    let (mut m, mut action) = handle_sequence_merge(&files, "s".to_string(), "gif".to_string());
    let backups: Vec<String> = m.frames.iter().map(|f| format!("/b/{}", f.backup_name)).collect();
    let mut n = 0;
    let mut removing = false;
    let mut asked = false;
    loop {
        let failing = fail == Some(n);
        n += 1;
        assert!(n <= 12, "a merge of three files ends after eleven events");
        let event = match action {
            MergeAction::Backup { frame } if failing => {
                w.files.insert(backups[frame].clone(), b"spoiled".to_vec());
                MergeEvent::Failed
            }
            MergeAction::Backup { frame } => {
                assert!(w.copy(&paths[frame].1, &backups[frame]));
                MergeEvent::Done
            }
            MergeAction::InsertBackup { .. } if failing => MergeEvent::Failed,
            MergeAction::InsertBackup { frame, orig_ext, .. } => {
                assert_eq!(orig_ext, "png");
                w.record(&paths[frame].0, &backups[frame]);
                MergeEvent::Done
            }
            MergeAction::Prompt { .. } => {
                asked = true;
                MergeEvent::Chosen(if failing { UserChoice::Reject } else { UserChoice::Accept })
            }
            MergeAction::Merge { .. } if failing => {
                MergeEvent::Merged(Err(ConvertError::ToolFailed(String::new())))
            }
            MergeAction::Merge { .. } => {
                w.files.insert("/d/s.gif".to_string(), b"merged".to_vec());
                MergeEvent::Merged(Ok(()))
            }
            MergeAction::Remove { .. } if failing => MergeEvent::Failed,
            MergeAction::Remove { frame } => {
                removing = true;
                w.files.remove(&paths[frame].1);
                MergeEvent::Done
            }
            MergeAction::Finish { outcome } => return (w, outcome),
        };
        check(&w, removing, asked);
        (m, action) = m.step(event);
    }
}

#[test]
fn no_frame_is_lost_wherever_a_merge_fails() {
    for fail in (0..11).map(Some).chain([None]) {
        merge(fail, |w, removing, asked| {
            for i in 0..3u8 {
                let there = w.holds(&format!("/d/s.{i}.gif"), &[i]);
                let saved = w.saved(&format!("/d/s.{i}.png"), &[i]);
                assert!(there || saved);
                assert!(saved || !removing);
                assert!(saved || !asked);
            }
        });
    }
}

#[test]
fn a_merged_sequence_is_removed() {
    let (w, outcome) = merge(None, |_, _, _| {});
    assert!(matches!(outcome, Outcome::Converted));
    assert!(w.holds("/d/s.gif", b"merged"));
    for i in 0..3u8 {
        assert!(!w.files.contains_key(&format!("/d/s.{i}.gif")));
        assert!(w.saved(&format!("/d/s.{i}.png"), &[i]));
    }
}

#[test]
fn an_unmerged_sequence_keeps_its_files() {
    // up to the merge itself, which is the eighth thing to do
    for fail in 0..8 {
        let (w, _) = merge(Some(fail), |_, _, _| {});
        for i in 0..3u8 {
            assert!(w.holds(&format!("/d/s.{i}.gif"), &[i]));
        }
    }
}

#[test]
fn documents_convert_both_ways_and_nothing_becomes_a_video() {
    let office = [
        "docx", "doc", "odt", "pptx", "ppt", "odp", "xlsx", "xls", "ods", "md", "rtf", "txt", "pdf",
    ];
    for f in office {
        for t in office {
            assert_eq!(dispatch(f, t).unwrap().route, Route::Office);
        }
    }
    for f in ["png", "gif", "mp4", "pdf", "docx"] {
        for t in ["mp4", "webm", "avi", "mov", "mkv", "flv"] {
            assert!(matches!(dispatch(f, t), Err(ConvertError::UnsupportedPair)));
        }
    }
}
