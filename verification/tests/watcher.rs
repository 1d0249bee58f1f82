use powerext::path::{FilePath, OsText};
use powerext::snapshot::Snapshot;
use powerext::watcher::{parse_sequence_stem, run, Plan, POLL_MILLIS};
use std::path::PathBuf;

fn unicode(s: &str) -> OsText {
    OsText::Unicode(s.to_string())
}

/// A snapshot of files in one directory, each given by its stem, extension and length.
fn snapshot(files: &[(&str, Option<&str>, u64)]) -> Snapshot {
    snapshot_of(&files.iter().map(|(s, e, n)| ("/d", *s, *e, *n)).collect::<Vec<_>>())
}

fn snapshot_of(files: &[(&str, &str, Option<&str>, u64)]) -> Snapshot {
    let mut res = Snapshot::new();
    for (dir, stem, ext, size) in files {
        let path = FilePath { parent: unicode(dir), stem: unicode(stem), ext: ext.map(unicode) };
        let place = PathBuf::from(format!("{dir}/{stem}.{}", ext.unwrap_or("")));
        res.record(place, path, false, Some(*size));
    }
    res
}

fn renames(plan: &Plan, prev: &Snapshot, curr: &Snapshot) -> Vec<(PathBuf, PathBuf)> {
    let mut res: Vec<(PathBuf, PathBuf)> = plan.renames.iter()
        .map(|r| (prev.get(r.from).place.clone(), curr.get(r.to).place.clone()))
        .collect();
    res.sort();
    res
}

#[test]
fn a_changed_extension_is_a_rename() {
    let prev = snapshot(&[("a", Some("png"), 10), ("b", Some("txt"), 3)]);
    let curr = snapshot(&[("b", Some("txt"), 3), ("a", Some("jpg"), 10)]);
    let plan = run(&prev, &curr);
    assert!(plan.merges.is_empty());
    assert_eq!(
        renames(&plan, &prev, &curr),
        vec![(PathBuf::from("/d/a.png"), PathBuf::from("/d/a.jpg"))],
    );
}

#[test]
fn no_change_no_plan() {
    let prev = snapshot(&[("a", Some("png"), 10), ("s.001", Some("png"), 1)]);
    let curr = snapshot(&[("s.001", Some("png"), 1), ("a", Some("png"), 10)]);
    let plan = run(&prev, &curr);
    assert!(plan.merges.is_empty());
    assert!(plan.renames.is_empty());
}

#[test]
fn other_changes_are_no_renames() {
    // another length, another stem, another directory, only gone, only new
    let prev = snapshot_of(&[
        ("/d", "a", Some("png"), 10), ("/d", "b", Some("png"), 10), ("/d", "c", Some("png"), 10),
        ("/d", "gone", Some("png"), 10),
    ]);
    let curr = snapshot_of(&[
        ("/d", "a", Some("jpg"), 11), ("/d", "bb", Some("jpg"), 10), ("/e", "c", Some("jpg"), 10),
        ("/d", "new", Some("jpg"), 10),
    ]);
    let plan = run(&prev, &curr);
    assert!(plan.merges.is_empty());
    assert!(plan.renames.is_empty());
}

#[test]
fn an_extension_may_be_added_or_dropped() {
    let prev = snapshot(&[("a", None, 10), ("b", Some("png"), 7)]);
    let curr = snapshot(&[("a", Some("png"), 10), ("b", None, 7)]);
    let plan = run(&prev, &curr);
    assert_eq!(plan.renames.len(), 2);
}

#[test]
fn numbered_files_are_merged_in_order() {
    let prev = snapshot(&[
        ("s.10", Some("png"), 1), ("s.2", Some("png"), 2), ("s.003", Some("png"), 3),
        ("x", Some("png"), 4),
    ]);
    let curr = snapshot(&[
        ("s.10", Some("gif"), 1), ("s.2", Some("gif"), 2), ("s.003", Some("gif"), 3),
        ("x", Some("gif"), 4),
    ]);
    let plan = run(&prev, &curr);
    assert_eq!(plan.merges.len(), 1);
    let m = &plan.merges[0];
    assert_eq!(m.base, "s");
    assert_eq!(m.to_ext, "gif");
    let numbers: Vec<u32> = m.frames.iter().map(|f| f.number).collect();
    assert_eq!(numbers, vec![2, 3, 10]);
    for f in &m.frames {
        assert_eq!(prev.get(f.from).size, curr.get(f.to).size);
    }
    assert_eq!(
        renames(&plan, &prev, &curr),
        vec![(PathBuf::from("/d/x.png"), PathBuf::from("/d/x.gif"))],
    );
}

#[test]
fn a_single_numbered_file_is_handled_by_itself() {
    let prev = snapshot(&[("s.001", Some("png"), 1)]);
    let curr = snapshot(&[("s.001", Some("gif"), 1)]);
    let plan = run(&prev, &curr);
    assert!(plan.merges.is_empty());
    assert_eq!(plan.renames.len(), 1);
}

#[test]
fn sequences_do_not_mix() {
    // two bases, two new extensions and two directories, two files each
    let mut prev = Vec::new();
    let mut curr = Vec::new();
    for (dir, base, to) in [("/d", "s", "gif"), ("/d", "t", "gif"), ("/d", "u", "mp4"), ("/e", "s", "gif")] {
        for n in ["1", "2"] {
            let stem: &'static str = Box::leak(format!("{base}.{n}").into_boxed_str());
            prev.push((dir, stem, Some("png"), 9));
            curr.push((dir, stem, Some(to), 9));
        }
    }
    let (prev, curr) = (snapshot_of(&prev), snapshot_of(&curr));
    let plan = run(&prev, &curr);
    assert!(plan.renames.is_empty());
    assert_eq!(plan.merges.len(), 4);
    for m in &plan.merges {
        assert_eq!(m.frames.len(), 2);
    }
}

#[test]
fn numbers_stand_after_the_last_dot() {
    let parse = |s: &str| parse_sequence_stem(&unicode(s));
    assert_eq!(parse("clip.001"), Some(("clip".to_string(), 1)));
    assert_eq!(parse("a.b.12"), Some(("a.b".to_string(), 12)));
    assert_eq!(parse(".5"), Some((String::new(), 5)));
    assert_eq!(parse("clip.+3"), Some(("clip".to_string(), 3)));
    assert_eq!(parse("clip"), None);
    assert_eq!(parse("clip."), None);
    assert_eq!(parse("clip.x1"), None);
    assert_eq!(parse("clip.-1"), None);
    assert_eq!(parse("clip.4294967296"), None);
    assert_eq!(parse_sequence_stem(&OsText::Other(vec![b'a', b'.', b'1', 0xff])), None);
}

#[test]
fn the_files_are_looked_at_twice_a_second() {
    assert_eq!(POLL_MILLIS, 500);
}
