use powerext::path::{FilePath, OsText};
use powerext::snapshot::Snapshot;
use std::path::PathBuf;

fn path(dir: &str, stem: &str, ext: Option<&str>) -> FilePath {
    FilePath {
        parent: OsText::Unicode(dir.to_string()),
        stem: OsText::Unicode(stem.to_string()),
        ext: ext.map(|e| OsText::Unicode(e.to_string())),
    }
}

#[test]
fn a_path_is_listed_once() {
    let mut s = Snapshot::new();
    assert_eq!(s.len(), 0);
    assert!(!s.record(PathBuf::from("/d/a.png"), path("/d", "a", Some("png")), false, Some(3)));
    assert!(!s.record(PathBuf::from("/d/b"), path("/d", "b", None), false, Some(4)));
    assert!(!s.record(PathBuf::from("/d/a.png"), path("/d", "a", Some("png")), false, Some(5)));
    assert_eq!(s.len(), 2);
    let i = s.find(&path("/d", "a", Some("png"))).unwrap();
    assert_eq!(s.get(i).size, 5);
    assert_eq!(s.get(i).place, PathBuf::from("/d/a.png"));
    let j = s.find(&path("/d", "b", None)).unwrap();
    assert_eq!(s.get(j).size, 4);
    assert!(s.find(&path("/d", "b", Some("")) ).is_none());
    assert!(s.find(&path("/e", "a", Some("png"))).is_none());
}

#[test]
fn directories_are_descended_into_and_not_listed() {
    let mut s = Snapshot::new();
    assert!(s.record(PathBuf::from("/d/sub"), path("/d", "sub", None), true, Some(4096)));
    assert_eq!(s.len(), 0);
}

#[test]
fn files_of_unknown_length_are_not_listed() {
    let mut s = Snapshot::new();
    assert!(!s.record(PathBuf::from("/d/a"), path("/d", "a", None), false, None));
    assert_eq!(s.len(), 0);
}

#[test]
fn many_files_are_found_again() {
    let mut s = Snapshot::new();
    for i in 0..500u64 {
        let stem = format!("f{i}");
        s.record(PathBuf::from(&stem), path("/d", &stem, Some("png")), false, Some(i));
    }
    assert_eq!(s.len(), 500);
    for i in 0..500u64 {
        let at = s.find(&path("/d", &format!("f{i}"), Some("png"))).unwrap();
        assert_eq!(s.get(at).size, i);
    }
}

#[test]
fn names_that_are_not_unicode_differ_by_their_bytes() {
    let raw = |b: &[u8]| OsText::Other(b.to_vec());
    assert!(raw(&[0xff]).same(&raw(&[0xff])));
    assert!(!raw(&[0xff]).same(&raw(&[0xfe])));
    assert!(!raw(b"a").same(&OsText::Unicode("a".to_string())));
}
