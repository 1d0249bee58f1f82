use powerext::startup::{
    resolve_data_dir, watch_root, DataDirChoice, DATA_DIR_NAME, FALLBACK_NAME, PROBE_NAME,
};
use std::path::PathBuf;

#[test]
fn the_preferred_directory_is_used_unless_it_cannot_be_written_to() {
    assert_eq!(resolve_data_dir(true, None, false), Ok(DataDirChoice::Preferred));
    assert_eq!(resolve_data_dir(true, Some(true), false), Ok(DataDirChoice::Preferred));
    assert_eq!(resolve_data_dir(true, Some(false), true), Ok(DataDirChoice::Fallback));
}

#[test]
fn a_directory_that_is_not_known_is_an_error() {
    assert_eq!(resolve_data_dir(false, None, true), Err("Cannot determine data directory"));
    assert_eq!(resolve_data_dir(true, Some(false), false), Err("Cannot determine home directory"));
}

#[test]
fn the_home_directory_is_watched_by_default() {
    let (a, b) = (PathBuf::from("/a"), PathBuf::from("/home"));
    assert_eq!(watch_root(Some(a.clone()), Some(b.clone())), Ok(a));
    assert_eq!(watch_root(None, Some(b.clone())), Ok(b));
    assert_eq!(watch_root(None, None), Err("Cannot determine home directory"));
}

#[test]
fn directories_have_their_names() {
    assert_eq!(DATA_DIR_NAME, "PowerEXT");
    assert_eq!(FALLBACK_NAME, ".PowerEXT");
    assert_eq!(PROBE_NAME, ".write_test");
}
