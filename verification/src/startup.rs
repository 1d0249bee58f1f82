//! What is decided when the program starts.

use std::path::PathBuf;
use vstd::prelude::*;

verus! {

/// The name of the data directory among those of other programs.
pub const DATA_DIR_NAME: &'static str = "PowerEXT";

/// The name of the data directory in the home directory.
pub const FALLBACK_NAME: &'static str = ".PowerEXT";

/// The name of the file that is written to see whether a directory can be written to.
pub const PROBE_NAME: &'static str = ".write_test";

/// Which directory the program keeps its data in.
#[derive(Clone, Copy, Debug, PartialEq, Eq, Structural)]
pub enum DataDirChoice {
    /// The one among those of other programs.
    Preferred,
    /// The one in the home directory.
    Fallback,
}

/// Decides on the data directory: the preferred one, unless it is there and cannot be written
/// to. `writable` is `None` where it is not there yet; the other two say whether the directory
/// for data of programs and the home directory are known.
pub fn resolve_data_dir(data_known: bool, writable: Option<bool>, home_known: bool) -> (res: Result<
    DataDirChoice,
    &'static str,
>)
    ensures
        match res {
            Ok(DataDirChoice::Preferred) => data_known && writable != Some(false),
            Ok(DataDirChoice::Fallback) => data_known && writable == Some(false) && home_known,
            Err(m) => if data_known {
                writable == Some(false) && !home_known && m@ == "Cannot determine home directory"@
            } else {
                m@ == "Cannot determine data directory"@
            },
        },
{
    if !data_known {
        return Err("Cannot determine data directory");
    }
    match writable {
        Some(false) => {
            if home_known {
                Ok(DataDirChoice::Fallback)
            } else {
                Err("Cannot determine home directory")
            }
        },
        _ => Ok(DataDirChoice::Preferred),
    }
}

/// Decides which directory is watched: the given one, else the home directory.
pub fn watch_root(given: Option<PathBuf>, home: Option<PathBuf>) -> (res: Result<
    PathBuf,
    &'static str,
>)
    ensures
        match res {
            Ok(p) => given == Some(p) || given is None && home == Some(p),
            Err(m) => given is None && home is None && m@ == "Cannot determine home directory"@,
        },
{
    match given {
        Some(p) => Ok(p),
        None => match home {
            Some(p) => Ok(p),
            None => Err("Cannot determine home directory"),
        },
    }
}

} // verus!
