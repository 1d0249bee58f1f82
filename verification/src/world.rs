//! A model of what the program acts on: the files, and the records of active backups.
//!
//! A path is modelled by its text. That a path has at most one active record is taken for granted
//! here: the database keeps it, by its unique index.

use vstd::prelude::*;

verus! {

/// A record of an active backup.
pub struct Kept {
    /// The number of the record.
    pub id: i64,
    /// The path of the backup file.
    pub path: Seq<char>,
    /// The extension that the file had.
    pub orig_ext: Seq<char>,
    /// The extension that it was converted to, once it was.
    pub new_ext: Option<Seq<char>>,
}

/// The files with their bytes, and for each path of a file that has one the record of its active
/// backup.
pub struct World {
    pub files: Map<Seq<char>, Seq<u8>>,
    pub active: Map<Seq<char>, Kept>,
}

/// Whether the file at a path is the same in both worlds.
pub open spec fn same_file(w: World, v: World, p: Seq<char>) -> bool {
    w.files.contains_key(p) == v.files.contains_key(p) && w.files[p] == v.files[p]
}

/// Whether the file at a path holds the given bytes.
pub open spec fn holds(w: World, p: Seq<char>, bytes: Seq<u8>) -> bool {
    w.files.contains_key(p) && w.files[p] == bytes
}

/// Whether the file at `backup` is recorded as the active backup of `path`.
pub open spec fn backed_up(w: World, path: Seq<char>, backup: Seq<char>) -> bool {
    w.active.contains_key(path) && w.active[path].path == backup
}

/// Whether `v` differs from `w` at most in the files at the given paths.
pub open spec fn changes_only(w: World, v: World, paths: Set<Seq<char>>) -> bool {
    &&& v.active == w.active
    &&& forall|p: Seq<char>| !paths.contains(p) ==> #[trigger] same_file(w, v, p)
}

/// The world with the bytes in the file at `p`.
pub open spec fn with_file(w: World, p: Seq<char>, bytes: Seq<u8>) -> World {
    World { files: w.files.insert(p, bytes), active: w.active }
}

/// The world without a file at `p`.
pub open spec fn without_file(w: World, p: Seq<char>) -> World {
    World { files: w.files.remove(p), active: w.active }
}

/// The world in which `k` is the record of the active backup of `path`.
pub open spec fn with_record(w: World, path: Seq<char>, k: Kept) -> World {
    World { files: w.files, active: w.active.insert(path, k) }
}

/// The world without the active record of the given number.
pub open spec fn without_record(w: World, id: i64) -> World {
    World {
        files: w.files,
        active: Map::new(
            |p: Seq<char>| w.active.contains_key(p) && w.active[p].id != id,
            |p: Seq<char>| w.active[p],
        ),
    }
}

/// Whether no two active records have the same number.
pub open spec fn distinct_records(w: World) -> bool {
    forall|p: Seq<char>, q: Seq<char>|
        #![trigger w.active[p], w.active[q]]
        w.active.contains_key(p) && w.active.contains_key(q) && w.active[p].id == w.active[q].id
            ==> p == q
}

/// The effect of copying the file at `src` to `dst`: a copy that fails may have spoiled `dst`.
pub open spec fn copied(w: World, v: World, src: Seq<char>, dst: Seq<char>, done: bool) -> bool {
    if done {
        w.files.contains_key(src) && v == with_file(w, dst, w.files[src])
    } else {
        changes_only(w, v, set![dst])
    }
}

/// The effect of recording the file at `backup` as the active backup of `path`, in place of any
/// that there was.
pub open spec fn recorded(
    w: World,
    v: World,
    path: Seq<char>,
    backup: Seq<char>,
    orig_ext: Seq<char>,
    new_ext: Option<Seq<char>>,
    done: bool,
) -> bool {
    if done {
        exists|id: i64|
            v == #[trigger] with_record(w, path, Kept { id, path: backup, orig_ext, new_ext })
    } else {
        v == w
    }
}

/// The world with a new extension in the active record of `path`, if there is one.
pub open spec fn with_new_ext(w: World, path: Seq<char>, ext: Seq<char>) -> World {
    if w.active.contains_key(path) {
        with_record(w, path, Kept { new_ext: Some(ext), ..w.active[path] })
    } else {
        w
    }
}

} // verus!
