//! A snapshot of a directory tree: which files there are, and how long each one is.

use crate::path::{path_hash, FilePath, PathView};
use std::collections::HashMap;
use std::path::PathBuf;
use vstd::prelude::*;

verus! {

/// `std::path::PathBuf`, carried along so that a file can be opened again. Nothing is claimed
/// of what it holds.
#[verifier::external_type_specification]
#[verifier::external_body]
pub struct ExPathBuf(PathBuf);

/// A file that was found: where it lies, its path in pieces and its length.
pub struct Entry {
    pub place: PathBuf,
    pub path: FilePath,
    pub size: u64,
}

/// What a pass of the watcher reads of an [`Entry`].
pub struct EntryView {
    pub path: PathView,
    pub size: u64,
}

impl View for Entry {
    type V = EntryView;

    open spec fn view(&self) -> EntryView {
        EntryView { path: self.path@, size: self.size }
    }
}

/// Whether a list of entries holds a file of path `p`.
pub open spec fn listed(list: Seq<EntryView>, p: PathView) -> bool {
    exists|i: int| 0 <= i < list.len() && (#[trigger] list[i]).path == p
}

/// Where in a list of entries the file of path `p` stands.
pub open spec fn position(list: Seq<EntryView>, p: PathView) -> int {
    choose|i: int| 0 <= i < list.len() && (#[trigger] list[i]).path == p
}

/// Whether no path occurs twice in a list of entries.
pub open spec fn distinct(list: Seq<EntryView>) -> bool {
    forall|i: int, j: int|
        0 <= i < j < list.len() ==> (#[trigger] list[i]).path != (#[trigger] list[j]).path
}

/// A list of entries with one more: in place of the one of the same path, or at the end.
pub open spec fn with_entry(list: Seq<EntryView>, e: EntryView) -> Seq<EntryView> {
    if listed(list, e.path) {
        list.update(position(list, e.path), e)
    } else {
        list.push(e)
    }
}

/// A list of entries as a map from paths to lengths.
pub open spec fn sizes(list: Seq<EntryView>) -> Map<PathView, u64> {
    Map::new(|p: PathView| listed(list, p), |p: PathView| list[position(list, p)].size)
}

/// The files of a directory tree at one moment. No path occurs twice.
pub struct Snapshot {
    entries: Vec<Entry>,
    index: HashMap<u64, Vec<usize>>,
}

impl View for Snapshot {
    type V = Map<PathView, u64>;

    open spec fn view(&self) -> Map<PathView, u64> {
        sizes(self.list())
    }
}

impl Snapshot {
    /// The files in the order in which they were first found.
    pub closed spec fn list(&self) -> Seq<EntryView> {
        self.entries@.map_values(|e: Entry| e@)
    }

    /// Where the files of [`Snapshot::list`] lie.
    pub closed spec fn places(&self) -> Seq<PathBuf> {
        self.entries@.map_values(|e: Entry| e.place)
    }

    /// The invariant: no path occurs twice, and the index finds every entry by its hash.
    pub closed spec fn wf(&self) -> bool {
        &&& distinct(self.list())
        &&& forall|i: int|
            0 <= i < self.entries@.len() ==> self.indexed(#[trigger] self.entries@[i].path@, i)
        &&& forall|h: u64, k: int|
            self.index@.contains_key(h) && 0 <= k < self.index@[h]@.len()
                ==> #[trigger] self.index@[h]@[k] < self.entries@.len()
    }

    spec fn indexed(&self, p: PathView, i: int) -> bool {
        &&& self.index@.contains_key(path_hash(p))
        &&& exists|k: int|
            0 <= k < self.index@[path_hash(p)]@.len() && #[trigger] self.index@[path_hash(p)]@[k]
                == i
    }

    /// A snapshot without files.
    pub fn new() -> (res: Snapshot)
        ensures
            res.wf(),
            res.list() == Seq::<EntryView>::empty(),
            res.places() == Seq::<PathBuf>::empty(),
            res@ == Map::<PathView, u64>::empty(),
    {
        broadcast use vstd::std_specs::hash::group_hash_axioms;

        let res = Snapshot { entries: Vec::new(), index: HashMap::new() };
        assert(res.list() =~= Seq::<EntryView>::empty());
        assert(res.places() =~= Seq::<PathBuf>::empty());
        assert(res@ =~= Map::<PathView, u64>::empty());
        res
    }

    /// How many files there are.
    pub fn len(&self) -> (res: usize)
        ensures
            res == self.list().len(),
    {
        self.entries.len()
    }

    /// The `i`-th file.
    pub fn get(&self, i: usize) -> (res: &Entry)
        requires
            i < self.list().len(),
        ensures
            res@ == self.list()[i as int],
            res.place == self.places()[i as int],
    {
        &self.entries[i]
    }

    /// Finds the file of a path.
    pub fn find(&self, path: &FilePath) -> (res: Option<usize>)
        requires
            self.wf(),
        ensures
            match res {
                Some(i) => i < self.list().len() && self.list()[i as int].path == path@,
                None => !listed(self.list(), path@),
            },
            res is Some == self@.contains_key(path@),
    {
        broadcast use vstd::std_specs::hash::group_hash_axioms;

        match self.index.get(&path.hash_code()) {
            Some(bucket) => {
                let mut k: usize = 0;
                while k < bucket.len()
                    invariant
                        self.wf(),
                        k <= bucket@.len(),
                        self.index@.contains_key(path_hash(path@)),
                        bucket@ == self.index@[path_hash(path@)]@,
                        forall|j: int|
                            0 <= j < k ==> self.entries@[#[trigger] bucket@[j] as int].path@
                                != path@,
                    decreases bucket@.len() - k,
                {
                    let i: usize = bucket[k];
                    assert(self.index@[path_hash(path@)]@[k as int] < self.entries@.len());
                    if self.entries[i].path.same(path) {
                        assert(self.list()[i as int].path == path@);
                        return Some(i);
                    }
                    k += 1;
                }
                assert(!listed(self.list(), path@)) by {
                    if listed(self.list(), path@) {
                        let i = position(self.list(), path@);
                        assert(self.entries@[i].path@ == path@);
                        assert(self.indexed(self.entries@[i].path@, i));
                    }
                }
                None
            },
            None => {
                assert(!listed(self.list(), path@)) by {
                    if listed(self.list(), path@) {
                        let i = position(self.list(), path@);
                        assert(self.entries@[i].path@ == path@);
                        assert(self.indexed(self.entries@[i].path@, i));
                    }
                }
                None
            },
        }
    }

    /// Records a file and its length. A path that is there already keeps its place and gets the
    /// new length.
    pub fn insert(&mut self, entry: Entry)
        requires
            old(self).wf(),
        ensures
            final(self).wf(),
            final(self)@ == old(self)@.insert(entry@.path, entry@.size),
            final(self).list() == with_entry(old(self).list(), entry@),
            final(self).places() == if listed(old(self).list(), entry@.path) {
                old(self).places()
            } else {
                old(self).places().push(entry.place)
            },
    {
        broadcast use vstd::std_specs::hash::group_hash_axioms;

        let ghost before = *self;
        let ghost p = entry@.path;
        match self.find(&entry.path) {
            Some(i) => {
                let size: u64 = entry.size;
                self.entries[i].size = size;
                proof {
                    let at = position(before.list(), p);
                    assert(before.list()[i as int].path == p);
                    assert(at == i);
                    assert(self.list() =~= before.list().update(at, entry@));
                    assert(self.places() =~= before.places());
                    lemma_sizes_update(before.list(), at, entry@);
                    assert forall|j: int| 0 <= j < self.entries@.len() implies self.indexed(
                        #[trigger] self.entries@[j].path@,
                        j,
                    ) by {
                        assert(self.entries@[j].path@ == before.entries@[j].path@);
                        assert(before.indexed(before.entries@[j].path@, j));
                        let h = path_hash(before.entries@[j].path@);
                        let k = choose|k: int|
                            0 <= k < before.index@[h]@.len() && #[trigger] before.index@[h]@[k]
                                == j;
                        assert(self.index@[h]@[k] == j);
                    }
                }
            },
            None => {
                let h: u64 = entry.path.hash_code();
                let n: usize = self.entries.len();
                let mut bucket: Vec<usize> = match self.index.remove(&h) {
                    Some(b) => b,
                    None => Vec::new(),
                };
                let ghost old_bucket = bucket@;
                bucket.push(n);
                self.index.insert(h, bucket);
                self.entries.push(entry);
                proof {
                    assert(self.list() =~= before.list().push(entry@));
                    assert(self.places() =~= before.places().push(entry.place));
                    lemma_sizes_push(before.list(), entry@);
                    assert forall|j: int| 0 <= j < self.entries@.len() implies self.indexed(
                        #[trigger] self.entries@[j].path@,
                        j,
                    ) by {
                        if j < n {
                            assert(self.entries@[j] == before.entries@[j]);
                            assert(before.indexed(before.entries@[j].path@, j));
                            let g = path_hash(before.entries@[j].path@);
                            let k = choose|k: int|
                                0 <= k < before.index@[g]@.len() && #[trigger] before.index@[g]@[k]
                                    == j;
                            if g == h {
                                assert(old_bucket == before.index@[g]@);
                                assert(self.index@[g]@[k] == j);
                            } else {
                                assert(self.index@[g]@[k] == j);
                            }
                        } else {
                            assert(self.index@[h]@[old_bucket.len() as int] == n);
                        }
                    }
                    assert forall|g: u64, k: int|
                        self.index@.contains_key(g) && 0 <= k
                            < self.index@[g]@.len() implies #[trigger] self.index@[g]@[k]
                        < self.entries@.len() by {
                        if g == h {
                            if k < old_bucket.len() {
                                assert(before.index@[g]@[k] < before.entries@.len());
                            }
                        } else {
                            assert(before.index@[g]@[k] < before.entries@.len());
                        }
                    }
                }
            },
        }
    }

    /// Records what a directory entry turned out to be, and says whether it is a directory to
    /// descend into. A directory is not recorded itself, nor is a file of unknown length.
    pub fn record(
        &mut self,
        place: PathBuf,
        path: FilePath,
        is_dir: bool,
        len: Option<u64>,
    ) -> (descend: bool)
        requires
            old(self).wf(),
        ensures
            final(self).wf(),
            descend == is_dir,
            final(self)@ == match (is_dir, len) {
                (false, Some(n)) => old(self)@.insert(path@, n),
                _ => old(self)@,
            },
            final(self).list() == match (is_dir, len) {
                (false, Some(n)) => with_entry(
                    old(self).list(),
                    EntryView { path: path@, size: n },
                ),
                _ => old(self).list(),
            },
            final(self).places() == if !is_dir && len is Some && !listed(old(self).list(), path@) {
                old(self).places().push(place)
            } else {
                old(self).places()
            },
    {
        if is_dir {
            return true;
        }
        match len {
            Some(size) => {
                self.insert(Entry { place, path, size });
            },
            None => {},
        }
        false
    }
}

proof fn lemma_sizes_update(list: Seq<EntryView>, at: int, e: EntryView)
    requires
        distinct(list),
        0 <= at < list.len(),
        list[at].path == e.path,
    ensures
        distinct(list.update(at, e)),
        sizes(list.update(at, e)) == sizes(list).insert(e.path, e.size),
{
    let new = list.update(at, e);
    assert forall|i: int, j: int| 0 <= i < j < new.len() implies (#[trigger] new[i]).path != (
    #[trigger] new[j]).path by {
        assert(list[i].path != list[j].path);
    }
    assert forall|p: PathView| listed(new, p) == (listed(list, p) || p == e.path) by {
        if listed(list, p) {
            let i = position(list, p);
            assert(new[i].path == p);
        }
        if listed(new, p) {
            let i = position(new, p);
            assert(list[i].path == p);
        }
        assert(new[at].path == e.path);
    }
    assert(sizes(new).dom() =~= sizes(list).insert(e.path, e.size).dom());
    assert forall|p: PathView| listed(new, p) implies sizes(new)[p] == sizes(list).insert(
        e.path,
        e.size,
    )[p] by {
        let i = position(new, p);
        assert(new[i].path == p);
        if p == e.path {
            assert(new[at].path == p);
            assert(i == at);
        } else {
            assert(list[i].path == p);
            let j = position(list, p);
            assert(list[j].path == p);
            assert(i == j);
        }
    }
    assert(sizes(new) =~= sizes(list).insert(e.path, e.size));
}

proof fn lemma_sizes_push(list: Seq<EntryView>, e: EntryView)
    requires
        distinct(list),
        !listed(list, e.path),
    ensures
        distinct(list.push(e)),
        sizes(list.push(e)) == sizes(list).insert(e.path, e.size),
{
    let new = list.push(e);
    assert forall|i: int, j: int| 0 <= i < j < new.len() implies (#[trigger] new[i]).path != (
    #[trigger] new[j]).path by {
        assert(list[i].path != e.path);
        if j < list.len() {
            assert(list[i].path != list[j].path);
        }
    }
    assert(new[list.len() as int].path == e.path);
    assert forall|p: PathView| listed(new, p) == (listed(list, p) || p == e.path) by {
        if listed(list, p) {
            assert(new[position(list, p)].path == p);
        }
        if listed(new, p) && p != e.path {
            assert(list[position(new, p)].path == p);
        }
    }
    assert forall|p: PathView| listed(new, p) implies sizes(new)[p] == sizes(list).insert(
        e.path,
        e.size,
    )[p] by {
        let i = position(new, p);
        assert(new[i].path == p);
        if p != e.path {
            assert(list[i].path == p);
            let j = position(list, p);
            assert(list[j].path == p);
            assert(i == j);
        } else if i < list.len() {
            assert(list[i].path == p);
        }
    }
    assert(sizes(new) =~= sizes(list).insert(e.path, e.size));
}

/// A snapshot lists each path at most once.
pub proof fn law_paths_are_distinct(s: Snapshot)
    requires
        s.wf(),
    ensures
        distinct(s.list()),
{
}

/// As a map, a snapshot has just the paths that it lists, each with the length that stands there.
pub proof fn law_a_snapshot_maps_its_paths_to_lengths(s: Snapshot)
    requires
        s.wf(),
    ensures
        forall|i: int|
            0 <= i < s.list().len() ==> s@.contains_key((#[trigger] s.list()[i]).path)
                && s@[s.list()[i].path] == s.list()[i].size,
        forall|p: PathView| #[trigger]
            s@.contains_key(p) ==> exists|i: int|
                0 <= i < s.list().len() && (#[trigger] s.list()[i]).path == p,
        forall|i: int, j: int|
            0 <= i < s.list().len() && 0 <= j < s.list().len() && (#[trigger] s.list()[i]).path == (
            #[trigger] s.list()[j]).path ==> i == j,
{
    let list = s.list();
    assert forall|i: int, j: int|
        0 <= i < list.len() && 0 <= j < list.len() && (#[trigger] list[i]).path == (
        #[trigger] list[j]).path implies i == j by {
        if i < j {
            assert(list[i].path != list[j].path);
        } else if j < i {
            assert(list[j].path != list[i].path);
        }
    }
    assert forall|i: int| 0 <= i < list.len() implies s@.contains_key((#[trigger] list[i]).path)
        && s@[list[i].path] == list[i].size by {
        let k = position(list, list[i].path);
        assert(listed(list, list[i].path));
        assert(list[k].path == list[i].path);
    }
}

} // verus!
