//! One pass of the watcher: what became of the files between two snapshots.
//!
//! A file that is gone and a file that is new are taken for one renamed file when they lie in
//! the same directory, have the same stem and the same length, and differ in their extension.
//! Renamed files that are numbered (`base.001.ext`) and share directory, base and new extension
//! are merged into one file; every other renamed file is handled by itself.

use crate::path::{piece_text, same_piece, text_or, OsText, OsTextView};
use crate::snapshot::{listed, Entry, EntryView, Snapshot};
use crate::text::{chars_of, parse_u32, parsed_u32, text_eq};
use vstd::prelude::*;
use vstd::string::*;

verus! {

/// How many milliseconds pass between two looks at the files.
pub const POLL_MILLIS: u64 = 500;

/// A renamed file: where it stood before, in the earlier snapshot, and where it stands now, in
/// the later one.
#[derive(Clone, Copy, Debug, PartialEq, Eq, Structural)]
pub struct Rename {
    pub from: usize,
    pub to: usize,
}

/// A renamed file with a number.
#[derive(Clone, Copy, Debug, PartialEq, Eq, Structural)]
pub struct Frame {
    pub from: usize,
    pub to: usize,
    pub number: u32,
}

/// Numbered files to be merged into `base.to_ext` in their directory.
#[derive(Debug)]
pub struct Merge {
    pub base: String,
    pub to_ext: String,
    pub frames: Vec<Frame>,
}

/// What is to be done after a pass.
#[derive(Debug)]
pub struct Plan {
    pub merges: Vec<Merge>,
    pub renames: Vec<Rename>,
}

/// What the files of one merge have in common.
pub struct GroupKey {
    pub parent: OsTextView,
    pub base: Seq<char>,
    pub ext: Seq<char>,
}

/// A renamed file, with the group it belongs to if it is numbered.
pub struct CandidateView {
    pub from: usize,
    pub to: usize,
    pub key: Option<GroupKey>,
    pub number: u32,
}

// ---------------------------------------------------------------------------
// Numbered stems
// ---------------------------------------------------------------------------

/// The base and the number of a stem: what stands before and after its last dot.
pub open spec fn numbered_text(s: Seq<char>) -> Option<(Seq<char>, u32)> {
    match s.index_of_last('.') {
        Some(dot) => match parsed_u32(s.skip(dot + 1)) {
            Some(n) => Some((s.take(dot), n)),
            None => None,
        },
        None => None,
    }
}

/// The base and the number of a stem; a stem that is not Unicode has none.
pub open spec fn numbered(stem: OsTextView) -> Option<(Seq<char>, u32)> {
    match stem {
        OsTextView::Unicode(s) => numbered_text(s),
        OsTextView::Other(_) => None,
    }
}

/// Splits a stem into its base and its number.
pub fn parse_sequence_stem(stem: &OsText) -> (res: Option<(String, u32)>)
    ensures
        match res {
            Some((base, n)) => numbered(stem@) == Some((base@, n)),
            None => numbered(stem@) is None,
        },
{
    match stem {
        OsText::Unicode(s) => {
            let chars = chars_of(s.as_str());
            let mut dot: usize = chars.len();
            while dot > 0 && chars[dot - 1] != '.'
                invariant
                    chars@ == s@,
                    dot <= chars@.len(),
                    forall|k: int| dot <= k < chars@.len() ==> chars@[k] != '.',
                decreases dot,
            {
                dot -= 1;
            }
            proof {
                s@.index_of_last_ensures('.');
            }
            if dot == 0 {
                return None;
            }
            assert(s@[dot - 1] == '.');
            match parse_u32(&chars, dot) {
                Some(n) => {
                    let base = s.as_str().substring_char(0, dot - 1).to_owned();
                    assert(base@ =~= s@.take(dot - 1));
                    Some((base, n))
                },
                None => None,
            }
        },
        OsText::Other(_) => None,
    }
}

// ---------------------------------------------------------------------------
// Renamed files
// ---------------------------------------------------------------------------

/// The positions of a list.
pub open spec fn positions(n: nat) -> Seq<usize> {
    Seq::new(n, |i: int| i as usize)
}

/// The positions in `list` of the files that `other` does not have.
pub open spec fn missing(list: Seq<EntryView>, other: Seq<EntryView>) -> Seq<usize> {
    positions(list.len()).filter(|i: usize| !listed(other, list[i as int].path))
}

/// Whether `to` looks like `from` under a new extension.
pub open spec fn renamed(from: EntryView, to: EntryView) -> bool {
    &&& from.size == to.size
    &&& from.path.parent == to.path.parent
    &&& from.path.stem == to.path.stem
    &&& from.path.ext != to.path.ext
}

/// The first of the files `gone` that looks like `to` under another extension.
pub open spec fn source_of(prev: Seq<EntryView>, gone: Seq<usize>, to: EntryView) -> Option<usize>
    decreases gone.len(),
{
    if gone.len() == 0 {
        None
    } else if renamed(prev[gone[0] as int], to) {
        Some(gone[0])
    } else {
        source_of(prev, gone.drop_first(), to)
    }
}

/// The group of a numbered file.
pub open spec fn group_of(to: EntryView) -> Option<GroupKey> {
    match numbered(to.path.stem) {
        Some((base, n)) => Some(
            GroupKey { parent: to.path.parent, base, ext: text_or(to.path.ext, ""@) },
        ),
        None => None,
    }
}

/// The number of a numbered file, 0 for any other.
pub open spec fn number_of(to: EntryView) -> u32 {
    match numbered(to.path.stem) {
        Some((base, n)) => n,
        None => 0,
    }
}

/// The new file at position `a` as a renamed file, if it is one.
pub open spec fn candidate(prev: Seq<EntryView>, curr: Seq<EntryView>, a: usize) -> Option<
    CandidateView,
> {
    match source_of(prev, missing(prev, curr), curr[a as int]) {
        Some(from) => Some(
            CandidateView {
                from,
                to: a,
                key: group_of(curr[a as int]),
                number: number_of(curr[a as int]),
            },
        ),
        None => None,
    }
}

/// All renamed files, in the order of the later snapshot.
pub open spec fn candidates(prev: Seq<EntryView>, curr: Seq<EntryView>) -> Seq<CandidateView> {
    missing(curr, prev).filter_map(|a: usize| candidate(prev, curr, a))
}

// ---------------------------------------------------------------------------
// Groups
// ---------------------------------------------------------------------------

/// The groups that occur, in the order in which they first do.
pub open spec fn keys(cs: Seq<CandidateView>) -> Seq<GroupKey>
    decreases cs.len(),
{
    if cs.len() == 0 {
        Seq::empty()
    } else {
        let before = keys(cs.drop_last());
        match cs.last().key {
            Some(k) => if before.contains(k) {
                before
            } else {
                before.push(k)
            },
            None => before,
        }
    }
}

/// A renamed file as a frame.
pub open spec fn as_frame(c: CandidateView) -> Frame {
    Frame { from: c.from, to: c.to, number: c.number }
}

/// The frames of a group.
pub open spec fn members(cs: Seq<CandidateView>, k: GroupKey) -> Seq<Frame> {
    cs.filter(|c: CandidateView| c.key == Some(k)).map_values(|c: CandidateView| as_frame(c))
}

/// The groups that are merged: those of at least two files.
pub open spec fn merge_keys(cs: Seq<CandidateView>) -> Seq<GroupKey> {
    keys(cs).filter(|k: GroupKey| members(cs, k).len() >= 2)
}

/// Whether a renamed file belongs to a merge.
pub open spec fn merged(cs: Seq<CandidateView>, c: CandidateView) -> bool {
    match c.key {
        Some(k) => members(cs, k).len() >= 2,
        None => false,
    }
}

/// The renamed files that are handled by themselves.
pub open spec fn singles(cs: Seq<CandidateView>) -> Seq<Rename> {
    cs.filter(|c: CandidateView| !merged(cs, c)).map_values(
        |c: CandidateView| Rename { from: c.from, to: c.to },
    )
}

/// The frames of one number.
pub open spec fn of_number(frames: Seq<Frame>, n: u32) -> Seq<Frame> {
    frames.filter(|f: Frame| f.number == n)
}

/// Whether the numbers of the frames do not decrease.
pub open spec fn ascending(frames: Seq<Frame>) -> bool {
    forall|i: int, j: int|
        0 <= i <= j < frames.len() ==> (#[trigger] frames[i]).number <= (
        #[trigger] frames[j]).number
}

/// Whether `res` holds the frames of `src` by ascending number, those of one number in the
/// order of `src`.
pub open spec fn arranged(res: Seq<Frame>, src: Seq<Frame>) -> bool {
    &&& ascending(res)
    &&& forall|n: u32| #[trigger] of_number(res, n) == of_number(src, n)
}

/// What a pass plans.
pub open spec fn is_plan(prev: Seq<EntryView>, curr: Seq<EntryView>, plan: Plan) -> bool {
    let cs = candidates(prev, curr);
    &&& plan.renames@ == singles(cs)
    &&& plan.merges@.len() == merge_keys(cs).len()
    &&& forall|j: int|
        0 <= j < plan.merges@.len() ==> is_merge(#[trigger] plan.merges@[j], cs, merge_keys(cs)[j])
}

/// Whether `m` merges the group of key `k`.
pub open spec fn is_merge(m: Merge, cs: Seq<CandidateView>, k: GroupKey) -> bool {
    &&& m.base@ == k.base
    &&& m.to_ext@ == k.ext
    &&& arranged(m.frames@, members(cs, k))
}

// ---------------------------------------------------------------------------
// The pass
// ---------------------------------------------------------------------------

struct Candidate {
    from: usize,
    to: usize,
    numbered: Option<(String, u32)>,
    ext: String,
}

struct Group {
    parent_of: usize,
    base: String,
    ext: String,
    frames: Vec<Frame>,
}

spec fn candidate_view(c: Candidate, curr: Seq<EntryView>) -> CandidateView {
    match c.numbered {
        Some((base, n)) => CandidateView {
            from: c.from,
            to: c.to,
            key: Some(
                GroupKey { parent: curr[c.to as int].path.parent, base: base@, ext: c.ext@ },
            ),
            number: n,
        },
        None => CandidateView { from: c.from, to: c.to, key: None, number: 0 },
    }
}

spec fn views(cs: Seq<Candidate>, curr: Seq<EntryView>) -> Seq<CandidateView> {
    cs.map_values(|c: Candidate| candidate_view(c, curr))
}

spec fn group_key(g: Group, curr: Seq<EntryView>) -> GroupKey {
    GroupKey { parent: curr[g.parent_of as int].path.parent, base: g.base@, ext: g.ext@ }
}

/// Whether `gs` are the groups of `cs`, in order.
spec fn are_groups(gs: Seq<Group>, cs: Seq<CandidateView>, curr: Seq<EntryView>) -> bool {
    &&& gs.len() == keys(cs).len()
    &&& forall|g: int|
        0 <= g < gs.len() ==> {
            &&& (#[trigger] gs[g]).parent_of < curr.len()
            &&& group_key(gs[g], curr) == keys(cs)[g]
            &&& gs[g].frames@ == members(cs, keys(cs)[g])
        }
}

fn is_renamed(from: &Entry, to: &Entry) -> (res: bool)
    ensures
        res == renamed(from@, to@),
{
    from.size == to.size && from.path.parent.same(&to.path.parent) && from.path.stem.same(
        &to.path.stem,
    ) && !same_piece(&from.path.ext, &to.path.ext)
}

fn find_missing(list: &Snapshot, other: &Snapshot) -> (res: Vec<usize>)
    requires
        other.wf(),
    ensures
        res@ == missing(list.list(), other.list()),
        forall|k: int| 0 <= k < res@.len() ==> #[trigger] res@[k] < list.list().len(),
{
    let ghost all = positions(list.list().len());
    let ghost gone = |i: usize| !listed(other.list(), list.list()[i as int].path);
    let mut res: Vec<usize> = Vec::new();
    let n: usize = list.len();
    let mut i: usize = 0;
    assert(all.take(0) =~= Seq::<usize>::empty());
    proof {
        reveal(Seq::filter);
    }
    while i < n
        invariant
            n == list.list().len(),
            other.wf(),
            i <= n,
            all == positions(list.list().len()),
            gone == (|i: usize| !listed(other.list(), list.list()[i as int].path)),
            res@ == all.take(i as int).filter(gone),
            forall|k: int| 0 <= k < res@.len() ==> #[trigger] res@[k] < n,
        decreases n - i,
    {
        proof {
            assert(all.take(i + 1) =~= all.take(i as int).push(i));
            all.take(i as int).lemma_filter_push(i, gone);
        }
        if other.find(&list.get(i).path).is_none() {
            res.push(i);
        }
        i += 1;
    }
    assert(all.take(n as int) =~= all);
    res
}

fn find_source(prev: &Snapshot, gone: &Vec<usize>, to: &Entry) -> (res: Option<usize>)
    requires
        forall|k: int| 0 <= k < gone@.len() ==> #[trigger] gone@[k] < prev.list().len(),
    ensures
        res == source_of(prev.list(), gone@, to@),
{
    let mut k: usize = 0;
    assert(gone@.skip(0) =~= gone@);
    while k < gone.len()
        invariant
            forall|k: int| 0 <= k < gone@.len() ==> #[trigger] gone@[k] < prev.list().len(),
            k <= gone@.len(),
            source_of(prev.list(), gone@, to@) == source_of(
                prev.list(),
                gone@.skip(k as int),
                to@,
            ),
        decreases gone@.len() - k,
    {
        let i: usize = gone[k];
        assert(gone@.skip(k as int)[0] == i);
        assert(gone@.skip(k as int).drop_first() =~= gone@.skip(k + 1));
        if is_renamed(prev.get(i), to) {
            return Some(i);
        }
        k += 1;
    }
    None
}

fn find_candidates(prev: &Snapshot, curr: &Snapshot) -> (res: Vec<Candidate>)
    requires
        prev.wf(),
        curr.wf(),
    ensures
        views(res@, curr.list()) == candidates(prev.list(), curr.list()),
        forall|k: int| 0 <= k < res@.len() ==> (#[trigger] res@[k]).to < curr.list().len(),
{
    let gone = find_missing(prev, curr);
    let new = find_missing(curr, prev);
    let ghost f = |a: usize| candidate(prev.list(), curr.list(), a);
    let mut res: Vec<Candidate> = Vec::new();
    let mut i: usize = 0;
    proof {
        assert(new@.take(0) =~= Seq::<usize>::empty());
        assert(new@.take(0).filter_map(f) =~= Seq::<CandidateView>::empty());
        assert(views(res@, curr.list()) =~= Seq::<CandidateView>::empty());
    }
    while i < new.len()
        invariant
            i <= new@.len(),
            gone@ == missing(prev.list(), curr.list()),
            new@ == missing(curr.list(), prev.list()),
            forall|k: int| 0 <= k < gone@.len() ==> #[trigger] gone@[k] < prev.list().len(),
            forall|k: int| 0 <= k < new@.len() ==> #[trigger] new@[k] < curr.list().len(),
            f == (|a: usize| candidate(prev.list(), curr.list(), a)),
            views(res@, curr.list()) == new@.take(i as int).filter_map(f),
            forall|k: int| 0 <= k < res@.len() ==> (#[trigger] res@[k]).to < curr.list().len(),
        decreases new@.len() - i,
    {
        let a: usize = new[i];
        proof {
            new@.lemma_filter_map_take_succ(f, i as int);
        }
        let to = curr.get(a);
        match find_source(prev, &gone, to) {
            Some(from) => {
                let ghost before = res@;
                let c = Candidate {
                    from,
                    to: a,
                    numbered: parse_sequence_stem(&to.path.stem),
                    ext: piece_text(&to.path.ext, ""),
                };
                assert(Some(candidate_view(c, curr.list())) == f(a));
                res.push(c);
                assert(views(res@, curr.list()) =~= views(before, curr.list()).push(
                    candidate_view(c, curr.list()),
                ));
            },
            None => {
                assert(f(a) is None);
            },
        }
        i += 1;
    }
    assert(new@.take(new@.len() as int) =~= new@);
    res
}

fn same_group(curr: &Snapshot, g: &Group, c: &Candidate) -> (res: bool)
    requires
        g.parent_of < curr.list().len(),
        c.to < curr.list().len(),
    ensures
        res == (candidate_view(*c, curr.list()).key == Some(group_key(*g, curr.list()))),
{
    match &c.numbered {
        Some((base, _)) => curr.get(g.parent_of).path.parent.same(&curr.get(c.to).path.parent)
            && text_eq(g.base.as_str(), base.as_str()) && text_eq(g.ext.as_str(), c.ext.as_str()),
        None => false,
    }
}

fn find_group(curr: &Snapshot, gs: &Vec<Group>, c: &Candidate) -> (res: Option<usize>)
    requires
        c.to < curr.list().len(),
        forall|g: int| 0 <= g < gs@.len() ==> (#[trigger] gs@[g]).parent_of < curr.list().len(),
    ensures
        match res {
            Some(g) => g < gs@.len() && candidate_view(*c, curr.list()).key == Some(
                group_key(gs@[g as int], curr.list()),
            ),
            None => forall|g: int|
                0 <= g < gs@.len() ==> candidate_view(*c, curr.list()).key != Some(
                    group_key(#[trigger] gs@[g], curr.list()),
                ),
        },
{
    let mut g: usize = 0;
    while g < gs.len()
        invariant
            g <= gs@.len(),
            c.to < curr.list().len(),
            forall|g: int|
                0 <= g < gs@.len() ==> (#[trigger] gs@[g]).parent_of < curr.list().len(),
            forall|h: int|
                0 <= h < g ==> candidate_view(*c, curr.list()).key != Some(
                    group_key(#[trigger] gs@[h], curr.list()),
                ),
        decreases gs@.len() - g,
    {
        if same_group(curr, &gs[g], c) {
            return Some(g);
        }
        g += 1;
    }
    None
}

proof fn lemma_members_push(cs: Seq<CandidateView>, c: CandidateView, k: GroupKey)
    ensures
        members(cs.push(c), k) == if c.key == Some(k) {
            members(cs, k).push(as_frame(c))
        } else {
            members(cs, k)
        },
{
    let p = |c: CandidateView| c.key == Some(k);
    cs.lemma_filter_push(c, p);
    if p(c) {
        assert(members(cs.push(c), k) =~= members(cs, k).push(as_frame(c)));
    }
}

proof fn lemma_keys_push(cs: Seq<CandidateView>, c: CandidateView)
    ensures
        keys(cs.push(c)) == match c.key {
            Some(k) => if keys(cs).contains(k) {
                keys(cs)
            } else {
                keys(cs).push(k)
            },
            None => keys(cs),
        },
{
    assert(cs.push(c).drop_last() =~= cs);
}

/// A group that does not occur has no frames.
proof fn lemma_no_members(cs: Seq<CandidateView>, k: GroupKey)
    requires
        !keys(cs).contains(k),
    ensures
        members(cs, k) == Seq::<Frame>::empty(),
    decreases cs.len(),
{
    if cs.len() == 0 {
        reveal(Seq::filter);
        assert(members(cs, k) =~= Seq::<Frame>::empty());
    } else {
        let before = cs.drop_last();
        assert(cs =~= before.push(cs.last()));
        lemma_keys_push(before, cs.last());
        lemma_members_push(before, cs.last(), k);
        assert(!keys(before).contains(k)) by {
            if keys(before).contains(k) {
                let i = choose|i: int| 0 <= i < keys(before).len() && keys(before)[i] == k;
                assert(keys(cs)[i] == k);
            }
        }
        if cs.last().key == Some(k) {
            assert(keys(cs)[keys(before).len() as int] == k);
        }
        lemma_no_members(before, k);
    }
}

fn make_groups(curr: &Snapshot, cs: &Vec<Candidate>) -> (res: Vec<Group>)
    requires
        forall|k: int| 0 <= k < cs@.len() ==> (#[trigger] cs@[k]).to < curr.list().len(),
    ensures
        are_groups(res@, views(cs@, curr.list()), curr.list()),
{
    let ghost all = views(cs@, curr.list());
    let mut gs: Vec<Group> = Vec::new();
    let mut i: usize = 0;
    assert(all.take(0) =~= Seq::<CandidateView>::empty());
    while i < cs.len()
        invariant
            i <= cs@.len(),
            all == views(cs@, curr.list()),
            forall|k: int| 0 <= k < cs@.len() ==> (#[trigger] cs@[k]).to < curr.list().len(),
            are_groups(gs@, all.take(i as int), curr.list()),
        decreases cs@.len() - i,
    {
        let ghost seen = all.take(i as int);
        let ghost c = all[i as int];
        let ghost before = gs@;
        proof {
            assert(all.take(i + 1) =~= seen.push(c));
            assert(c == candidate_view(cs@[i as int], curr.list()));
            lemma_keys_push(seen, c);
            assert forall|k: GroupKey| true implies #[trigger] members(seen.push(c), k) == if c.key
                == Some(k) {
                members(seen, k).push(as_frame(c))
            } else {
                members(seen, k)
            } by {
                lemma_members_push(seen, c, k);
            }
        }
        match &cs[i].numbered {
            Some((base, n)) => {
                let frame = Frame { from: cs[i].from, to: cs[i].to, number: *n };
                assert(frame == as_frame(c));
                match find_group(curr, &gs, &cs[i]) {
                    Some(g) => {
                        gs[g].frames.push(frame);
                        proof {
                            let k = c.key->0;
                            assert(keys(seen)[g as int] == k);
                            assert(keys(seen).contains(k));
                            lemma_keys_distinct(seen);
                            assert forall|h: int| 0 <= h < gs@.len() implies {
                                &&& (#[trigger] gs@[h]).parent_of < curr.list().len()
                                &&& group_key(gs@[h], curr.list()) == keys(seen.push(c))[h]
                                &&& gs@[h].frames@ == members(seen.push(c), keys(seen.push(c))[h])
                            } by {
                                assert(before[h].parent_of < curr.list().len());
                                if h != g {
                                    assert(gs@[h] == before[h]);
                                    assert(keys(seen)[h] != k);
                                }
                            }
                        }
                    },
                    None => {
                        let mut frames: Vec<Frame> = Vec::new();
                        frames.push(frame);
                        gs.push(
                            Group {
                                parent_of: cs[i].to,
                                base: base.clone(),
                                ext: cs[i].ext.clone(),
                                frames,
                            },
                        );
                        proof {
                            let k = c.key->0;
                            assert(!keys(seen).contains(k)) by {
                                if keys(seen).contains(k) {
                                    let h = choose|h: int|
                                        0 <= h < keys(seen).len() && keys(seen)[h] == k;
                                    assert(group_key(before[h], curr.list()) == k);
                                }
                            }
                            lemma_no_members(seen, k);
                            assert(frames@ =~= members(seen.push(c), k));
                            assert forall|h: int| 0 <= h < gs@.len() implies {
                                &&& (#[trigger] gs@[h]).parent_of < curr.list().len()
                                &&& group_key(gs@[h], curr.list()) == keys(seen.push(c))[h]
                                &&& gs@[h].frames@ == members(seen.push(c), keys(seen.push(c))[h])
                            } by {
                                if h < before.len() {
                                    assert(gs@[h] == before[h]);
                                    assert(keys(seen)[h] != k) by {
                                        if keys(seen)[h] == k {
                                            assert(keys(seen).contains(k));
                                        }
                                    }
                                }
                            }
                        }
                    },
                }
            },
            None => {
                assert forall|h: int| 0 <= h < gs@.len() implies {
                    &&& (#[trigger] gs@[h]).parent_of < curr.list().len()
                    &&& group_key(gs@[h], curr.list()) == keys(seen.push(c))[h]
                    &&& gs@[h].frames@ == members(seen.push(c), keys(seen.push(c))[h])
                } by {
                    assert(gs@[h] == before[h]);
                }
            },
        }
        i += 1;
    }
    assert(all.take(cs@.len() as int) =~= all);
    gs
}

/// No group occurs twice among the keys.
pub proof fn lemma_keys_distinct(cs: Seq<CandidateView>)
    ensures
        keys(cs).no_duplicates(),
    decreases cs.len(),
{
    if cs.len() > 0 {
        lemma_keys_distinct(cs.drop_last());
    }
}

/// Every group of a renamed file is among the keys.
pub proof fn lemma_key_occurs(cs: Seq<CandidateView>, i: int)
    requires
        0 <= i < cs.len(),
        cs[i].key is Some,
    ensures
        keys(cs).contains(cs[i].key->0),
    decreases cs.len(),
{
    let k = cs[i].key->0;
    let before = keys(cs.drop_last());
    if i < cs.len() - 1 {
        lemma_key_occurs(cs.drop_last(), i);
        let h = choose|h: int| 0 <= h < before.len() && before[h] == k;
        assert(keys(cs)[h] == k);
    } else if !before.contains(k) {
        assert(keys(cs)[before.len() as int] == k);
    }
}

proof fn lemma_insert_arranged(s: Seq<Frame>, src: Seq<Frame>, at: int, f: Frame)
    requires
        arranged(s, src),
        0 <= at <= s.len(),
        at > 0 ==> s[at - 1].number <= f.number,
        forall|k: int| at <= k < s.len() ==> f.number < (#[trigger] s[k]).number,
    ensures
        arranged(s.insert(at, f), src.push(f)),
{
    let res = s.insert(at, f);
    let head = s.take(at);
    let tail = s.skip(at);
    assert(s =~= head + tail);
    assert(res =~= head.push(f) + tail);
    assert forall|i: int, j: int| 0 <= i <= j < res.len() implies (#[trigger] res[i]).number <= (
    #[trigger] res[j]).number by {
        let i0 = if i > at { i - 1 } else { i };
        let j0 = if j > at { j - 1 } else { j };
        if i < at && j > at {
            assert(s[i].number <= s[j0].number);
        } else if i < at && j == at {
            assert(s[i].number <= s[at - 1].number);
        } else if i == at && j > at {
            assert(f.number < s[j0].number);
        } else if i < at && j < at {
            assert(s[i].number <= s[j].number);
        } else if i > at {
            assert(s[i0].number <= s[j0].number);
        }
    }
    assert forall|n: u32| #[trigger] of_number(res, n) == of_number(src.push(f), n) by {
        let p = |f: Frame| f.number == n;
        Seq::filter_distributes_over_add(head, tail, p);
        Seq::filter_distributes_over_add(head.push(f), tail, p);
        head.lemma_filter_push(f, p);
        src.lemma_filter_push(f, p);
        assert(of_number(s, n) == of_number(src, n));
        if f.number == n {
            assert(tail.filter(p).len() == 0) by {
                if tail.filter(p).len() > 0 {
                    tail.lemma_filter_pred(p, 0);
                    lemma_filter_from(tail, p, 0);
                }
            }
            assert(head.filter(p) + tail.filter(p) =~= head.filter(p));
            assert(head.filter(p).push(f) + tail.filter(p) =~= head.filter(p).push(f));
        }
    }
}

/// What a filter keeps was there before.
pub proof fn lemma_filter_from<A>(s: Seq<A>, p: spec_fn(A) -> bool, i: int)
    requires
        0 <= i < s.filter(p).len(),
    ensures
        exists|j: int| 0 <= j < s.len() && s[j] == s.filter(p)[i],
    decreases s.len(),
{
    reveal(Seq::filter);
    if s.len() > 0 {
        let before = s.drop_last().filter(p);
        if i < before.len() {
            lemma_filter_from(s.drop_last(), p, i);
            let j = choose|j: int| 0 <= j < s.drop_last().len() && s.drop_last()[j] == before[i];
            assert(s[j] == s.filter(p)[i]);
        } else {
            assert(s[s.len() - 1] == s.filter(p)[i]);
        }
    }
}

/// Sorts frames by number; frames of one number keep their order.
fn arrange(src: &Vec<Frame>) -> (res: Vec<Frame>)
    ensures
        arranged(res@, src@),
{
    let mut res: Vec<Frame> = Vec::new();
    let mut i: usize = 0;
    assert(src@.take(0) =~= res@);
    while i < src.len()
        invariant
            i <= src@.len(),
            arranged(res@, src@.take(i as int)),
        decreases src@.len() - i,
    {
        let f = src[i];
        let mut at: usize = res.len();
        while at > 0 && f.number < res[at - 1].number
            invariant
                at <= res@.len(),
                ascending(res@),
                forall|k: int| at <= k < res@.len() ==> f.number < (#[trigger] res@[k]).number,
            decreases at,
        {
            at -= 1;
        }
        proof {
            lemma_insert_arranged(res@, src@.take(i as int), at as int, f);
            assert(src@.take(i + 1) =~= src@.take(i as int).push(f));
        }
        res.insert(at, f);
        i += 1;
    }
    assert(src@.take(src@.len() as int) =~= src@);
    res
}

fn make_renames(curr: &Snapshot, cs: &Vec<Candidate>, gs: &Vec<Group>) -> (res: Vec<Rename>)
    requires
        forall|k: int| 0 <= k < cs@.len() ==> (#[trigger] cs@[k]).to < curr.list().len(),
        are_groups(gs@, views(cs@, curr.list()), curr.list()),
    ensures
        res@ == singles(views(cs@, curr.list())),
{
    let ghost all = views(cs@, curr.list());
    let ghost p = |c: CandidateView| !merged(all, c);
    let ghost f = |c: CandidateView| Rename { from: c.from, to: c.to };
    let mut res: Vec<Rename> = Vec::new();
    let mut i: usize = 0;
    proof {
        reveal(Seq::filter);
        assert(all.take(0) =~= Seq::<CandidateView>::empty());
        assert(all.take(0).filter(p).map_values(f) =~= Seq::<Rename>::empty());
    }
    while i < cs.len()
        invariant
            i <= cs@.len(),
            all == views(cs@, curr.list()),
            p == (|c: CandidateView| !merged(all, c)),
            f == (|c: CandidateView| Rename { from: c.from, to: c.to }),
            forall|k: int| 0 <= k < cs@.len() ==> (#[trigger] cs@[k]).to < curr.list().len(),
            are_groups(gs@, all, curr.list()),
            res@ == all.take(i as int).filter(p).map_values(f),
        decreases cs@.len() - i,
    {
        let ghost c = all[i as int];
        proof {
            assert(c == candidate_view(cs@[i as int], curr.list()));
            assert(all.take(i + 1) =~= all.take(i as int).push(c));
            all.take(i as int).lemma_filter_push(c, p);
            if c.key is Some {
                lemma_key_occurs(all, i as int);
            }
        }
        let alone = match find_group(curr, gs, &cs[i]) {
            Some(g) => gs[g].frames.len() < 2,
            None => {
                proof {
                    if c.key is Some {
                        let h = choose|h: int| 0 <= h < keys(all).len() && keys(all)[h] == c.key->0;
                        assert(group_key(gs@[h], curr.list()) == c.key->0);
                    }
                }
                true
            },
        };
        assert(alone == p(c));
        if alone {
            let ghost before = res@;
            res.push(Rename { from: cs[i].from, to: cs[i].to });
            assert(res@ =~= all.take(i + 1).filter(p).map_values(f));
        }
        i += 1;
    }
    assert(all.take(cs@.len() as int) =~= all);
    res
}

fn make_merges(gs: &Vec<Group>, Ghost(cs): Ghost<Seq<CandidateView>>, Ghost(curr): Ghost<Seq<EntryView>>) -> (res: Vec<Merge>)
    requires
        are_groups(gs@, cs, curr),
    ensures
        res@.len() == merge_keys(cs).len(),
        forall|j: int|
            0 <= j < res@.len() ==> is_merge(#[trigger] res@[j], cs, merge_keys(cs)[j]),
{
    let ghost ks = keys(cs);
    let ghost p = |k: GroupKey| members(cs, k).len() >= 2;
    let mut res: Vec<Merge> = Vec::new();
    let mut g: usize = 0;
    proof {
        reveal(Seq::filter);
        assert(ks.take(0) =~= Seq::<GroupKey>::empty());
    }
    while g < gs.len()
        invariant
            g <= gs@.len(),
            are_groups(gs@, cs, curr),
            ks == keys(cs),
            p == (|k: GroupKey| members(cs, k).len() >= 2),
            res@.len() == ks.take(g as int).filter(p).len(),
            forall|j: int|
                0 <= j < res@.len() ==> is_merge(
                    #[trigger] res@[j],
                    cs,
                    ks.take(g as int).filter(p)[j],
                ),
        decreases gs@.len() - g,
    {
        proof {
            assert(ks.take(g + 1) =~= ks.take(g as int).push(ks[g as int]));
            ks.take(g as int).lemma_filter_push(ks[g as int], p);
            assert(group_key(gs@[g as int], curr) == ks[g as int]);
        }
        if gs[g].frames.len() >= 2 {
            res.push(
                Merge {
                    base: gs[g].base.clone(),
                    to_ext: gs[g].ext.clone(),
                    frames: arrange(&gs[g].frames),
                },
            );
        }
        g += 1;
    }
    assert(ks.take(gs@.len() as int) =~= ks);
    res
}

/// Compares two snapshots and plans what is to be done.
pub fn run(prev: &Snapshot, curr: &Snapshot) -> (plan: Plan)
    requires
        prev.wf(),
        curr.wf(),
    ensures
        is_plan(prev.list(), curr.list(), plan),
{
    let cs = find_candidates(prev, curr);
    let gs = make_groups(curr, &cs);
    let renames = make_renames(curr, &cs, &gs);
    let merges = make_merges(
        &gs,
        Ghost(candidates(prev.list(), curr.list())),
        Ghost(curr.list()),
    );
    Plan { merges, renames }
}

} // verus!
