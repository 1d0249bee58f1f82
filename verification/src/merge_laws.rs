//! Laws of what is done about a sequence of renamed files.
//!
//! Runs are as for a single file: things to do may fail, and the laws hold for every run.

use crate::backup::is_random_id;
use crate::converter::{list_file, ConvertError};
use crate::converter_laws::law_the_place_of_a_frame_on_the_list;
use crate::merge::{
    is_frame_of, merge_next, merges_to_video, result_name, same_merge, MergeAction, MergeActionView,
    MergeEvent, MergeFrame, MergeStage, Merging, SequenceFile,
};
use crate::notifier::UserChoice;
use crate::path::OsText;
use crate::rename::Outcome;
use crate::watcher::numbered_text;
use crate::world::{
    backed_up, changes_only, copied, holds, recorded, same_file, with_record, without_file, Kept,
    World,
};
use vstd::prelude::*;

verus! {

/// The paths of a sequence, each list in the order of the files. The result lies in `dir`, the
/// backups in the directory of backups; both are given with the separator at their ends. The merge
/// itself makes the files of `made`: the result, and what is needed for it.
pub struct MergePaths {
    pub froms: Seq<Seq<char>>,
    pub tos: Seq<Seq<char>>,
    pub backup_dir: Seq<char>,
    pub backups: Seq<Seq<char>>,
    pub dir: Seq<char>,
    pub made: Set<Seq<char>>,
}

/// Whether no path occurs twice in a list.
pub open spec fn all_different(s: Seq<Seq<char>>) -> bool {
    forall|i: int, j: int| 0 <= i < s.len() && 0 <= j < s.len() && s[i] == s[j] ==> i == j
}

impl MergePaths {
    /// Whether these are the paths of a merge.
    pub open spec fn are_of(self, m: Merging) -> bool {
        &&& self.froms.len() == m.frames@.len()
        &&& self.tos.len() == m.frames@.len()
        &&& self.backups.len() == m.frames@.len()
        &&& forall|i: int|
            #![trigger m.frames@[i]]
            0 <= i < m.frames@.len() ==> {
                &&& self.froms[i] == m.frames@[i].from@
                &&& self.tos[i] == m.frames@[i].to@
                &&& self.backups[i] == self.backup_dir + m.frames@[i].backup_name@
            }
        &&& self.made.contains(self.dir + result_name(m))
    }

    /// The lists are as long as the sequence, and every path stands for a file of its own.
    pub open spec fn wf(self, n: nat) -> bool {
        &&& self.froms.len() == n
        &&& self.tos.len() == n
        &&& self.backups.len() == n
        &&& all_different(self.froms)
        &&& all_different(self.tos)
        &&& all_different(self.backups)
        &&& forall|i: int, j: int|
            0 <= i < n && 0 <= j < n ==> #[trigger] self.tos[i] != #[trigger] self.backups[j]
        &&& forall|i: int| 0 <= i < n ==> !self.made.contains(#[trigger] self.tos[i])
        &&& forall|i: int| 0 <= i < n ==> !self.made.contains(#[trigger] self.backups[i])
    }
}

/// A point of a run.
pub struct MergePoint {
    pub handler: Merging,
    pub action: MergeActionView,
    pub world: World,
}

/// Whether a thing to do, which went as `e` says, may turn the world `w` into `v`.
pub open spec fn merge_effect(
    s: MergePaths,
    a: MergeActionView,
    e: MergeEvent,
    w: World,
    v: World,
) -> bool {
    match a {
        MergeActionView::Backup { frame } => copied(
            w,
            v,
            s.tos[frame as int],
            s.backups[frame as int],
            e is Done,
        ),
        MergeActionView::InsertBackup { frame, orig_ext, new_ext } => recorded(
            w,
            v,
            s.froms[frame as int],
            s.backups[frame as int],
            orig_ext,
            new_ext,
            e is Done,
        ),
        MergeActionView::Prompt { from, dest, secs } => v == w,
        MergeActionView::Merge { video, to_ext, dest } => changes_only(w, v, s.made),
        MergeActionView::Remove { frame } => v == if e is Done {
            without_file(w, s.tos[frame as int])
        } else {
            w
        },
        MergeActionView::Finish { outcome } => v == w,
    }
}

/// Whether the point `q` follows the point `p` after the event `e`.
pub open spec fn merge_follows(s: MergePaths, p: MergePoint, e: MergeEvent, q: MergePoint) -> bool {
    &&& same_merge(q.handler, p.handler)
    &&& (q.handler.stage, q.action) == merge_next(p.handler, e)
    &&& merge_effect(s, p.action, e, p.world, q.world)
}

/// Whether the points are those of a run with the given events, from the first on.
pub open spec fn is_merge_run(
    s: MergePaths,
    points: Seq<MergePoint>,
    events: Seq<MergeEvent>,
) -> bool {
    &&& points.len() == events.len() + 1
    &&& points[0].handler.frames@.len() > 0
    &&& points[0].handler.stage == (MergeStage::BackingUp { frame: 0 })
    &&& points[0].action == (MergeActionView::Backup { frame: 0 })
    &&& s.are_of(points[0].handler)
    &&& s.wf(points[0].handler.frames@.len())
    &&& forall|i: int|
        0 <= i < events.len() ==> merge_follows(s, #[trigger] points[i], events[i], points[i + 1])
}

/// Whether every file of the sequence holds its bytes at the start.
pub open spec fn all_hold(s: MergePaths, w: World, bytes: Seq<Seq<u8>>) -> bool {
    &&& bytes.len() == s.tos.len()
    &&& forall|j: int| 0 <= j < s.tos.len() ==> holds(w, #[trigger] s.tos[j], bytes[j])
}

/// Whether the bytes of the file of index `j` are saved: its backup file holds them, and is on
/// record.
pub open spec fn frame_saved(s: MergePaths, w: World, bytes: Seq<Seq<u8>>, j: int) -> bool {
    holds(w, s.backups[j], bytes[j]) && backed_up(w, s.froms[j], s.backups[j])
}

/// Whether the bytes of every file are saved.
pub open spec fn all_saved(s: MergePaths, w: World, bytes: Seq<Seq<u8>>) -> bool {
    forall|j: int| 0 <= j < s.tos.len() ==> #[trigger] frame_saved(s, w, bytes, j)
}

spec fn merge_keeping(s: MergePaths, bytes: Seq<Seq<u8>>, p: MergePoint) -> bool {
    let n = s.tos.len();
    let w = p.world;
    &&& p.handler.frames@.len() == n
    &&& n > 0
    &&& match p.handler.stage {
        MergeStage::BackingUp { frame } => {
            &&& frame < n
            &&& p.action == (MergeActionView::Backup { frame })
            &&& all_hold(s, w, bytes)
            &&& forall|j: int| 0 <= j < frame ==> #[trigger] frame_saved(s, w, bytes, j)
        },
        MergeStage::Recording { frame } => {
            &&& frame < n
            &&& p.action matches MergeActionView::InsertBackup { frame: f, .. } && f == frame
            &&& all_hold(s, w, bytes)
            &&& holds(w, s.backups[frame as int], bytes[frame as int])
            &&& forall|j: int| 0 <= j < frame ==> #[trigger] frame_saved(s, w, bytes, j)
        },
        MergeStage::Asking => {
            &&& p.action is Prompt
            &&& all_hold(s, w, bytes)
            &&& all_saved(s, w, bytes)
        },
        MergeStage::Merging => {
            &&& p.action is Merge
            &&& all_hold(s, w, bytes)
            &&& all_saved(s, w, bytes)
        },
        MergeStage::Removing { frame } => {
            &&& frame < n
            &&& p.action == (MergeActionView::Remove { frame })
            &&& all_saved(s, w, bytes)
            &&& forall|j: int| frame <= j < n ==> holds(w, #[trigger] s.tos[j], bytes[j])
        },
        MergeStage::Ended => {
            &&& p.action is Finish
            &&& all_hold(s, w, bytes) || all_saved(s, w, bytes)
        },
    }
}

proof fn lemma_merge_step(
    s: MergePaths,
    bytes: Seq<Seq<u8>>,
    p: MergePoint,
    e: MergeEvent,
    q: MergePoint,
)
    requires
        s.wf(s.tos.len()),
        bytes.len() == s.tos.len(),
        merge_keeping(s, bytes, p),
        merge_follows(s, p, e, q),
    ensures
        merge_keeping(s, bytes, q),
        !(p.handler.stage is Removing) && !(p.handler.stage is Ended) && q.handler.stage is Ended
            ==> all_hold(s, q.world, bytes),
{
    let n = s.tos.len();
    let w = p.world;
    let v = q.world;
    assert(p.handler.frames.len() == n);
    assert forall|j: int| 0 <= j < n && p.handler.stage is Merging implies same_file(
        w,
        v,
        #[trigger] s.tos[j],
    ) && same_file(w, v, s.backups[j]) by {
        assert(!s.made.contains(s.tos[j]) && !s.made.contains(s.backups[j]));
    }
    if let MergeStage::BackingUp { frame } = p.handler.stage {
        let f = frame as int;
        assert forall|j: int| 0 <= j < n implies holds(v, #[trigger] s.tos[j], bytes[j]) by {
            assert(s.tos[j] != s.backups[f]);
            assert(changes_only(w, v, set![s.backups[f]]) ==> same_file(w, v, s.tos[j]));
        }
        assert forall|j: int| 0 <= j < frame && e is Done implies #[trigger] frame_saved(
            s,
            v,
            bytes,
            j,
        ) by {
            assert(frame_saved(s, w, bytes, j));
            assert(s.backups[j] != s.backups[f]);
        }
    }
    if let MergeStage::Recording { frame } = p.handler.stage {
        let f = frame as int;
        assert forall|j: int| 0 <= j <= frame && e is Done implies #[trigger] frame_saved(
            s,
            v,
            bytes,
            j,
        ) by {
            let (orig_ext, new_ext) = (p.action->orig_ext, p.action->new_ext);
            let id = choose|id: i64|
                v == #[trigger] with_record(
                    w,
                    s.froms[f],
                    Kept { id, path: s.backups[f], orig_ext, new_ext },
                );
            if j < f {
                assert(frame_saved(s, w, bytes, j));
                assert(s.froms[j] != s.froms[f]);
            }
        }
        assert(all_hold(s, v, bytes)) by {
            assert(v.files == w.files);
        }
    }
    if p.handler.stage is Merging {
        assert(all_saved(s, v, bytes)) by {
            assert forall|j: int| 0 <= j < n implies #[trigger] frame_saved(s, v, bytes, j) by {
                assert(frame_saved(s, w, bytes, j));
                assert(same_file(w, v, s.tos[j]) && same_file(w, v, s.backups[j]));
            }
        }
        assert(all_hold(s, v, bytes));
    }
    if let MergeStage::Removing { frame } = p.handler.stage {
        let f = frame as int;
        assert forall|j: int| 0 <= j < n implies #[trigger] frame_saved(s, v, bytes, j) by {
            assert(frame_saved(s, w, bytes, j));
            assert(s.tos[f] != s.backups[j]);
        }
        assert forall|j: int| frame < j < n implies holds(v, #[trigger] s.tos[j], bytes[j]) by {
            assert(holds(w, s.tos[j], bytes[j]));
            assert(s.tos[f] != s.tos[j]);
        }
    }
}

proof fn lemma_merge_keeping(
    s: MergePaths,
    points: Seq<MergePoint>,
    events: Seq<MergeEvent>,
    bytes: Seq<Seq<u8>>,
    i: int,
)
    requires
        is_merge_run(s, points, events),
        all_hold(s, points[0].world, bytes),
        0 <= i < points.len(),
    ensures
        merge_keeping(s, bytes, points[i]),
    decreases i,
{
    if i > 0 {
        lemma_merge_keeping(s, points, events, bytes, i - 1);
        assert(merge_follows(s, points[i - 1], events[i - 1], points[i]));
        lemma_merge_step(s, bytes, points[i - 1], events[i - 1], points[i]);
    }
}

/// No frame is ever lost. Whatever fails, at every point of a run each file of the sequence
/// still holds its bytes, or its backup file holds them and is on record for the old path.
pub proof fn law_no_frame_is_lost(
    s: MergePaths,
    points: Seq<MergePoint>,
    events: Seq<MergeEvent>,
    bytes: Seq<Seq<u8>>,
)
    requires
        is_merge_run(s, points, events),
        all_hold(s, points[0].world, bytes),
    ensures
        forall|i: int, j: int|
            #![trigger points[i], s.tos[j]]
            0 <= i < points.len() && 0 <= j < s.tos.len() ==> holds(
                points[i].world,
                s.tos[j],
                bytes[j],
            ) || frame_saved(s, points[i].world, bytes, j),
{
    assert forall|i: int, j: int|
        #![trigger points[i], s.tos[j]]
        0 <= i < points.len() && 0 <= j < s.tos.len() implies holds(
        points[i].world,
        s.tos[j],
        bytes[j],
    ) || frame_saved(s, points[i].world, bytes, j) by {
        lemma_merge_keeping(s, points, events, bytes, i);
        let w = points[i].world;
        assert(all_saved(s, w, bytes) ==> frame_saved(s, w, bytes, j));
    }
}

/// From the moment the user is asked, the bytes of every frame are saved for good.
pub proof fn law_frames_are_saved_before_asking(
    s: MergePaths,
    points: Seq<MergePoint>,
    events: Seq<MergeEvent>,
    bytes: Seq<Seq<u8>>,
    asked: int,
)
    requires
        is_merge_run(s, points, events),
        all_hold(s, points[0].world, bytes),
        0 <= asked < points.len(),
        points[asked].action is Prompt,
    ensures
        forall|i: int|
            asked <= i < points.len() ==> all_saved(s, (#[trigger] points[i]).world, bytes),
{
    assert forall|i: int| asked <= i < points.len() implies all_saved(
        s,
        (#[trigger] points[i]).world,
        bytes,
    ) by {
        lemma_saved_since(s, points, events, bytes, asked, i);
    }
}

proof fn lemma_saved_since(
    s: MergePaths,
    points: Seq<MergePoint>,
    events: Seq<MergeEvent>,
    bytes: Seq<Seq<u8>>,
    asked: int,
    i: int,
)
    requires
        is_merge_run(s, points, events),
        all_hold(s, points[0].world, bytes),
        0 <= asked <= i < points.len(),
        points[asked].action is Prompt,
    ensures
        all_saved(s, points[i].world, bytes),
        !(points[i].handler.stage is BackingUp),
        !(points[i].handler.stage is Recording),
    decreases i,
{
    lemma_merge_keeping(s, points, events, bytes, i);
    if i > asked {
        lemma_saved_since(s, points, events, bytes, asked, i - 1);
        lemma_merge_keeping(s, points, events, bytes, i - 1);
        let p = points[i - 1];
        let w = p.world;
        let v = points[i].world;
        assert(merge_follows(s, p, events[i - 1], points[i]));
        assert forall|j: int| 0 <= j < s.tos.len() implies #[trigger] frame_saved(
            s,
            v,
            bytes,
            j,
        ) by {
            assert(frame_saved(s, w, bytes, j));
            assert(!s.made.contains(s.backups[j]));
            assert(changes_only(w, v, s.made) ==> same_file(w, v, s.backups[j]));
            if let MergeStage::Removing { frame } = p.handler.stage {
                assert(s.tos[frame as int] != s.backups[j]);
            }
        }
    }
}

/// A frame is removed only when every frame is saved, the user has accepted and the merge has
/// succeeded.
pub proof fn law_frames_are_removed_last(
    s: MergePaths,
    points: Seq<MergePoint>,
    events: Seq<MergeEvent>,
    bytes: Seq<Seq<u8>>,
    i: int,
)
    requires
        is_merge_run(s, points, events),
        all_hold(s, points[0].world, bytes),
        0 <= i < points.len(),
        points[i].action is Remove,
    ensures
        all_saved(s, points[i].world, bytes),
        exists|j: int|
            #![trigger events[j]]
            0 < j < i && (events[j] matches MergeEvent::Merged(Ok(_))) && events[j - 1]
                == MergeEvent::Chosen(UserChoice::Accept),
    decreases i,
{
    lemma_merge_keeping(s, points, events, bytes, i);
    lemma_merge_keeping(s, points, events, bytes, i - 1);
    assert(merge_follows(s, points[i - 1], events[i - 1], points[i]));
    if points[i - 1].handler.stage is Removing {
        law_frames_are_removed_last(s, points, events, bytes, i - 1);
    } else {
        lemma_merge_keeping(s, points, events, bytes, i - 2);
        assert(merge_follows(s, points[i - 2], events[i - 2], points[i - 1]));
        assert(events[i - 1] matches MergeEvent::Merged(Ok(_)));
    }
}

/// A merge that does not come about leaves every frame as it is: where no frame was to be
/// removed yet, each of them still holds its bytes.
pub proof fn law_an_unmerged_sequence_keeps_its_files(
    s: MergePaths,
    points: Seq<MergePoint>,
    events: Seq<MergeEvent>,
    bytes: Seq<Seq<u8>>,
    i: int,
)
    requires
        is_merge_run(s, points, events),
        all_hold(s, points[0].world, bytes),
        0 <= i < points.len(),
        forall|k: int| 0 <= k <= i ==> !((#[trigger] points[k]).action is Remove),
    ensures
        all_hold(s, points[i].world, bytes),
    decreases i,
{
    lemma_merge_keeping(s, points, events, bytes, i);
    if i > 0 {
        law_an_unmerged_sequence_keeps_its_files(s, points, events, bytes, i - 1);
        lemma_merge_keeping(s, points, events, bytes, i - 1);
        assert(!(points[i - 1].action is Remove));
        assert(!(points[i].action is Remove));
        assert(merge_follows(s, points[i - 1], events[i - 1], points[i]));
        lemma_merge_step(s, bytes, points[i - 1], events[i - 1], points[i]);
    }
}

/// How many things are at most left to do.
spec fn merge_rank(m: Merging) -> int {
    let n = m.frames@.len() as int;
    match m.stage {
        MergeStage::BackingUp { frame } => n + 2 + 2 * (n - frame),
        MergeStage::Recording { frame } => n + 1 + 2 * (n - frame),
        MergeStage::Asking => n + 2,
        MergeStage::Merging => n + 1,
        MergeStage::Removing { frame } => n - frame,
        MergeStage::Ended => 0,
    }
}

proof fn lemma_merge_rank(
    s: MergePaths,
    points: Seq<MergePoint>,
    events: Seq<MergeEvent>,
    i: int,
)
    requires
        is_merge_run(s, points, events),
        0 <= i < points.len(),
    ensures
        points[i].handler.wf(),
        points[i].handler.frames == points[0].handler.frames,
        0 <= merge_rank(points[i].handler),
        merge_rank(points[i].handler) <= 3 * points[0].handler.frames@.len() + 2 - i
            || points[i].handler.stage is Ended,
    decreases i,
{
    if i > 0 {
        lemma_merge_rank(s, points, events, i - 1);
        let frames = points[i - 1].handler.frames;
        assert(frames.len() == frames@.len());
        assert(merge_follows(s, points[i - 1], events[i - 1], points[i]));
    }
}

/// Every run ends after at most three events for each file and two more, however they turn out.
pub proof fn law_every_merge_ends(
    s: MergePaths,
    points: Seq<MergePoint>,
    events: Seq<MergeEvent>,
    i: int,
)
    requires
        is_merge_run(s, points, events),
        3 * points[0].handler.frames@.len() + 2 <= i < points.len(),
    ensures
        points[i].handler.stage is Ended,
{
    lemma_merge_rank(s, points, events, i);
}

/// Where everything goes well, the run ends as merged, with every frame removed and saved.
pub proof fn law_a_merged_sequence_is_removed(
    s: MergePaths,
    points: Seq<MergePoint>,
    events: Seq<MergeEvent>,
    bytes: Seq<Seq<u8>>,
    i: int,
)
    requires
        is_merge_run(s, points, events),
        all_hold(s, points[0].world, bytes),
        0 <= i < points.len(),
        points[i].action == (MergeActionView::Finish { outcome: Outcome::Converted }),
        forall|k: int|
            0 <= k < i && (#[trigger] points[k]).action is Remove ==> events[k] is Done,
    ensures
        all_saved(s, points[i].world, bytes),
        forall|j: int|
            0 <= j < s.tos.len() ==> !points[i].world.files.contains_key(#[trigger] s.tos[j]),
{
    lemma_merge_keeping(s, points, events, bytes, i);
    assert(merge_follows(s, points[i - 1], events[i - 1], points[i]));
    lemma_merge_keeping(s, points, events, bytes, i - 1);
    lemma_removed(s, points, events, bytes, i - 1);
    assert(points[i - 1].action is Remove);
    let w = points[i - 1].world;
    let v = points[i].world;
    let f = s.tos.len() - 1;
    assert forall|j: int| 0 <= j < s.tos.len() implies !v.files.contains_key(
        #[trigger] s.tos[j],
    ) by {
        if j < f {
            assert(!w.files.contains_key(s.tos[j]));
        }
    }
    assert(all_saved(s, v, bytes)) by {
        assert forall|j: int| 0 <= j < s.tos.len() implies #[trigger] frame_saved(
            s,
            v,
            bytes,
            j,
        ) by {
            assert(frame_saved(s, w, bytes, j));
            assert(s.tos[f] != s.backups[j]);
        }
    }
}

proof fn lemma_removed(
    s: MergePaths,
    points: Seq<MergePoint>,
    events: Seq<MergeEvent>,
    bytes: Seq<Seq<u8>>,
    i: int,
)
    requires
        is_merge_run(s, points, events),
        all_hold(s, points[0].world, bytes),
        0 <= i < points.len(),
        forall|k: int|
            0 <= k < i && (#[trigger] points[k]).action is Remove ==> events[k] is Done,
    ensures
        points[i].handler.stage matches MergeStage::Removing { frame } ==> forall|j: int|
            0 <= j < frame ==> !points[i].world.files.contains_key(#[trigger] s.tos[j]),
    decreases i,
{
    if i > 0 {
        lemma_removed(s, points, events, bytes, i - 1);
        lemma_merge_keeping(s, points, events, bytes, i - 1);
        lemma_merge_keeping(s, points, events, bytes, i);
        assert(merge_follows(s, points[i - 1], events[i - 1], points[i]));
        let w = points[i - 1].world;
        let v = points[i].world;
        if let MergeStage::Removing { frame } = points[i].handler.stage {
            if points[i - 1].handler.stage is Removing {
                assert(points[i - 1].action is Remove);
                assert(v == without_file(w, s.tos[frame - 1]));
                assert forall|j: int| 0 <= j < frame implies !v.files.contains_key(
                    #[trigger] s.tos[j],
                ) by {
                    if j < frame - 1 {
                        assert(!w.files.contains_key(s.tos[j]));
                    }
                }
            }
        }
    }
}

/// The result of a merge is no file of the sequence: it has another name than each of them.
pub proof fn law_the_result_is_no_frame(m: Merging, stem: Seq<char>, number: u32)
    requires
        numbered_text(stem) == Some((m.base@, number)),
    ensures
        result_name(m) != stem + "."@ + m.to_ext@,
{
    stem.index_of_last_ensures('.');
    let name = stem + "."@ + m.to_ext@;
    assert(m.base@.len() < stem.len());
    assert(result_name(m).len() < name.len());
}

// ---------------------------------------------------------------------------
// The things to do, in order
// ---------------------------------------------------------------------------

/// Whether the file of index `k` is copied to its backup, and then put on record under its old
/// extension and with no new one.
pub open spec fn frame_backed_up(points: Seq<MergePoint>, k: int) -> bool {
    &&& points[2 * k].action == (MergeActionView::Backup { frame: k as usize })
    &&& points[2 * k + 1].action == (MergeActionView::InsertBackup {
        frame: k as usize,
        orig_ext: points[0].handler.frames@[k].from_ext@,
        new_ext: None,
    })
}

/// Whether the handler of `q`, with its thing to do, comes after that of `p`.
#[verifier::opaque]
spec fn steps_to(p: MergePoint, e: MergeEvent, q: MergePoint) -> bool {
    same_merge(q.handler, p.handler) && (q.handler.stage, q.action) == merge_next(p.handler, e)
}

spec fn are_steps(points: Seq<MergePoint>, events: Seq<MergeEvent>) -> bool {
    &&& points.len() == events.len() + 1
    &&& forall|i: int|
        0 <= i < events.len() ==> steps_to(#[trigger] points[i], events[i], points[i + 1])
}

proof fn lemma_are_steps(s: MergePaths, points: Seq<MergePoint>, events: Seq<MergeEvent>)
    requires
        is_merge_run(s, points, events),
    ensures
        are_steps(points, events),
{
    assert forall|i: int| 0 <= i < events.len() implies steps_to(
        #[trigger] points[i],
        events[i],
        points[i + 1],
    ) by {
        assert(merge_follows(s, points[i], events[i], points[i + 1]));
        reveal(steps_to);
    }
}

proof fn lemma_step(p: MergePoint, e: MergeEvent, q: MergePoint)
    requires
        steps_to(p, e, q),
    ensures
        same_merge(q.handler, p.handler),
        e is Done ==> (p.handler.stage matches MergeStage::BackingUp { frame } ==> {
            &&& q.handler.stage == (MergeStage::Recording { frame })
            &&& q.action == (MergeActionView::InsertBackup {
                frame,
                orig_ext: p.handler.frames@[frame as int].from_ext@,
                new_ext: None,
            })
        }),
        e is Done ==> (p.handler.stage matches MergeStage::Recording { frame } ==> if frame + 1
            < p.handler.frames@.len() {
            &&& q.handler.stage == (MergeStage::BackingUp { frame: (frame + 1) as usize })
            &&& q.action == (MergeActionView::Backup { frame: (frame + 1) as usize })
        } else {
            &&& q.handler.stage is Asking
            &&& q.action == (MergeActionView::Prompt {
                from: p.handler.base@ + ".001."@ + p.handler.first_ext@,
                dest: p.handler.base@ + "."@ + p.handler.to_ext@,
                secs: 30,
            })
        }),
        p.handler.stage is Asking ==> q.action == if e == MergeEvent::Chosen(UserChoice::Accept) {
            MergeActionView::Merge {
                video: names_merged_video(p.handler.to_ext@),
                to_ext: p.handler.to_ext@,
                dest: p.handler.base@ + "."@ + p.handler.to_ext@,
            }
        } else {
            MergeActionView::Finish { outcome: Outcome::Rejected }
        },
        p.handler.stage is Merging ==> match e {
            MergeEvent::Merged(Ok(_)) => {
                &&& q.handler.stage == (MergeStage::Removing { frame: 0 })
                &&& q.action == (MergeActionView::Remove { frame: 0 })
            },
            MergeEvent::Merged(Err(ConvertError::ToolNotFound(t))) => q.action == (
            MergeActionView::Finish { outcome: Outcome::ToolMissing(t) }),
            MergeEvent::Merged(Err(r)) => q.action == (MergeActionView::Finish {
                outcome: Outcome::ConversionFailed(r),
            }),
            _ => true,
        },
        p.handler.stage matches MergeStage::Removing { frame } ==> if frame + 1
            < p.handler.frames@.len() {
            &&& q.handler.stage == (MergeStage::Removing { frame: (frame + 1) as usize })
            &&& q.action == (MergeActionView::Remove { frame: (frame + 1) as usize })
        } else {
            q.action == (MergeActionView::Finish { outcome: Outcome::Converted })
        },
{
    reveal(steps_to);
    lemma_merged_video(p.handler.to_ext@);
}

proof fn lemma_same_merge(points: Seq<MergePoint>, events: Seq<MergeEvent>, i: int)
    requires
        are_steps(points, events),
        0 <= i < points.len(),
    ensures
        same_merge(points[i].handler, points[0].handler),
    decreases i,
{
    if i > 0 {
        lemma_same_merge(points, events, i - 1);
        lemma_step(points[i - 1], events[i - 1], points[i]);
    }
}

proof fn lemma_backing_up(points: Seq<MergePoint>, events: Seq<MergeEvent>, k: int)
    requires
        are_steps(points, events),
        points[0].handler.stage == (MergeStage::BackingUp { frame: 0 }),
        points[0].action == (MergeActionView::Backup { frame: 0 }),
        0 <= k < points[0].handler.frames@.len(),
        2 * k < events.len(),
        forall|i: int| 0 <= i < 2 * k + 1 ==> (#[trigger] events[i]) is Done,
    ensures
        points[2 * k].handler.stage == (MergeStage::BackingUp { frame: k as usize }),
        points[2 * k + 1].handler.stage == (MergeStage::Recording { frame: k as usize }),
        frame_backed_up(points, k),
    decreases k,
{
    let frames = points[0].handler.frames;
    assert(frames.len() == frames@.len());
    let i = 2 * k;
    if k > 0 {
        lemma_backing_up(points, events, k - 1);
        lemma_same_merge(points, events, i - 1);
        assert(events[i - 1] is Done);
        assert(points[2 * (k - 1) + 1] == points[i - 1]);
        lemma_step(points[i - 1], events[i - 1], points[i]);
    }
    lemma_same_merge(points, events, i);
    assert(events[i] is Done);
    lemma_step(points[i], events[i], points[i + 1]);
}

/// Whether files are merged into a video for an extension.
pub open spec fn names_merged_video(e: Seq<char>) -> bool {
    e == "mp4"@ || e == "webm"@ || e == "avi"@ || e == "mov"@ || e == "mkv"@
}

proof fn lemma_merged_video(e: Seq<char>)
    ensures
        merges_to_video(e) <==> names_merged_video(e),
{
    let v = seq!["mp4"@, "webm"@, "avi"@, "mov"@, "mkv"@];
    assert(v[0] == "mp4"@ && v[1] == "webm"@ && v[2] == "avi"@ && v[3] == "mov"@ && v[4] == "mkv"@);
}

/// Every file of a sequence, from the first to the last, is copied to its backup and put on record.
/// Then the user is asked for half a minute, with a name for the sequence and the name of the
/// result; and just where the user accepts, the files are merged under that name.
pub proof fn law_a_sequence_is_backed_up_and_asked_about(
    s: MergePaths,
    points: Seq<MergePoint>,
    events: Seq<MergeEvent>,
)
    requires
        is_merge_run(s, points, events),
        2 * points[0].handler.frames@.len() < events.len(),
        forall|i: int|
            0 <= i < 2 * points[0].handler.frames@.len() ==> (#[trigger] events[i]) is Done,
    ensures
        ({
            let h = points[0].handler;
            let n = h.frames@.len() as int;
            &&& forall|k: int| 0 <= k < n ==> #[trigger] frame_backed_up(points, k)
            &&& points[2 * n].action == (MergeActionView::Prompt {
                from: h.base@ + ".001."@ + h.first_ext@,
                dest: h.base@ + "."@ + h.to_ext@,
                secs: 30,
            })
            &&& if events[2 * n] == MergeEvent::Chosen(UserChoice::Accept) {
                points[2 * n + 1].action == (MergeActionView::Merge {
                    video: names_merged_video(h.to_ext@),
                    to_ext: h.to_ext@,
                    dest: h.base@ + "."@ + h.to_ext@,
                })
            } else {
                points[2 * n + 1].action == (MergeActionView::Finish {
                    outcome: Outcome::Rejected,
                })
            }
        }),
{
    let h = points[0].handler;
    let n = h.frames@.len() as int;
    lemma_are_steps(s, points, events);
    assert forall|k: int| 0 <= k < n implies #[trigger] frame_backed_up(points, k) by {
        lemma_backing_up(points, events, k);
    }
    lemma_asked(points, events);
}

proof fn lemma_asked(points: Seq<MergePoint>, events: Seq<MergeEvent>)
    requires
        are_steps(points, events),
        points[0].handler.frames@.len() > 0,
        points[0].handler.stage == (MergeStage::BackingUp { frame: 0 }),
        points[0].action == (MergeActionView::Backup { frame: 0 }),
        2 * points[0].handler.frames@.len() < events.len(),
        forall|i: int|
            0 <= i < 2 * points[0].handler.frames@.len() ==> (#[trigger] events[i]) is Done,
    ensures
        ({
            let h = points[0].handler;
            let n = h.frames@.len() as int;
            &&& points[2 * n].action == (MergeActionView::Prompt {
                from: h.base@ + ".001."@ + h.first_ext@,
                dest: h.base@ + "."@ + h.to_ext@,
                secs: 30,
            })
            &&& points[2 * n + 1].action == if events[2 * n] == MergeEvent::Chosen(
                UserChoice::Accept,
            ) {
                MergeActionView::Merge {
                    video: names_merged_video(h.to_ext@),
                    to_ext: h.to_ext@,
                    dest: h.base@ + "."@ + h.to_ext@,
                }
            } else {
                MergeActionView::Finish { outcome: Outcome::Rejected }
            }
        }),
{
    let h = points[0].handler;
    let n = h.frames@.len() as int;
    let i = 2 * n;
    assert(h.frames.len() == h.frames@.len());
    lemma_backing_up(points, events, n - 1);
    assert(2 * (n - 1) + 1 == i - 1);
    lemma_same_merge(points, events, i - 1);
    lemma_same_merge(points, events, i);
    assert(events[i - 1] is Done);
    lemma_step(points[i - 1], events[i - 1], points[i]);
    lemma_step(points[i], events[i], points[i + 1]);
}

/// Once the files are merged, each of them is removed, from the first to the last, and the run ends
/// as converted. Where they could not be merged, none is removed, and the run ends with the reason.
pub proof fn law_merged_files_are_removed_one_by_one(
    s: MergePaths,
    points: Seq<MergePoint>,
    events: Seq<MergeEvent>,
    i: int,
    result: Result<(), ConvertError>,
)
    requires
        is_merge_run(s, points, events),
        0 <= i,
        points[i].action is Merge,
        i + points[0].handler.frames@.len() < events.len(),
        events[i] == MergeEvent::Merged(result),
    ensures
        ({
            let n = points[0].handler.frames@.len() as int;
            match result {
                Ok(_) => {
                    &&& forall|k: int|
                        0 <= k < n ==> (#[trigger] points[i + 1 + k]).action == (
                        MergeActionView::Remove { frame: k as usize })
                    &&& points[i + 1 + n].action == (MergeActionView::Finish {
                        outcome: Outcome::Converted,
                    })
                },
                Err(ConvertError::ToolNotFound(t)) => points[i + 1].action == (
                MergeActionView::Finish { outcome: Outcome::ToolMissing(t) }),
                Err(e) => points[i + 1].action == (MergeActionView::Finish {
                    outcome: Outcome::ConversionFailed(e),
                }),
            }
        }),
{
    let n = points[0].handler.frames@.len() as int;
    lemma_are_steps(s, points, events);
    lemma_merge_stage(points, events, i);
    lemma_step(points[i], events[i], points[i + 1]);
    if result is Ok {
        assert forall|k: int| 0 <= k < n implies (#[trigger] points[i + 1 + k]).action == (
        MergeActionView::Remove { frame: k as usize }) by {
            lemma_removing(points, events, i, k);
        }
        lemma_all_removed(points, events, i);
    }
}

proof fn lemma_merge_stage(points: Seq<MergePoint>, events: Seq<MergeEvent>, i: int)
    requires
        are_steps(points, events),
        points[0].handler.stage == (MergeStage::BackingUp { frame: 0 }),
        points[0].action == (MergeActionView::Backup { frame: 0 }),
        0 <= i < points.len(),
    ensures
        points[i].action is Merge ==> points[i].handler.stage is Merging,
        points[i].action is Backup ==> points[i].handler.stage is BackingUp,
        points[i].action is InsertBackup ==> points[i].handler.stage is Recording,
{
    if i > 0 {
        assert(steps_to(points[i - 1], events[i - 1], points[i]));
        reveal(steps_to);
    }
}

proof fn lemma_all_removed(points: Seq<MergePoint>, events: Seq<MergeEvent>, i: int)
    requires
        are_steps(points, events),
        0 <= i,
        points[i].handler.stage is Merging,
        points[0].handler.frames@.len() > 0,
        i + points[0].handler.frames@.len() < events.len(),
        events[i] matches MergeEvent::Merged(Ok(_)),
    ensures
        points[i + 1 + points[0].handler.frames@.len()].action == (MergeActionView::Finish {
            outcome: Outcome::Converted,
        }),
{
    let n = points[0].handler.frames@.len() as int;
    assert(points[0].handler.frames.len() == n);
    lemma_removing(points, events, i, n - 1);
    lemma_same_merge(points, events, i + n);
    lemma_step(points[i + n], events[i + n], points[i + n + 1]);
}

proof fn lemma_removing(points: Seq<MergePoint>, events: Seq<MergeEvent>, i: int, k: int)
    requires
        are_steps(points, events),
        0 <= i,
        points[i].handler.stage is Merging,
        i + points[0].handler.frames@.len() < events.len(),
        events[i] matches MergeEvent::Merged(Ok(_)),
        0 <= k < points[0].handler.frames@.len(),
    ensures
        points[i + 1 + k].handler.stage == (MergeStage::Removing { frame: k as usize }),
        points[i + 1 + k].action == (MergeActionView::Remove { frame: k as usize }),
    decreases k,
{
    let frames = points[0].handler.frames;
    assert(frames.len() == frames@.len());
    if k > 0 {
        lemma_removing(points, events, i, k - 1);
    }
    lemma_same_merge(points, events, i + k);
    lemma_step(points[i + k], events[i + k], points[i + 1 + k]);
}

/// What is kept of a file of a sequence: its two paths, its old extension, or `bak` where it has
/// none that is Unicode, and a name for its backup, which has that extension after an identifier.
pub proof fn law_what_is_kept_of_a_file(frame: MergeFrame, file: SequenceFile)
    requires
        is_frame_of(frame, file),
    ensures
        frame.from@ == file.from@,
        frame.to@ == file.to@,
        file.from_ext matches Some(OsText::Unicode(e)) ==> frame.from_ext@ == e@,
        !(file.from_ext matches Some(OsText::Unicode(_))) ==> frame.from_ext@ == "bak"@,
        is_random_id(frame.backup_name@.take(36)),
        frame.backup_name@ == frame.backup_name@.take(36) + "."@ + frame.from_ext@,
{
}

/// Where a file of the sequence cannot be copied or put on record, the run ends as broken before
/// anyone is asked.
pub proof fn law_a_failed_backup_ends_the_merge(
    s: MergePaths,
    points: Seq<MergePoint>,
    events: Seq<MergeEvent>,
    i: int,
)
    requires
        is_merge_run(s, points, events),
        0 <= i < events.len(),
        !(events[i] is Done),
        points[i].action is Backup || points[i].action is InsertBackup,
    ensures
        points[i + 1].action == (MergeActionView::Finish { outcome: Outcome::Broken }),
{
    lemma_are_steps(s, points, events);
    lemma_merge_stage(points, events, i);
    assert(merge_follows(s, points[i], events[i], points[i + 1]));
}

/// What a thing to do says of itself is what it holds.
pub proof fn law_the_contents_of_a_merge_action(a: MergeAction)
    ensures
        match a {
            MergeAction::Backup { frame } => a@ == (MergeActionView::Backup { frame }),
            MergeAction::InsertBackup { frame, orig_ext, new_ext } => a@ == (
            MergeActionView::InsertBackup {
                frame,
                orig_ext: orig_ext@,
                new_ext: match new_ext {
                    Some(e) => Some(e@),
                    None => None,
                },
            }),
            MergeAction::Prompt { from, dest, secs } => a@ == (MergeActionView::Prompt {
                from: from@,
                dest: dest@,
                secs,
            }),
            MergeAction::Merge { video, to_ext, dest } => a@ == (MergeActionView::Merge {
                video,
                to_ext: to_ext@,
                dest: dest@,
            }),
            MergeAction::Remove { frame } => a@ == (MergeActionView::Remove { frame }),
            MergeAction::Finish { outcome } => a@ == (MergeActionView::Finish { outcome }),
        },
{
}

/// No frame is removed that the video was not made of: where the list is made of the new paths of the
/// files of a sequence, each file that is removed after the merge has its line on that list.
pub proof fn law_removed_frames_are_on_the_list(
    s: MergePaths,
    points: Seq<MergePoint>,
    events: Seq<MergeEvent>,
    i: int,
    paths: Seq<String>,
) -> (r: (Seq<char>, Seq<char>))
    requires
        is_merge_run(s, points, events),
        0 <= i < points.len(),
        points[i].action is Remove,
        paths.len() == s.tos.len(),
        forall|k: int| 0 <= k < paths.len() ==> (#[trigger] paths[k])@ == s.tos[k],
    ensures
        list_file(paths) == r.0 + "file '"@ + s.tos[points[i].action->Remove_frame as int]
            + "'\n"@ + r.1,
{
    lemma_are_steps(s, points, events);
    lemma_merge_rank(s, points, events, i);
    lemma_remove_stage(points, events, i);
    let k = points[i].action->Remove_frame as int;
    assert(paths[k]@ == s.tos[k]);
    let rest = law_the_place_of_a_frame_on_the_list(paths, k);
    (list_file(paths.take(k)), rest)
}

proof fn lemma_remove_stage(points: Seq<MergePoint>, events: Seq<MergeEvent>, i: int)
    requires
        are_steps(points, events),
        points[0].action == (MergeActionView::Backup { frame: 0 }),
        0 <= i < points.len(),
    ensures
        points[i].action matches MergeActionView::Remove { frame } ==> points[i].handler.stage == (
        MergeStage::Removing { frame }),
{
    if i > 0 {
        assert(steps_to(points[i - 1], events[i - 1], points[i]));
        reveal(steps_to);
    }
}

} // verus!
