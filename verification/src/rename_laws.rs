//! Laws of what is done about a renamed file.
//!
//! A run is what happens from the first thing to do on: at each point there is a thing to do,
//! its effect on the world, and how it went. Things to do may fail; the laws hold for every
//! run, whatever fails.

use crate::backup::{backup_file, is_random_id};
use crate::converter::{ConvertError, ConvertOutput};
use crate::db::BackupRow;
use crate::notifier::UserChoice;
use crate::rename::{
    backup_ext, next, same_rename, Action, ActionView, Event, Outcome, Renaming, Stage,
};
use crate::world::{
    backed_up, changes_only, copied, distinct_records, holds, recorded, same_file, with_file,
    with_new_ext, with_record, without_file, without_record, Kept, World,
};
use std::path::PathBuf;
use vstd::prelude::*;

verus! {

/// The paths of a rename. The backup lies in the directory of backups, which is given with the
/// separator at its end. What a conversion makes besides the file at the new path lies in `dest`.
pub struct Paths {
    pub from: Seq<char>,
    pub to: Seq<char>,
    pub backup_dir: Seq<char>,
    pub backup: Seq<char>,
    pub dest: Set<Seq<char>>,
}

impl Paths {
    /// Whether these are the paths of a rename.
    pub open spec fn are_of(self, r: Renaming) -> bool {
        &&& self.from == r.from@
        &&& self.to == r.to@
        &&& self.backup == self.backup_dir + r.backup_name@
    }

    /// The backup file is a file of its own, and a conversion makes its files elsewhere.
    pub open spec fn wf(self) -> bool {
        &&& self.backup != self.to
        &&& !self.dest.contains(self.backup)
        &&& !self.dest.contains(self.to)
    }

    /// Whether a file at `p` may be written in a run.
    pub open spec fn written(self, p: Seq<char>) -> bool {
        p == self.to || p == self.backup || self.dest.contains(p)
    }
}

/// A point of a run.
pub struct Point {
    pub handler: Renaming,
    pub action: ActionView,
    pub world: World,
}

/// Whether a thing to do, which went as `e` says, may turn the world `w` into `v`.
pub open spec fn effect(s: Paths, a: ActionView, e: Event, w: World, v: World) -> bool {
    match a {
        ActionView::FindBackup => {
            &&& v == w
            &&& e matches Event::Found(Some(row)) ==> {
                &&& w.active.contains_key(s.to)
                &&& w.active[s.to].id == row.id
                &&& w.active[s.to].path == row.backup_path@
                &&& w.active[s.to].orig_ext == row.original_ext@
            }
            &&& e matches Event::Found(None) ==> !w.active.contains_key(s.to)
        },
        ActionView::Restore { stored } => copied(w, v, stored, s.to, e is Done),
        ActionView::MarkRestored { id } => v == if e is Done {
            without_record(w, id)
        } else {
            w
        },
        ActionView::Backup => copied(w, v, s.to, s.backup, e is Done),
        ActionView::InsertBackup { orig_ext, new_ext } => recorded(
            w,
            v,
            s.from,
            s.backup,
            orig_ext,
            new_ext,
            e is Done,
        ),
        ActionView::Convert { from_ext, to_ext } => changes_only(w, v, s.dest),
        ActionView::Write { bytes } => if e is Done {
            v == with_file(w, s.to, bytes)
        } else {
            changes_only(w, v, set![s.to])
        },
        ActionView::Remove => v == if e is Done {
            without_file(w, s.to)
        } else {
            w
        },
        ActionView::Replace { out } => if e is Done {
            exists|p: Seq<char>|
                #![trigger w.files[p]]
                s.dest.contains(p) && w.files.contains_key(p) && v == without_file(
                    with_file(w, s.to, w.files[p]),
                    p,
                )
        } else {
            v == w
        },
        ActionView::Prompt { secs } => v == w,
        ActionView::SetNewExt { ext } => v == if e is Done {
            with_new_ext(w, s.from, ext)
        } else {
            w
        },
        ActionView::Notify { summary, body } => v == w,
        ActionView::Finish { outcome } => v == w,
    }
}

/// Whether the point `q` follows the point `p` after the event `e`.
pub open spec fn follows(s: Paths, p: Point, e: Event, q: Point) -> bool {
    &&& same_rename(q.handler, p.handler)
    &&& (q.handler.stage, q.action) == next(p.handler, e)
    &&& effect(s, p.action, e, p.world, q.world)
}

/// Whether the points are those of a run with the given events, from the first on.
pub open spec fn is_run(s: Paths, points: Seq<Point>, events: Seq<Event>) -> bool {
    &&& points.len() == events.len() + 1
    &&& s.are_of(points[0].handler)
    &&& points[0].handler.stage is Finding
    &&& points[0].action is FindBackup
    &&& forall|i: int|
        0 <= i < events.len() ==> follows(s, #[trigger] points[i], events[i], points[i + 1])
}

/// Whether the thing to do belongs to the stage.
spec fn fitting(stage: Stage, a: ActionView) -> bool {
    match stage {
        Stage::Finding => a is FindBackup,
        Stage::Restoring { id } => a is Restore,
        Stage::Marking => a is MarkRestored,
        Stage::BackingUp => a is Backup,
        Stage::Recording => a is InsertBackup,
        Stage::Asking => a is Prompt,
        Stage::Converting => a is Convert,
        Stage::Writing => a is Write,
        Stage::Removing => a is Remove,
        Stage::Replacing => a is Replace,
        Stage::Registering { frames } => a is SetNewExt,
        Stage::Telling { outcome } => a is Notify,
        Stage::Ended => a is Finish,
    }
}

proof fn lemma_fitting(s: Paths, points: Seq<Point>, events: Seq<Event>, i: int)
    requires
        is_run(s, points, events),
        0 <= i < points.len(),
    ensures
        fitting(points[i].handler.stage, points[i].action),
    decreases i,
{
    if i > 0 {
        lemma_fitting(s, points, events, i - 1);
        assert(follows(s, points[i - 1], events[i - 1], points[i]));
    }
}

/// How many things are at most left to do.
spec fn rank(stage: Stage) -> nat {
    match stage {
        Stage::Finding => 8,
        Stage::BackingUp => 7,
        Stage::Recording => 6,
        Stage::Asking => 5,
        Stage::Converting => 4,
        Stage::Restoring { id } => 3,
        Stage::Writing => 3,
        Stage::Removing => 3,
        Stage::Replacing => 3,
        Stage::Marking => 2,
        Stage::Registering { frames } => 2,
        Stage::Telling { outcome } => 1,
        Stage::Ended => 0,
    }
}

/// Every run ends after at most eight events, however they turn out.
pub proof fn law_every_run_ends(s: Paths, points: Seq<Point>, events: Seq<Event>)
    requires
        is_run(s, points, events),
    ensures
        forall|i: int|
            8 <= i < points.len() ==> (#[trigger] points[i]).handler.stage is Ended
                && points[i].action is Finish,
{
    assert forall|i: int| 8 <= i < points.len() implies (#[trigger] points[i]).handler.stage is Ended
        && points[i].action is Finish by {
        lemma_rank(s, points, events, i);
        lemma_fitting(s, points, events, i);
    }
}

proof fn lemma_rank(s: Paths, points: Seq<Point>, events: Seq<Event>, i: int)
    requires
        is_run(s, points, events),
        0 <= i < points.len(),
    ensures
        rank(points[i].handler.stage) <= if i <= 8 {
            8 - i
        } else {
            0
        },
    decreases i,
{
    if i > 0 {
        lemma_rank(s, points, events, i - 1);
        assert(follows(s, points[i - 1], events[i - 1], points[i]));
    }
}

/// Only the file at the new path, the backup file and what a conversion makes are ever written,
/// and only the records of the old and the new path are ever changed.
pub proof fn law_other_files_are_untouched(s: Paths, points: Seq<Point>, events: Seq<Event>)
    requires
        is_run(s, points, events),
        distinct_records(points[0].world),
    ensures
        forall|i: int, p: Seq<char>|
            0 <= i < points.len() && !s.written(p) ==> #[trigger] same_file(
                points[0].world,
                points[i].world,
                p,
            ),
        forall|i: int, p: Seq<char>|
            0 <= i < points.len() && p != s.from && p != s.to && points[0].world.active.contains_key(
                p,
            ) ==> #[trigger] points[i].world.active.contains_key(p)
                && points[i].world.active[p] == points[0].world.active[p],
{
    assert forall|i: int, p: Seq<char>|
        0 <= i < points.len() && !s.written(p) implies #[trigger] same_file(
        points[0].world,
        points[i].world,
        p,
    ) by {
        lemma_untouched(s, points, events, i, p);
    }
    assert forall|i: int, p: Seq<char>|
        0 <= i < points.len() && p != s.from && p != s.to && points[0].world.active.contains_key(
            p,
        ) implies #[trigger] points[i].world.active.contains_key(p)
        && points[i].world.active[p] == points[0].world.active[p] by {
        lemma_records(s, points, events, i, p);
    }
}

proof fn lemma_untouched(
    s: Paths,
    points: Seq<Point>,
    events: Seq<Event>,
    i: int,
    p: Seq<char>,
)
    requires
        is_run(s, points, events),
        0 <= i < points.len(),
        !s.written(p),
    ensures
        same_file(points[0].world, points[i].world, p),
    decreases i,
{
    if i > 0 {
        lemma_untouched(s, points, events, i - 1, p);
        assert(follows(s, points[i - 1], events[i - 1], points[i]));
        let w = points[i - 1].world;
        let v = points[i].world;
        assert(same_file(w, v, p));
    }
}

/// What is known of the records on the way to a restoration: nothing has been recorded yet.
spec fn restoring(s: Paths, w0: World, p: Point) -> bool {
    match p.handler.stage {
        Stage::Finding => p.world == w0,
        Stage::Restoring { id } => {
            &&& p.world.active == w0.active
            &&& w0.active.contains_key(s.to)
            &&& w0.active[s.to].id == id
            &&& p.action == ActionView::Restore { stored: w0.active[s.to].path }
        },
        Stage::Marking => {
            &&& p.world.active == w0.active
            &&& w0.active.contains_key(s.to)
            &&& p.action == ActionView::MarkRestored { id: w0.active[s.to].id }
        },
        _ => true,
    }
}

proof fn lemma_restoring(s: Paths, points: Seq<Point>, events: Seq<Event>, i: int)
    requires
        is_run(s, points, events),
        0 <= i < points.len(),
    ensures
        restoring(s, points[0].world, points[i]),
    decreases i,
{
    if i > 0 {
        lemma_restoring(s, points, events, i - 1);
        lemma_fitting(s, points, events, i - 1);
        assert(follows(s, points[i - 1], events[i - 1], points[i]));
    }
}

proof fn lemma_records(s: Paths, points: Seq<Point>, events: Seq<Event>, i: int, p: Seq<char>)
    requires
        is_run(s, points, events),
        distinct_records(points[0].world),
        0 <= i < points.len(),
        p != s.from,
        p != s.to,
        points[0].world.active.contains_key(p),
    ensures
        points[i].world.active.contains_key(p),
        points[i].world.active[p] == points[0].world.active[p],
    decreases i,
{
    if i > 0 {
        lemma_records(s, points, events, i - 1, p);
        lemma_restoring(s, points, events, i - 1);
        lemma_fitting(s, points, events, i - 1);
        assert(follows(s, points[i - 1], events[i - 1], points[i]));
        let w0 = points[0].world;
        assert(w0.active[p].id == w0.active[s.to].id && w0.active.contains_key(s.to) ==> p == s.to);
    }
}

/// Whether the run restores a file: an active backup of the new path was found.
pub open spec fn restores(events: Seq<Event>) -> bool {
    events.len() > 0 && (events[0] matches Event::Found(Some(_)))
}

/// Whether the bytes are saved: the backup file holds them, and is on record.
pub open spec fn saved(s: Paths, w: World, bytes: Seq<u8>) -> bool {
    holds(w, s.backup, bytes) && backed_up(w, s.from, s.backup)
}

spec fn keeping(s: Paths, w0: World, bytes: Seq<u8>, p: Point) -> bool {
    match p.handler.stage {
        Stage::Finding => p.world == w0,
        Stage::BackingUp => p.world == w0,
        Stage::Recording => {
            &&& p.world == with_file(w0, s.backup, bytes)
            &&& p.action == (ActionView::InsertBackup {
                orig_ext: p.handler.from_ext@,
                new_ext: None,
            })
        },
        Stage::Asking => {
            &&& saved(s, p.world, bytes)
            &&& exists|id: i64|
                p.world == #[trigger] with_record(
                    with_file(w0, s.backup, bytes),
                    s.from,
                    Kept { id, path: s.backup, orig_ext: p.handler.from_ext@, new_ext: None },
                )
        },
        Stage::Restoring { id } => false,
        Stage::Marking => false,
        Stage::Ended => holds(p.world, s.to, bytes) || saved(s, p.world, bytes),
        _ => saved(s, p.world, bytes),
    }
}

proof fn lemma_keeping(s: Paths, points: Seq<Point>, events: Seq<Event>, bytes: Seq<u8>, i: int)
    requires
        is_run(s, points, events),
        s.wf(),
        holds(points[0].world, s.to, bytes),
        !restores(events),
        0 <= i < points.len(),
    ensures
        keeping(s, points[0].world, bytes, points[i]),
    decreases i,
{
    if i > 0 {
        lemma_keeping(s, points, events, bytes, i - 1);
        lemma_fitting(s, points, events, i - 1);
        lemma_rank(s, points, events, i - 1);
        assert(follows(s, points[i - 1], events[i - 1], points[i]));
        let w = points[i - 1].world;
        let v = points[i].world;
        assert(changes_only(w, v, s.dest) ==> same_file(w, v, s.backup));
        assert(changes_only(w, v, set![s.to]) ==> same_file(w, v, s.backup));
        assert(changes_only(w, v, set![s.backup]) ==> same_file(w, v, s.to));
    }
}

/// The bytes of a renamed file are never lost. Whatever fails, at every point of a run that does
/// not restore a backup the file at the new path still holds them, or the backup file holds them and is on record for the old
/// path.
pub proof fn law_no_bytes_are_lost(
    s: Paths,
    points: Seq<Point>,
    events: Seq<Event>,
    bytes: Seq<u8>,
)
    requires
        is_run(s, points, events),
        s.wf(),
        holds(points[0].world, s.to, bytes),
        !restores(events),
    ensures
        forall|i: int|
            0 <= i < points.len() ==> holds((#[trigger] points[i]).world, s.to, bytes) || saved(
                s,
                points[i].world,
                bytes,
            ),
{
    assert forall|i: int| 0 <= i < points.len() implies holds(
        (#[trigger] points[i]).world,
        s.to,
        bytes,
    ) || saved(s, points[i].world, bytes) by {
        lemma_keeping(s, points, events, bytes, i);
    }
}

/// From the moment the user is asked, the bytes are saved for good.
pub proof fn law_bytes_are_saved_before_asking(
    s: Paths,
    points: Seq<Point>,
    events: Seq<Event>,
    bytes: Seq<u8>,
    asked: int,
)
    requires
        is_run(s, points, events),
        s.wf(),
        holds(points[0].world, s.to, bytes),
        !restores(events),
        0 <= asked < points.len(),
        points[asked].action is Prompt,
    ensures
        forall|i: int|
            asked <= i < points.len() ==> saved(s, (#[trigger] points[i]).world, bytes),
{
    assert forall|i: int| asked <= i < points.len() implies saved(
        s,
        (#[trigger] points[i]).world,
        bytes,
    ) by {
        lemma_saved_after(s, points, events, bytes, asked, i);
    }
}

proof fn lemma_saved_after(
    s: Paths,
    points: Seq<Point>,
    events: Seq<Event>,
    bytes: Seq<u8>,
    asked: int,
    i: int,
)
    requires
        is_run(s, points, events),
        s.wf(),
        holds(points[0].world, s.to, bytes),
        !restores(events),
        0 <= asked <= i < points.len(),
        points[asked].action is Prompt,
    ensures
        saved(s, points[i].world, bytes),
        rank(points[i].handler.stage) <= 5,
        !(points[i].handler.stage is Restoring),
        !(points[i].handler.stage is Marking),
    decreases i,
{
    lemma_keeping(s, points, events, bytes, i);
    lemma_fitting(s, points, events, i);
    if i > asked {
        lemma_saved_after(s, points, events, bytes, asked, i - 1);
        lemma_fitting(s, points, events, i - 1);
        assert(follows(s, points[i - 1], events[i - 1], points[i]));
        let w = points[i - 1].world;
        let v = points[i].world;
        assert(changes_only(w, v, s.dest) ==> same_file(w, v, s.backup));
        assert(changes_only(w, v, set![s.to]) ==> same_file(w, v, s.backup));
    }
}

/// A file that is renamed back gets back what its backup holds: where it has an active backup, and
/// the lookup, the copy and the record went well, the run ends with the bytes of the backup
/// at the new path, with the record closed, and with nothing else changed.
pub proof fn law_rename_back_restores(s: Paths, points: Seq<Point>, events: Seq<Event>)
    requires
        is_run(s, points, events),
        distinct_records(points[0].world),
        points[0].world.active.contains_key(s.to),
        events.len() >= 4,
        events[0] is Found,
        events[1] is Done,
        events[2] is Done,
    ensures
        ({
            let w0 = points[0].world;
            let k = w0.active[s.to];
            &&& w0.files.contains_key(k.path)
            &&& points[4].action == (ActionView::Finish { outcome: Outcome::Restored })
            &&& points[4].world.files == w0.files.insert(s.to, w0.files[k.path])
            &&& points[4].world.active == w0.active.remove(s.to)
        }),
{
    assert(follows(s, points[0], events[0], points[1]));
    assert(follows(s, points[1], events[1], points[2]));
    assert(follows(s, points[2], events[2], points[3]));
    assert(follows(s, points[3], events[3], points[4]));
    let w0 = points[0].world;
    assert(points[3].world.active =~= w0.active.remove(s.to));
}

spec fn putting_back(s: Paths, w0: World, p: Point) -> bool {
    let k = w0.active[s.to];
    match p.handler.stage {
        Stage::Finding => p.world == w0,
        Stage::Restoring { id } => p.world == w0 && p.action == (ActionView::Restore {
            stored: k.path,
        }),
        Stage::Marking => {
            &&& p.action is MarkRestored
            &&& p.world.active == w0.active
            &&& holds(p.world, s.to, w0.files[k.path])
        },
        Stage::Telling { outcome } => p.action is Notify && holds(
            p.world,
            s.to,
            w0.files[k.path],
        ),
        Stage::Ended => {
            &&& p.action is Finish
            &&& p.world.active == w0.active || holds(p.world, s.to, w0.files[k.path])
        },
        _ => false,
    }
}

proof fn lemma_putting_back(s: Paths, points: Seq<Point>, events: Seq<Event>, i: int)
    requires
        is_run(s, points, events),
        restores(events),
        0 <= i < points.len(),
    ensures
        putting_back(s, points[0].world, points[i]),
    decreases i,
{
    if i > 0 {
        lemma_putting_back(s, points, events, i - 1);
        lemma_fitting(s, points, events, i - 1);
        lemma_rank(s, points, events, i - 1);
        assert(follows(s, points[i - 1], events[i - 1], points[i]));
    }
}

/// A backup is not given up before the file is restored. Whatever fails, at every point of a run
/// that restores a backup the record of it is still active, or the file at the new path holds
/// the bytes of the backup; and the backup file itself is never changed.
pub proof fn law_a_backup_is_kept_until_the_file_is_restored(
    s: Paths,
    points: Seq<Point>,
    events: Seq<Event>,
)
    requires
        is_run(s, points, events),
        restores(events),
        !s.written(points[0].world.active[s.to].path),
    ensures
        ({
            let w0 = points[0].world;
            let k = w0.active[s.to];
            forall|i: int|
                0 <= i < points.len() ==> {
                    &&& same_file(w0, (#[trigger] points[i]).world, k.path)
                    &&& ({
                        ||| points[i].world.active == w0.active
                        ||| holds(points[i].world, s.to, w0.files[k.path])
                    })
                }
        }),
{
    let w0 = points[0].world;
    let k = w0.active[s.to];
    assert forall|i: int| 0 <= i < points.len() implies {
        &&& same_file(w0, (#[trigger] points[i]).world, k.path)
        &&& ({
            ||| points[i].world.active == w0.active
            ||| holds(points[i].world, s.to, w0.files[k.path])
        })
    } by {
        lemma_putting_back(s, points, events, i);
        lemma_untouched(s, points, events, i, k.path);
    }
}

/// A rename that the user rejects leaves the file as it is: the run has only made a backup and
/// put it on record.
pub proof fn law_a_rejected_rename_changes_no_file(
    s: Paths,
    points: Seq<Point>,
    events: Seq<Event>,
    bytes: Seq<u8>,
    i: int,
)
    requires
        is_run(s, points, events),
        s.wf(),
        holds(points[0].world, s.to, bytes),
        !restores(events),
        0 <= i < events.len(),
        points[i].action is Prompt,
        !(events[i] matches Event::Chosen(UserChoice::Accept)),
    ensures
        points[i + 1].action == (ActionView::Finish { outcome: Outcome::Rejected }),
        points[i + 1].world.files == points[0].world.files.insert(s.backup, bytes),
        holds(points[i + 1].world, s.to, bytes),
{
    lemma_keeping(s, points, events, bytes, i);
    lemma_fitting(s, points, events, i);
    assert(follows(s, points[i], events[i], points[i + 1]));
}

/// Whether the file at the new path is about to be overwritten, removed or converted.
pub open spec fn converts(a: ActionView) -> bool {
    a is Convert || a is Write || a is Remove || a is Replace
}

/// No file is converted, overwritten by a conversion or removed unless the user accepted.
pub proof fn law_nothing_is_converted_unasked(
    s: Paths,
    points: Seq<Point>,
    events: Seq<Event>,
    i: int,
)
    requires
        is_run(s, points, events),
        0 <= i < points.len(),
        converts(points[i].action),
    ensures
        exists|j: int|
            0 <= j < i && points[j].action is Prompt && (#[trigger] events[j]) == Event::Chosen(
                UserChoice::Accept,
            ),
    decreases i,
{
    lemma_fitting(s, points, events, i);
    assert(follows(s, points[i - 1], events[i - 1], points[i]));
    lemma_fitting(s, points, events, i - 1);
    if !(points[i].action is Convert) {
        law_nothing_is_converted_unasked(s, points, events, i - 1);
    } else {
        assert(events[i - 1] == Event::Chosen(UserChoice::Accept));
    }
}

/// Whether a conversion succeeded before the point of index `i`.
pub open spec fn converted_before(events: Seq<Event>, i: int) -> bool {
    exists|j: int|
        0 <= j < i && (#[trigger] events[j] matches Event::Converted { result, .. } && result is Ok)
}

/// The new extension of the record of the old path is set only after a conversion that succeeded,
/// and to the extension that the file was renamed to: from the moment the user is asked, the
/// record has no new extension unless there was one.
pub proof fn law_the_new_extension_is_set_after_a_conversion(
    s: Paths,
    points: Seq<Point>,
    events: Seq<Event>,
    bytes: Seq<u8>,
    asked: int,
    i: int,
)
    requires
        is_run(s, points, events),
        s.wf(),
        holds(points[0].world, s.to, bytes),
        !restores(events),
        0 <= asked <= i < points.len(),
        points[asked].action is Prompt,
    ensures
        points[i].world.active.contains_key(s.from),
        match points[i].world.active[s.from].new_ext {
            Some(ext) => ext == points[0].handler.to_ext@ && converted_before(events, i),
            None => true,
        },
{
    lemma_registering(s, points, events, bytes, asked, i);
}

/// Once a conversion has come to its end, the record of the old path has the new extension.
pub proof fn law_a_converted_file_is_registered(
    s: Paths,
    points: Seq<Point>,
    events: Seq<Event>,
    bytes: Seq<u8>,
    asked: int,
    i: int,
)
    requires
        is_run(s, points, events),
        s.wf(),
        holds(points[0].world, s.to, bytes),
        !restores(events),
        0 <= asked <= i < points.len(),
        points[asked].action is Prompt,
        points[i].action == (ActionView::Finish { outcome: Outcome::Converted })
            || points[i].action == (ActionView::Finish { outcome: Outcome::Extracted }),
    ensures
        points[i].world.active.contains_key(s.from),
        points[i].world.active[s.from].new_ext == Some(points[0].handler.to_ext@),
{
    lemma_registering(s, points, events, bytes, asked, i);
}

/// What is known of the record of the old path from the moment the user is asked, where
/// `converted` says whether a conversion has succeeded since.
spec fn registering(s: Paths, p: Point, ext: Seq<char>, converted: bool) -> bool {
    let k = p.world.active[s.from];
    let stage = p.handler.stage;
    &&& p.world.active.contains_key(s.from)
    &&& k.new_ext is None || k.new_ext == Some(ext) && converted
    &&& match stage {
        Stage::Asking => k.new_ext is None,
        Stage::Converting => k.new_ext is None,
        Stage::Writing => converted,
        Stage::Removing => converted,
        Stage::Replacing => converted,
        Stage::Registering { frames } => converted && p.action == (ActionView::SetNewExt { ext }),
        Stage::Telling { outcome } => {
            &&& !(outcome is Converted)
            &&& outcome is Extracted ==> k.new_ext == Some(ext)
        },
        Stage::Ended => p.action == (ActionView::Finish { outcome: Outcome::Converted })
            || p.action == (ActionView::Finish { outcome: Outcome::Extracted }) ==> k.new_ext
            == Some(ext),
        _ => false,
    }
}

proof fn lemma_registering_step(
    s: Paths,
    p: Point,
    e: Event,
    q: Point,
    before: bool,
    after: bool,
)
    requires
        registering(s, p, p.handler.to_ext@, before),
        fitting(p.handler.stage, p.action),
        follows(s, p, e, q),
        after == (before || (e matches Event::Converted { result, .. } && result is Ok)),
    ensures
        registering(s, q, p.handler.to_ext@, after),
{
    let w = p.world;
    let v = q.world;
    if !(p.handler.stage is Registering) {
        assert(v.active == w.active);
    }
}

proof fn lemma_registering(
    s: Paths,
    points: Seq<Point>,
    events: Seq<Event>,
    bytes: Seq<u8>,
    asked: int,
    i: int,
)
    requires
        is_run(s, points, events),
        s.wf(),
        holds(points[0].world, s.to, bytes),
        !restores(events),
        0 <= asked <= i < points.len(),
        points[asked].action is Prompt,
    ensures
        registering(s, points[i], points[0].handler.to_ext@, converted_before(events, i)),
        fitting(points[i].handler.stage, points[i].action),
    decreases i,
{
    lemma_fitting(s, points, events, i);
    if i > asked {
        let p = points[i - 1];
        let e = events[i - 1];
        lemma_registering(s, points, events, bytes, asked, i - 1);
        lemma_fitting(s, points, events, i - 1);
        lemma_same(s, points, events, i - 1);
        assert(follows(s, p, e, points[i]));
        let before = converted_before(events, i - 1);
        let after = converted_before(events, i);
        assert(after == (before || (e matches Event::Converted { result, .. } && result is Ok))) by {
            if after {
                let j = choose|j: int|
                    0 <= j < i && (#[trigger] events[j] matches Event::Converted { result, .. }
                        && result is Ok);
                assert(j < i - 1 ==> before);
            }
        }
        lemma_registering_step(s, p, e, points[i], before, after);
    } else {
        lemma_keeping(s, points, events, bytes, i);
    }
}

proof fn lemma_same(s: Paths, points: Seq<Point>, events: Seq<Event>, i: int)
    requires
        is_run(s, points, events),
        0 <= i < points.len(),
    ensures
        same_rename(points[i].handler, points[0].handler),
    decreases i,
{
    if i > 0 {
        lemma_same(s, points, events, i - 1);
        assert(follows(s, points[i - 1], events[i - 1], points[i]));
    }
}

/// A converted file comes back as it was. Where a file was renamed and the user was asked about
/// it, whatever came of that, and it is renamed back later, with its backup and the record of it
/// still there, then the second run gives the old path the bytes that the first run met.
pub proof fn law_a_converted_file_comes_back(
    s: Paths,
    points: Seq<Point>,
    events: Seq<Event>,
    bytes: Seq<u8>,
    asked: int,
    i: int,
    back: Paths,
    back_points: Seq<Point>,
    back_events: Seq<Event>,
)
    requires
        is_run(s, points, events),
        s.wf(),
        holds(points[0].world, s.to, bytes),
        !restores(events),
        0 <= asked <= i < points.len(),
        points[asked].action is Prompt,
        back.to == s.from,
        is_run(back, back_points, back_events),
        distinct_records(back_points[0].world),
        same_file(points[i].world, back_points[0].world, s.backup),
        back_points[0].world.active.contains_key(s.from),
        back_points[0].world.active[s.from] == points[i].world.active[s.from],
        back_events.len() >= 4,
        back_events[0] is Found,
        back_events[1] is Done,
        back_events[2] is Done,
    ensures
        back_points[4].action == (ActionView::Finish { outcome: Outcome::Restored }),
        holds(back_points[4].world, s.from, bytes),
        !back_points[4].world.active.contains_key(s.from),
{
    law_bytes_are_saved_before_asking(s, points, events, bytes, asked);
    assert(saved(s, points[i].world, bytes));
    law_rename_back_restores(back, back_points, back_events);
}

// ---------------------------------------------------------------------------
// The things to do, in order
// ---------------------------------------------------------------------------

/// Whether the thing to do is the end, with this outcome.
pub open spec fn finishes(a: ActionView, outcome: Outcome) -> bool {
    a == (ActionView::Finish { outcome })
}

/// A file that is not renamed back is copied to its backup, put on record under its old extension
/// and with no new one, and asked about for half a minute; it is converted, from the old extension
/// to the new one, just where the user accepts.
pub proof fn law_a_rename_is_backed_up_recorded_and_asked_about(
    s: Paths,
    points: Seq<Point>,
    events: Seq<Event>,
)
    requires
        is_run(s, points, events),
        events.len() >= 4,
        !(events[0] matches Event::Found(Some(_))),
        events[1] is Done,
        events[2] is Done,
    ensures
        points[1].action == ActionView::Backup,
        points[2].action == (ActionView::InsertBackup {
            orig_ext: points[0].handler.from_ext@,
            new_ext: None,
        }),
        points[3].action == (ActionView::Prompt { secs: 30 }),
        events[3] == Event::Chosen(UserChoice::Accept) ==> points[4].action == (
        ActionView::Convert {
            from_ext: points[0].handler.from_ext@,
            to_ext: points[0].handler.to_ext@,
        }),
        events[3] != Event::Chosen(UserChoice::Accept) ==> finishes(
            points[4].action,
            Outcome::Rejected,
        ),
{
    assert(follows(s, points[0], events[0], points[1]));
    assert(follows(s, points[1], events[1], points[2]));
    assert(follows(s, points[2], events[2], points[3]));
    assert(follows(s, points[3], events[3], points[4]));
}

/// A file that is renamed back is overwritten by the backup that was found, the record of that
/// backup is marked, and the user is told.
pub proof fn law_a_rename_back_is_undone(s: Paths, points: Seq<Point>, events: Seq<Event>, row: BackupRow)
    requires
        is_run(s, points, events),
        events.len() >= 4,
        events[0] == Event::Found(Some(row)),
        events[1] is Done,
        events[2] is Done,
    ensures
        points[1].action == (ActionView::Restore { stored: row.backup_path@ }),
        points[2].action == (ActionView::MarkRestored { id: row.id }),
        points[3].action == (ActionView::Notify {
            summary: "PowerEXT: file restored"@,
            body: "Restored "@ + points[0].handler.to@,
        }),
        finishes(points[4].action, Outcome::Restored),
{
    assert(follows(s, points[0], events[0], points[1]));
    assert(follows(s, points[1], events[1], points[2]));
    assert(follows(s, points[2], events[2], points[3]));
    assert(follows(s, points[3], events[3], points[4]));
}

/// A conversion that gives a single file has its bytes, all of them, written to the new path; then
/// the new extension is recorded, and the file counts as converted.
pub proof fn law_the_converted_bytes_are_written(
    s: Paths,
    points: Seq<Point>,
    events: Seq<Event>,
    i: int,
    bytes: Vec<u8>,
    in_place: bool,
)
    requires
        is_run(s, points, events),
        0 <= i,
        i + 2 < events.len(),
        points[i].action is Convert,
        events[i] == (Event::Converted { result: Ok(ConvertOutput::SingleFile(bytes)), in_place }),
        events[i + 1] is Done,
        events[i + 2] is Done,
    ensures
        points[i + 1].action == (ActionView::Write { bytes: bytes@ }),
        holds(points[i + 2].world, s.to, bytes@),
        points[i + 2].action == (ActionView::SetNewExt { ext: points[0].handler.to_ext@ }),
        holds(points[i + 3].world, s.to, bytes@),
        finishes(points[i + 3].action, Outcome::Converted),
{
    lemma_fitting(s, points, events, i);
    lemma_same(s, points, events, i);
    assert(follows(s, points[i], events[i], points[i + 1]));
    assert(follows(s, points[i + 1], events[i + 1], points[i + 2]));
    assert(follows(s, points[i + 2], events[i + 2], points[i + 3]));
}

proof fn lemma_after_the_end(s: Paths, points: Seq<Point>, events: Seq<Event>, i: int, k: int)
    requires
        is_run(s, points, events),
        0 <= i < k < points.len(),
        points[i].handler.stage is Ended,
    ensures
        points[k].handler.stage is Ended,
        finishes(points[k].action, Outcome::Broken),
    decreases k,
{
    if k > i + 1 {
        lemma_after_the_end(s, points, events, i, k - 1);
    }
    assert(follows(s, points[k - 1], events[k - 1], points[k]));
}

/// Where a run ends with a converted file, and what the conversion gave was a single file, the file
/// at the new path holds just the bytes of that, whatever else happened.
pub proof fn law_a_converted_file_holds_the_result(
    s: Paths,
    points: Seq<Point>,
    events: Seq<Event>,
    i: int,
    bytes: Vec<u8>,
    in_place: bool,
    end: int,
)
    requires
        is_run(s, points, events),
        0 <= i < events.len(),
        points[i].action is Convert,
        events[i] == (Event::Converted { result: Ok(ConvertOutput::SingleFile(bytes)), in_place }),
        0 <= end < points.len(),
        finishes(points[end].action, Outcome::Converted),
    ensures
        holds(points[end].world, s.to, bytes@),
{
    lemma_fitting(s, points, events, i);
    lemma_fitting(s, points, events, end);
    if end < i {
        lemma_after_the_end(s, points, events, end, i);
    }
    assert(follows(s, points[i], events[i], points[i + 1]));
    assert(end > i + 1);
    assert(follows(s, points[i + 1], events[i + 1], points[i + 2]));
    if end > i + 2 {
        if points[i + 2].handler.stage is Ended {
            lemma_after_the_end(s, points, events, i + 2, end);
        }
        assert(follows(s, points[i + 2], events[i + 2], points[i + 3]));
        if end > i + 3 {
            lemma_after_the_end(s, points, events, i + 3, end);
        }
    }
}

/// A conversion that leaves frames in a directory has the file at the new path removed; then the
/// new extension is recorded, and the user is told where the frames are.
pub proof fn law_extracted_frames_replace_the_file(
    s: Paths,
    points: Seq<Point>,
    events: Seq<Event>,
    i: int,
    in_place: bool,
)
    requires
        is_run(s, points, events),
        0 <= i,
        i + 3 < events.len(),
        points[i].action is Convert,
        events[i] == (Event::Converted { result: Ok(ConvertOutput::FrameDir), in_place }),
        events[i + 1] is Done,
        events[i + 2] is Done,
    ensures
        points[i + 1].action == ActionView::Remove,
        !points[i + 2].world.files.contains_key(s.to),
        points[i + 2].action == (ActionView::SetNewExt { ext: points[0].handler.to_ext@ }),
        points[i + 3].action == (ActionView::Notify {
            summary: "PowerEXT: frames extracted"@,
            body: points[0].handler.dest_dir@,
        }),
        finishes(points[i + 4].action, Outcome::Extracted),
{
    lemma_fitting(s, points, events, i);
    lemma_same(s, points, events, i);
    assert(follows(s, points[i], events[i], points[i + 1]));
    assert(follows(s, points[i + 1], events[i + 1], points[i + 2]));
    assert(follows(s, points[i + 2], events[i + 2], points[i + 3]));
    assert(follows(s, points[i + 3], events[i + 3], points[i + 4]));
}

/// A file that another program made is moved to the new path, unless it is there already; then the
/// new extension is recorded, and the file counts as converted.
pub proof fn law_a_file_made_elsewhere_is_moved_in(
    s: Paths,
    points: Seq<Point>,
    events: Seq<Event>,
    i: int,
    out: PathBuf,
    in_place: bool,
)
    requires
        is_run(s, points, events),
        s.wf(),
        0 <= i,
        i + 2 < events.len(),
        points[i].action is Convert,
        events[i] == (Event::Converted { result: Ok(ConvertOutput::ExternalFile(out)), in_place }),
        events[i + 1] is Done,
        events[i + 2] is Done,
    ensures
        in_place ==> {
            &&& points[i + 1].action == (ActionView::SetNewExt {
                ext: points[0].handler.to_ext@,
            })
            &&& finishes(points[i + 2].action, Outcome::Converted)
        },
        !in_place ==> {
            &&& points[i + 1].action == (ActionView::Replace { out })
            &&& points[i + 2].action == (ActionView::SetNewExt {
                ext: points[0].handler.to_ext@,
            })
            &&& finishes(points[i + 3].action, Outcome::Converted)
            &&& exists|p: Seq<char>| #[trigger]
                s.dest.contains(p) && holds(points[i + 1].world, p, points[i + 3].world.files[s.to])
        },
{
    lemma_fitting(s, points, events, i);
    lemma_same(s, points, events, i);
    assert(follows(s, points[i], events[i], points[i + 1]));
    assert(follows(s, points[i + 1], events[i + 1], points[i + 2]));
    assert(follows(s, points[i + 2], events[i + 2], points[i + 3]));
    if !in_place {
        let w = points[i + 1].world;
        let v = points[i + 2].world;
        let p = choose|p: Seq<char>|
            #![trigger w.files[p]]
            s.dest.contains(p) && w.files.contains_key(p) && v == without_file(
                with_file(w, s.to, w.files[p]),
                p,
            );
        assert(s.dest.contains(p) && p != s.to);
        assert(v.files[s.to] == w.files[p]);
    }
}

/// What the user is told of a pair of extensions between which there is no conversion names both,
/// and so does what the user is told of a program that is missing, with the name of the program.
/// Any other failure is only kept for the end, with its reason.
pub proof fn law_failed_conversions_are_told(
    s: Paths,
    points: Seq<Point>,
    events: Seq<Event>,
    i: int,
    e: ConvertError,
    in_place: bool,
)
    requires
        is_run(s, points, events),
        0 <= i,
        i + 1 < events.len(),
        points[i].action is Convert,
        events[i] == (Event::Converted { result: Err(e), in_place }),
    ensures
        points[i + 1].world.active == points[i].world.active,
        match e {
            ConvertError::UnsupportedPair => {
                &&& points[i + 1].action == (ActionView::Notify {
                    summary: "PowerEXT: skipped"@,
                    body: "No converter ."@ + points[0].handler.from_ext@ + " → ."@
                        + points[0].handler.to_ext@,
                })
                &&& finishes(points[i + 2].action, Outcome::Unsupported)
            },
            ConvertError::ToolNotFound(tool) => {
                &&& points[i + 1].action == (ActionView::Notify {
                    summary: "PowerEXT: tool missing"@,
                    body: tool@ + " not found — install it to convert ."@
                        + points[0].handler.from_ext@ + " → ."@ + points[0].handler.to_ext@,
                })
                &&& finishes(points[i + 2].action, Outcome::ToolMissing(tool))
            },
            ConvertError::ToolFailed(reason) => finishes(
                points[i + 1].action,
                Outcome::ToolFailed(reason),
            ),
            ConvertError::ImageError(_) => finishes(
                points[i + 1].action,
                Outcome::ConversionFailed(e),
            ),
            ConvertError::IoError(_) => finishes(
                points[i + 1].action,
                Outcome::ConversionFailed(e),
            ),
        },
{
    lemma_fitting(s, points, events, i);
    lemma_same(s, points, events, i);
    assert(follows(s, points[i], events[i], points[i + 1]));
    assert(follows(s, points[i + 1], events[i + 1], points[i + 2]));
    let h = points[0].handler;
    reveal_strlit("No converter .");
    reveal_strlit("No converter ");
    reveal_strlit(" not found — install it to convert .");
    reveal_strlit(" not found — install it to convert ");
    reveal_strlit(".");
    let pair = "."@ + h.from_ext@ + " → ."@ + h.to_ext@;
    assert("No converter "@ + pair =~= "No converter ."@ + h.from_ext@ + " → ."@ + h.to_ext@);
    if let ConvertError::ToolNotFound(tool) = e {
        assert(tool@ + " not found — install it to convert "@ + pair =~= tool@
            + " not found — install it to convert ."@ + h.from_ext@ + " → ."@ + h.to_ext@);
    }
}

/// Where a copy, a record, a removal or a write fails, the run ends as broken, and nothing more is
/// done.
pub proof fn law_a_failed_step_ends_the_run(
    s: Paths,
    points: Seq<Point>,
    events: Seq<Event>,
    i: int,
)
    requires
        is_run(s, points, events),
        0 <= i < events.len(),
        !(events[i] is Done),
        points[i].action is Restore || points[i].action is MarkRestored || points[i].action is Backup
            || points[i].action is InsertBackup || points[i].action is Write || points[i].action is Remove
            || points[i].action is Replace || points[i].action is SetNewExt,
    ensures
        finishes(points[i + 1].action, Outcome::Broken),
{
    lemma_fitting(s, points, events, i);
    assert(follows(s, points[i], events[i], points[i + 1]));
}

/// The backup of a file has the extension of the file, or `bak` where it has none, after an
/// identifier of its own.
pub proof fn law_a_backup_has_the_old_extension(id: Seq<char>, ext: Seq<char>)
    requires
        is_random_id(id),
    ensures
        ext.len() > 0 ==> backup_file(id, backup_ext(ext)) == id + "."@ + ext,
        ext.len() == 0 ==> backup_file(id, backup_ext(ext)) == id + ".bak"@,
        backup_file(id, backup_ext(ext)).take(36) == id,
{
    reveal_strlit(".");
    reveal_strlit("bak");
    reveal_strlit(".bak");
    assert(id + "."@ + "bak"@ =~= id + ".bak"@);
    assert(backup_file(id, backup_ext(ext)).take(36) =~= id);
}

/// What a thing to do says of itself is what it holds: every path, every text and all the bytes.
pub proof fn law_the_contents_of_a_thing_to_do(a: Action)
    ensures
        match a {
            Action::Restore { stored } => a@ == (ActionView::Restore { stored: stored@ }),
            Action::MarkRestored { id } => a@ == (ActionView::MarkRestored { id }),
            Action::InsertBackup { orig_ext, new_ext } => a@ == (ActionView::InsertBackup {
                orig_ext: orig_ext@,
                new_ext: match new_ext {
                    Some(e) => Some(e@),
                    None => None,
                },
            }),
            Action::Prompt { secs } => a@ == (ActionView::Prompt { secs }),
            Action::Convert { from_ext, to_ext } => a@ == (ActionView::Convert {
                from_ext: from_ext@,
                to_ext: to_ext@,
            }),
            Action::Write { bytes } => a@ == (ActionView::Write { bytes: bytes@ }),
            Action::Replace { out } => a@ == (ActionView::Replace { out }),
            Action::SetNewExt { ext } => a@ == (ActionView::SetNewExt { ext: ext@ }),
            Action::Notify { summary, body } => a@ == (ActionView::Notify {
                summary: summary@,
                body: body@,
            }),
            Action::Finish { outcome } => a@ == (ActionView::Finish { outcome }),
            Action::FindBackup => a@ is FindBackup,
            Action::Backup => a@ is Backup,
            Action::Remove => a@ is Remove,
        },
{
}

} // verus!
