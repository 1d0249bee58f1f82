//! What holds of every pass of the watcher.

use crate::path::{text_or, OsTextView};
use crate::snapshot::{listed, EntryView};
use crate::text::{number, padded};
use crate::text_laws::{
    all_digits, law_a_padded_number, law_a_written_number_reads_back, law_digits_are_read,
    law_other_texts_are_no_numbers,
};
use crate::watcher::{
    arranged, as_frame, ascending, candidate, candidates, group_of, is_merge, is_plan, keys,
    lemma_filter_from, lemma_key_occurs, lemma_keys_distinct, members, merge_keys, merged, missing,
    numbered, numbered_text, of_number, positions, renamed, source_of, CandidateView, Frame, GroupKey, Plan,
};
use vstd::prelude::*;

verus! {

/// Whether the file at `t` of the later snapshot is the file at `f` of the earlier one under
/// another extension: the one is gone, the other is new, and they match.
pub open spec fn is_rename(prev: Seq<EntryView>, curr: Seq<EntryView>, f: usize, t: usize) -> bool {
    &&& f < prev.len()
    &&& t < curr.len()
    &&& renamed(prev[f as int], curr[t as int])
    &&& !listed(curr, prev[f as int].path)
    &&& !listed(prev, curr[t as int].path)
}

/// Whether a plan handles the new file at `t` by itself.
pub open spec fn in_renames(plan: Plan, t: usize) -> bool {
    exists|i: int| 0 <= i < plan.renames@.len() && (#[trigger] plan.renames@[i]).to == t
}

/// Whether a plan merges the new file at `t` with others.
pub open spec fn in_merges(plan: Plan, t: usize) -> bool {
    exists|j: int, k: int|
        0 <= j < plan.merges@.len() && 0 <= k < plan.merges@[j].frames@.len() && (
        #[trigger] plan.merges@[j].frames@[k]).to == t
}

// ---------------------------------------------------------------------------
// Sequences
// ---------------------------------------------------------------------------

proof fn lemma_filter_distinct<A>(s: Seq<A>, p: spec_fn(A) -> bool)
    requires
        s.no_duplicates(),
    ensures
        s.filter(p).no_duplicates(),
    decreases s.len(),
{
    reveal(Seq::filter);
    if s.len() > 0 {
        let before = s.drop_last();
        lemma_filter_distinct(before, p);
        if p(s.last()) {
            assert forall|i: int| 0 <= i < before.filter(p).len() implies before.filter(p)[i]
                != s.last() by {
                lemma_filter_from(before, p, i);
            }
        }
    }
}

proof fn lemma_filter_keeps_repeats<A>(s: Seq<A>, p: spec_fn(A) -> bool, i: int, j: int)
    requires
        0 <= i < j < s.len(),
        s[i] == s[j],
        p(s[i]),
    ensures
        !s.filter(p).no_duplicates(),
    decreases s.len(),
{
    reveal(Seq::filter);
    let before = s.drop_last();
    let kept = before.filter(p);
    if j < s.len() - 1 {
        lemma_filter_keeps_repeats(before, p, i, j);
        let (a, b) = choose|a: int, b: int|
            0 <= a < kept.len() && 0 <= b < kept.len() && a != b && kept[a] == kept[b];
        assert(s.filter(p)[a] == s.filter(p)[b]);
    } else {
        before.lemma_filter_contains(p, i);
        let a = choose|a: int| 0 <= a < kept.len() && kept[a] == before[i];
        assert(s.filter(p)[a] == s.filter(p)[kept.len() as int]);
    }
}

proof fn lemma_filter_has<A>(s: Seq<A>, p: spec_fn(A) -> bool, i: int)
    requires
        0 <= i < s.len(),
        p(s[i]),
    ensures
        exists|j: int| 0 <= j < s.filter(p).len() && s.filter(p)[j] == s[i],
{
    s.lemma_filter_contains(p, i);
}

// ---------------------------------------------------------------------------
// Renamed files
// ---------------------------------------------------------------------------

proof fn lemma_missing(list: Seq<EntryView>, other: Seq<EntryView>)
    requires
        list.len() <= usize::MAX,
    ensures
        missing(list, other).no_duplicates(),
        forall|i: int|
            0 <= i < missing(list, other).len() ==> #[trigger] missing(list, other)[i] < list.len()
                && !listed(other, list[missing(list, other)[i] as int].path),
{
    let all = positions(list.len());
    let p = |i: usize| !listed(other, list[i as int].path);
    lemma_filter_distinct(all, p);
    assert forall|i: int| 0 <= i < missing(list, other).len() implies #[trigger] missing(
        list,
        other,
    )[i] < list.len() && !listed(other, list[missing(list, other)[i] as int].path) by {
        all.lemma_filter_pred(p, i);
        lemma_filter_from(all, p, i);
    }
}

proof fn lemma_source(prev: Seq<EntryView>, gone: Seq<usize>, to: EntryView)
    ensures
        source_of(prev, gone, to) matches Some(f) ==> gone.contains(f) && renamed(
            prev[f as int],
            to,
        ),
    decreases gone.len(),
{
    if gone.len() > 0 {
        if renamed(prev[gone[0] as int], to) {
            assert(gone.contains(gone[0]));
        } else {
            lemma_source(prev, gone.drop_first(), to);
            if source_of(prev, gone.drop_first(), to) is Some {
                let f = source_of(prev, gone.drop_first(), to)->0;
                let i = choose|i: int| 0 <= i < gone.drop_first().len() && gone.drop_first()[i] == f;
                assert(gone[i + 1] == f);
            }
        }
    }
}

/// Each renamed file stands for a new file of its own.
proof fn lemma_candidates_from(prev: Seq<EntryView>, curr: Seq<EntryView>, new: Seq<usize>)
    requires
        new.no_duplicates(),
    ensures
        ({
            let cs = new.filter_map(|a: usize| candidate(prev, curr, a));
            &&& forall|i: int|
                0 <= i < cs.len() ==> new.contains((#[trigger] cs[i]).to) && candidate(
                    prev,
                    curr,
                    cs[i].to,
                ) == Some(cs[i])
            &&& forall|i: int, j: int|
                0 <= i < j < cs.len() ==> (#[trigger] cs[i]).to != (#[trigger] cs[j]).to
            &&& forall|a: usize|
                new.contains(a) && #[trigger] candidate(prev, curr, a) is Some ==> exists|i: int|
                    0 <= i < cs.len() && (#[trigger] cs[i]) == candidate(prev, curr, a)->0
        }),
    decreases new.len(),
{
    let f = |a: usize| candidate(prev, curr, a);
    let cs = new.filter_map(f);
    if new.len() == 0 {
        assert(cs =~= Seq::<CandidateView>::empty());
    } else {
        let n = new.len() - 1;
        let before = new.take(n);
        let a = new[n];
        let bs = before.filter_map(f);
        lemma_candidates_from(prev, curr, before);
        new.lemma_filter_map_take_succ(f, n);
        assert(new.take(n + 1) =~= new);
        assert(cs == bs + (match f(a) {
            Some(c) => seq![c],
            None => Seq::empty(),
        }));
        assert forall|i: int| 0 <= i < cs.len() implies new.contains((#[trigger] cs[i]).to)
            && candidate(prev, curr, cs[i].to) == Some(cs[i]) by {
            if i < bs.len() {
                assert(cs[i] == bs[i]);
                assert(before.contains(bs[i].to));
                let k = choose|k: int| 0 <= k < before.len() && before[k] == bs[i].to;
                assert(new[k] == cs[i].to);
            } else {
                assert(new[n] == cs[i].to);
            }
        }
        assert forall|i: int, j: int| 0 <= i < j < cs.len() implies (#[trigger] cs[i]).to != (
        #[trigger] cs[j]).to by {
            assert(cs[i] == bs[i]);
            assert(before.contains(bs[i].to));
            let k = choose|k: int| 0 <= k < before.len() && before[k] == bs[i].to;
            assert(new[k] == cs[i].to);
            if j < bs.len() {
                assert(bs[i].to != bs[j].to);
            }
        }
        assert forall|b: usize|
            new.contains(b) && #[trigger] candidate(prev, curr, b) is Some implies exists|i: int|
            0 <= i < cs.len() && (#[trigger] cs[i]) == candidate(prev, curr, b)->0 by {
            if b == a {
                assert(cs[bs.len() as int] == candidate(prev, curr, b)->0);
            } else {
                let k = choose|k: int| 0 <= k < new.len() && new[k] == b;
                assert(before[k] == b);
                assert(before.contains(b));
                let i = choose|i: int|
                    0 <= i < bs.len() && (#[trigger] bs[i]) == candidate(prev, curr, b)->0;
                assert(cs[i] == bs[i]);
            }
        }
    }
}

proof fn lemma_candidates(prev: Seq<EntryView>, curr: Seq<EntryView>)
    requires
        prev.len() <= usize::MAX,
        curr.len() <= usize::MAX,
    ensures
        forall|i: int|
            0 <= i < candidates(prev, curr).len() ==> {
                let c = #[trigger] candidates(prev, curr)[i];
                &&& is_rename(prev, curr, c.from, c.to)
                &&& candidate(prev, curr, c.to) == Some(c)
            },
        forall|i: int, j: int|
            0 <= i < j < candidates(prev, curr).len() ==> (#[trigger] candidates(prev, curr)[i]).to
                != (#[trigger] candidates(prev, curr)[j]).to,
{
    let cs = candidates(prev, curr);
    let new = missing(curr, prev);
    let gone = missing(prev, curr);
    lemma_missing(curr, prev);
    lemma_missing(prev, curr);
    lemma_candidates_from(prev, curr, new);
    assert forall|i: int| 0 <= i < cs.len() implies {
        let c = #[trigger] cs[i];
        &&& is_rename(prev, curr, c.from, c.to)
        &&& candidate(prev, curr, c.to) == Some(c)
    } by {
        let c = cs[i];
        assert(new.contains(c.to));
        let k = choose|k: int| 0 <= k < new.len() && new[k] == c.to;
        assert(new[k] < curr.len());
        lemma_source(prev, gone, curr[c.to as int]);
        let h = choose|h: int| 0 <= h < gone.len() && gone[h] == c.from;
        assert(gone[h] < prev.len());
    }
}

// ---------------------------------------------------------------------------
// Merges
// ---------------------------------------------------------------------------

proof fn lemma_member_is_candidate(cs: Seq<CandidateView>, k: GroupKey, i: int) -> (c: int)
    requires
        0 <= i < members(cs, k).len(),
    ensures
        0 <= c < cs.len(),
        cs[c].key == Some(k),
        members(cs, k)[i] == as_frame(cs[c]),
{
    let p = |c: CandidateView| c.key == Some(k);
    cs.lemma_filter_pred(p, i);
    lemma_filter_from(cs, p, i);
    choose|c: int| 0 <= c < cs.len() && cs[c] == cs.filter(p)[i]
}

proof fn lemma_arranged_from(res: Seq<Frame>, src: Seq<Frame>, i: int) -> (j: int)
    requires
        arranged(res, src),
        0 <= i < res.len(),
    ensures
        0 <= j < src.len(),
        src[j] == res[i],
{
    let n = res[i].number;
    let p = |f: Frame| f.number == n;
    assert(of_number(res, n) == of_number(src, n));
    lemma_filter_has(res, p, i);
    let h = choose|h: int| 0 <= h < res.filter(p).len() && res.filter(p)[h] == res[i];
    lemma_filter_from(src, p, h);
    choose|j: int| 0 <= j < src.len() && src[j] == src.filter(p)[h]
}

proof fn lemma_arranged_sym(res: Seq<Frame>, src: Seq<Frame>, i: int) -> (j: int)
    requires
        arranged(res, src),
        0 <= i < src.len(),
    ensures
        0 <= j < res.len(),
        res[j] == src[i],
{
    let n = src[i].number;
    let p = |f: Frame| f.number == n;
    assert(of_number(res, n) == of_number(src, n));
    lemma_filter_has(src, p, i);
    let h = choose|h: int| 0 <= h < src.filter(p).len() && src.filter(p)[h] == src[i];
    lemma_filter_from(res, p, h);
    choose|j: int| 0 <= j < res.len() && res[j] == res.filter(p)[h]
}

proof fn lemma_arranged_distinct(res: Seq<Frame>, src: Seq<Frame>)
    requires
        arranged(res, src),
        src.no_duplicates(),
    ensures
        res.no_duplicates(),
{
    assert forall|i: int, j: int| 0 <= i < res.len() && 0 <= j < res.len() && i != j implies res[i]
        != res[j] by {
        if res[i] == res[j] {
            let n = res[i].number;
            let p = |f: Frame| f.number == n;
            assert(of_number(res, n) == of_number(src, n));
            lemma_filter_distinct(src, p);
            if i < j {
                lemma_filter_keeps_repeats(res, p, i, j);
            } else {
                lemma_filter_keeps_repeats(res, p, j, i);
            }
        }
    }
}

proof fn lemma_arranged_len(res: Seq<Frame>, src: Seq<Frame>)
    requires
        arranged(res, src),
        src.no_duplicates(),
    ensures
        res.len() == src.len(),
{
    lemma_arranged_distinct(res, src);
    assert(res.to_set() =~= src.to_set()) by {
        assert forall|f: Frame| res.to_set().contains(f) == src.to_set().contains(f) by {
            if res.contains(f) {
                let i = choose|i: int| 0 <= i < res.len() && res[i] == f;
                let j = lemma_arranged_from(res, src, i);
                assert(src.contains(f));
            }
            if src.contains(f) {
                let i = choose|i: int| 0 <= i < src.len() && src[i] == f;
                let j = lemma_arranged_sym(res, src, i);
                assert(res.contains(f));
            }
        }
    }
    res.unique_seq_to_set();
    src.unique_seq_to_set();
}

proof fn lemma_members_distinct(cs: Seq<CandidateView>, k: GroupKey)
    requires
        forall|i: int, j: int|
            0 <= i < j < cs.len() ==> (#[trigger] cs[i]).to != (#[trigger] cs[j]).to,
    ensures
        members(cs, k).no_duplicates(),
{
    let p = |c: CandidateView| c.key == Some(k);
    assert(cs.no_duplicates());
    lemma_filter_distinct(cs, p);
    let kept = cs.filter(p);
    assert forall|i: int, j: int|
        0 <= i < members(cs, k).len() && 0 <= j < members(cs, k).len() && i != j implies members(
        cs,
        k,
    )[i] != members(cs, k)[j] by {
        lemma_filter_from(cs, p, i);
        lemma_filter_from(cs, p, j);
        let a = choose|a: int| 0 <= a < cs.len() && cs[a] == kept[i];
        let b = choose|b: int| 0 <= b < cs.len() && cs[b] == kept[j];
        assert(kept[i] != kept[j]);
    }
}

/// A frame of a merge is a renamed file of the merge's group.
proof fn lemma_frame(prev: Seq<EntryView>, curr: Seq<EntryView>, plan: Plan, j: int, k: int) -> (c: int)
    requires
        is_plan(prev, curr, plan),
        0 <= j < plan.merges@.len(),
        0 <= k < plan.merges@[j].frames@.len(),
    ensures
        0 <= c < candidates(prev, curr).len(),
        candidates(prev, curr)[c].key == Some(merge_keys(candidates(prev, curr))[j]),
        plan.merges@[j].frames@[k] == as_frame(candidates(prev, curr)[c]),
{
    let cs = candidates(prev, curr);
    let m = plan.merges@[j];
    assert(is_merge(m, cs, merge_keys(cs)[j]));
    let i = lemma_arranged_from(m.frames@, members(cs, merge_keys(cs)[j]), k);
    lemma_member_is_candidate(cs, merge_keys(cs)[j], i)
}

/// A file that is handled by itself is a renamed file that belongs to no merge.
proof fn lemma_single(prev: Seq<EntryView>, curr: Seq<EntryView>, plan: Plan, i: int) -> (c: int)
    requires
        is_plan(prev, curr, plan),
        0 <= i < plan.renames@.len(),
    ensures
        0 <= c < candidates(prev, curr).len(),
        !merged(candidates(prev, curr), candidates(prev, curr)[c]),
        plan.renames@[i].from == candidates(prev, curr)[c].from,
        plan.renames@[i].to == candidates(prev, curr)[c].to,
        candidates(prev, curr).filter(
            |c: CandidateView| !merged(candidates(prev, curr), c),
        )[i] == candidates(prev, curr)[c],
{
    let cs = candidates(prev, curr);
    let p = |c: CandidateView| !merged(cs, c);
    cs.lemma_filter_pred(p, i);
    lemma_filter_from(cs, p, i);
    choose|c: int| 0 <= c < cs.len() && cs[c] == cs.filter(p)[i]
}

// ---------------------------------------------------------------------------
// Laws
// ---------------------------------------------------------------------------

/// Whatever a pass plans, it plans for renamed files only: the earlier file is gone, the later
/// one is new, and the two lie in one directory, have one stem and one length, and differ in
/// their extension.
pub proof fn law_only_renames_are_planned(prev: Seq<EntryView>, curr: Seq<EntryView>, plan: Plan)
    requires
        prev.len() <= usize::MAX,
        curr.len() <= usize::MAX,
        is_plan(prev, curr, plan),
    ensures
        forall|i: int|
            0 <= i < plan.renames@.len() ==> is_rename(
                prev,
                curr,
                (#[trigger] plan.renames@[i]).from,
                plan.renames@[i].to,
            ),
        forall|j: int, k: int|
            0 <= j < plan.merges@.len() && 0 <= k < plan.merges@[j].frames@.len() ==> is_rename(
                prev,
                curr,
                (#[trigger] plan.merges@[j].frames@[k]).from,
                plan.merges@[j].frames@[k].to,
            ),
{
    lemma_candidates(prev, curr);
    assert forall|i: int| 0 <= i < plan.renames@.len() implies is_rename(
        prev,
        curr,
        (#[trigger] plan.renames@[i]).from,
        plan.renames@[i].to,
    ) by {
        let c = lemma_single(prev, curr, plan, i);
        assert(is_rename(prev, curr, candidates(prev, curr)[c].from, candidates(prev, curr)[c].to));
    }
    assert forall|j: int, k: int|
        0 <= j < plan.merges@.len() && 0 <= k < plan.merges@[j].frames@.len() implies is_rename(
        prev,
        curr,
        (#[trigger] plan.merges@[j].frames@[k]).from,
        plan.merges@[j].frames@[k].to,
    ) by {
        let c = lemma_frame(prev, curr, plan, j, k);
        assert(is_rename(prev, curr, candidates(prev, curr)[c].from, candidates(prev, curr)[c].to));
    }
}

/// No renamed file is missed: a new file that looks like one that is gone is either handled by
/// itself or merged.
pub proof fn law_every_rename_is_planned(
    prev: Seq<EntryView>,
    curr: Seq<EntryView>,
    plan: Plan,
    f: usize,
    t: usize,
)
    requires
        prev.len() <= usize::MAX,
        curr.len() <= usize::MAX,
        is_plan(prev, curr, plan),
        is_rename(prev, curr, f, t),
    ensures
        in_renames(plan, t) || in_merges(plan, t),
{
    let cs = candidates(prev, curr);
    let i = lemma_rename_is_candidate(prev, curr, f, t);
    if merged(cs, cs[i]) {
        let k = cs[i].key->0;
        lemma_key_occurs(cs, i);
        let h = choose|h: int| 0 <= h < keys(cs).len() && keys(cs)[h] == k;
        lemma_filter_has(keys(cs), |k: GroupKey| members(cs, k).len() >= 2, h);
        let j = choose|j: int| 0 <= j < merge_keys(cs).len() && merge_keys(cs)[j] == k;
        assert(is_merge(plan.merges@[j], cs, merge_keys(cs)[j]));
        let p = |c: CandidateView| c.key == Some(k);
        lemma_filter_has(cs, p, i);
        let a = choose|a: int| 0 <= a < cs.filter(p).len() && cs.filter(p)[a] == cs[i];
        assert(members(cs, k)[a] == as_frame(cs[i]));
        let b = lemma_arranged_sym(plan.merges@[j].frames@, members(cs, k), a);
        assert(plan.merges@[j].frames@[b].to == t);
    } else {
        let p = |c: CandidateView| !merged(cs, c);
        lemma_filter_has(cs, p, i);
        let a = choose|a: int| 0 <= a < cs.filter(p).len() && cs.filter(p)[a] == cs[i];
        assert(plan.renames@[a].to == t);
    }
}

proof fn lemma_positions_hold(list: Seq<EntryView>, other: Seq<EntryView>, i: usize)
    requires
        list.len() <= usize::MAX,
        i < list.len(),
        !listed(other, list[i as int].path),
    ensures
        missing(list, other).contains(i),
{
    let all = positions(list.len());
    assert(all[i as int] == i);
    all.lemma_filter_contains(|i: usize| !listed(other, list[i as int].path), i as int);
}

proof fn lemma_source_found(prev: Seq<EntryView>, gone: Seq<usize>, to: EntryView, f: usize)
    requires
        gone.contains(f),
        renamed(prev[f as int], to),
    ensures
        source_of(prev, gone, to) is Some,
    decreases gone.len(),
{
    let i = choose|i: int| 0 <= i < gone.len() && gone[i] == f;
    if i > 0 {
        assert(gone.drop_first()[i - 1] == f);
        lemma_source_found(prev, gone.drop_first(), to, f);
    }
}

/// No new file is handled twice: not by itself twice, not in two places of the merges, and not
/// both by itself and in a merge.
pub proof fn law_no_file_is_planned_twice(prev: Seq<EntryView>, curr: Seq<EntryView>, plan: Plan)
    requires
        prev.len() <= usize::MAX,
        curr.len() <= usize::MAX,
        is_plan(prev, curr, plan),
    ensures
        forall|i: int, j: int|
            0 <= i < j < plan.renames@.len() ==> (#[trigger] plan.renames@[i]).to != (
            #[trigger] plan.renames@[j]).to,
        forall|j: int, k: int, h: int, l: int|
            0 <= j < plan.merges@.len() && 0 <= k < plan.merges@[j].frames@.len() && 0 <= h
                < plan.merges@.len() && 0 <= l < plan.merges@[h].frames@.len() && (
            #[trigger] plan.merges@[j].frames@[k]).to == (
            #[trigger] plan.merges@[h].frames@[l]).to ==> j == h && k == l,
        forall|t: usize| !(#[trigger] in_renames(plan, t) && in_merges(plan, t)),
{
    let cs = candidates(prev, curr);
    lemma_candidates(prev, curr);
    assert(cs.no_duplicates());
    let p = |c: CandidateView| !merged(cs, c);
    lemma_filter_distinct(cs, p);
    assert forall|i: int, j: int| 0 <= i < j < plan.renames@.len() implies (
    #[trigger] plan.renames@[i]).to != (#[trigger] plan.renames@[j]).to by {
        let a = lemma_single(prev, curr, plan, i);
        let b = lemma_single(prev, curr, plan, j);
        assert(cs.filter(p)[i] != cs.filter(p)[j]);
        assert(a != b);
        if a < b {
            assert(cs[a].to != cs[b].to);
        } else {
            assert(cs[b].to != cs[a].to);
        }
    }
    let pk = |k: GroupKey| members(cs, k).len() >= 2;
    lemma_keys_distinct(cs);
    lemma_filter_distinct(keys(cs), pk);
    assert forall|j: int, k: int, h: int, l: int|
        0 <= j < plan.merges@.len() && 0 <= k < plan.merges@[j].frames@.len() && 0 <= h
            < plan.merges@.len() && 0 <= l < plan.merges@[h].frames@.len() && (
        #[trigger] plan.merges@[j].frames@[k]).to == (
        #[trigger] plan.merges@[h].frames@[l]).to implies j == h && k == l by {
        let a = lemma_frame(prev, curr, plan, j, k);
        let b = lemma_frame(prev, curr, plan, h, l);
        if a < b {
            assert(cs[a].to != cs[b].to);
        } else if b < a {
            assert(cs[b].to != cs[a].to);
        }
        assert(a == b);
        assert(merge_keys(cs)[j] == merge_keys(cs)[h]);
        assert(j == h);
        let frames = plan.merges@[j].frames@;
        assert(is_merge(plan.merges@[j], cs, merge_keys(cs)[j]));
        lemma_members_distinct(cs, merge_keys(cs)[j]);
        lemma_arranged_distinct(frames, members(cs, merge_keys(cs)[j]));
        assert(frames[k] == frames[l]);
    }
    assert forall|t: usize| !(#[trigger] in_renames(plan, t) && in_merges(plan, t)) by {
        if in_renames(plan, t) && in_merges(plan, t) {
            let i = choose|i: int|
                0 <= i < plan.renames@.len() && (#[trigger] plan.renames@[i]).to == t;
            let (j, k) = choose|j: int, k: int|
                0 <= j < plan.merges@.len() && 0 <= k < plan.merges@[j].frames@.len() && (
                #[trigger] plan.merges@[j].frames@[k]).to == t;
            let a = lemma_single(prev, curr, plan, i);
            let b = lemma_frame(prev, curr, plan, j, k);
            if a < b {
                assert(cs[a].to != cs[b].to);
            } else if b < a {
                assert(cs[b].to != cs[a].to);
            }
            assert(a == b);
            keys(cs).lemma_filter_pred(pk, j);
        }
    }
}

/// The shape of a merge: at least two files of one directory, each numbered on the same base
/// and renamed to the same extension, by ascending number.
pub proof fn law_merges_are_sequences(
    prev: Seq<EntryView>,
    curr: Seq<EntryView>,
    plan: Plan,
    j: int,
)
    requires
        prev.len() <= usize::MAX,
        curr.len() <= usize::MAX,
        is_plan(prev, curr, plan),
        0 <= j < plan.merges@.len(),
    ensures
        plan.merges@[j].frames@.len() >= 2,
        ascending(plan.merges@[j].frames@),
        forall|k: int|
            0 <= k < plan.merges@[j].frames@.len() ==> {
                let f = #[trigger] plan.merges@[j].frames@[k];
                let to = curr[f.to as int].path;
                let first = curr[plan.merges@[j].frames@[0].to as int].path;
                &&& to.parent == first.parent
                &&& numbered(to.stem) == Some((plan.merges@[j].base@, f.number))
                &&& text_or(to.ext, ""@) == plan.merges@[j].to_ext@
            },
{
    let cs = candidates(prev, curr);
    let pk = |k: GroupKey| members(cs, k).len() >= 2;
    let m = plan.merges@[j];
    let key = merge_keys(cs)[j];
    lemma_candidates(prev, curr);
    assert(is_merge(m, cs, key));
    keys(cs).lemma_filter_pred(pk, j);
    lemma_members_distinct(cs, key);
    lemma_arranged_len(m.frames@, members(cs, key));
    let c0 = lemma_frame(prev, curr, plan, j, 0);
    assert(candidate(prev, curr, cs[c0].to) == Some(cs[c0]));
    assert forall|k: int| 0 <= k < m.frames@.len() implies {
        let f = #[trigger] m.frames@[k];
        let to = curr[f.to as int].path;
        let first = curr[m.frames@[0].to as int].path;
        &&& to.parent == first.parent
        &&& numbered(to.stem) == Some((m.base@, f.number))
        &&& text_or(to.ext, ""@) == m.to_ext@
    } by {
        let c = lemma_frame(prev, curr, plan, j, k);
        assert(candidate(prev, curr, cs[c].to) == Some(cs[c]));
        assert(group_of(curr[cs[c].to as int]) == Some(key));
    }
}

/// Whether the new file at `t` stands in the given merge of a plan.
pub open spec fn in_merge(plan: Plan, j: int, t: usize) -> bool {
    exists|k: int|
        0 <= k < plan.merges@[j].frames@.len() && (#[trigger] plan.merges@[j].frames@[k]).to == t
}

/// Numbered files that were renamed together are merged: those of one directory, one base and one
/// new extension all stand in one merge, as soon as there are two of them.
pub proof fn law_sequences_are_merged(
    prev: Seq<EntryView>,
    curr: Seq<EntryView>,
    plan: Plan,
    key: GroupKey,
    first: usize,
    second: usize,
)
    requires
        prev.len() <= usize::MAX,
        curr.len() <= usize::MAX,
        is_plan(prev, curr, plan),
        first != second,
        exists|f: usize| is_rename(prev, curr, f, first),
        exists|f: usize| is_rename(prev, curr, f, second),
        group_of(curr[first as int]) == Some(key),
        group_of(curr[second as int]) == Some(key),
    ensures
        exists|j: int|
            #![trigger plan.merges@[j]]
            0 <= j < plan.merges@.len() && forall|f: usize, t: usize|
                #[trigger] is_rename(prev, curr, f, t) && group_of(curr[t as int]) == Some(key)
                    ==> in_merge(plan, j, t),
{
    let cs = candidates(prev, curr);
    let p = |c: CandidateView| c.key == Some(key);
    let f = choose|f: usize| is_rename(prev, curr, f, first);
    let g = choose|f: usize| is_rename(prev, curr, f, second);
    let a = lemma_rename_is_candidate(prev, curr, f, first);
    let b = lemma_rename_is_candidate(prev, curr, g, second);
    lemma_candidates(prev, curr);
    lemma_filter_has(cs, p, a);
    lemma_filter_has(cs, p, b);
    let x = choose|x: int| 0 <= x < cs.filter(p).len() && cs.filter(p)[x] == cs[a];
    let y = choose|y: int| 0 <= y < cs.filter(p).len() && cs.filter(p)[y] == cs[b];
    assert(x != y);
    assert(members(cs, key).len() >= 2);
    lemma_key_occurs(cs, a);
    let h = choose|h: int| 0 <= h < keys(cs).len() && keys(cs)[h] == key;
    lemma_filter_has(keys(cs), |k: GroupKey| members(cs, k).len() >= 2, h);
    let j = choose|j: int| 0 <= j < merge_keys(cs).len() && merge_keys(cs)[j] == key;
    assert(is_merge(plan.merges@[j], cs, merge_keys(cs)[j]));
    assert forall|f: usize, t: usize|
        #[trigger] is_rename(prev, curr, f, t) && group_of(curr[t as int]) == Some(
            key,
        ) implies in_merge(plan, j, t) by {
        let c = lemma_rename_is_candidate(prev, curr, f, t);
        lemma_filter_has(cs, p, c);
        let m = choose|m: int| 0 <= m < cs.filter(p).len() && cs.filter(p)[m] == cs[c];
        assert(members(cs, key)[m] == as_frame(cs[c]));
        let k = lemma_arranged_sym(plan.merges@[j].frames@, members(cs, key), m);
        assert(plan.merges@[j].frames@[k].to == t);
    }
}

proof fn lemma_rename_is_candidate(
    prev: Seq<EntryView>,
    curr: Seq<EntryView>,
    f: usize,
    t: usize,
) -> (c: int)
    requires
        prev.len() <= usize::MAX,
        curr.len() <= usize::MAX,
        is_rename(prev, curr, f, t),
    ensures
        0 <= c < candidates(prev, curr).len(),
        candidates(prev, curr)[c].to == t,
        candidates(prev, curr)[c].key == group_of(curr[t as int]),
{
    let cs = candidates(prev, curr);
    let new = missing(curr, prev);
    let gone = missing(prev, curr);
    lemma_missing(curr, prev);
    lemma_candidates_from(prev, curr, new);
    lemma_positions_hold(prev, curr, f);
    lemma_positions_hold(curr, prev, t);
    lemma_source_found(prev, gone, curr[t as int], f);
    assert(candidate(prev, curr, t) is Some);
    choose|i: int| 0 <= i < cs.len() && (#[trigger] cs[i]) == candidate(prev, curr, t)->0
}

/// As long as no file comes or goes, nothing is planned.
pub proof fn law_no_change_no_plan(prev: Seq<EntryView>, curr: Seq<EntryView>, plan: Plan)
    requires
        prev.len() <= usize::MAX,
        curr.len() <= usize::MAX,
        is_plan(prev, curr, plan),
        forall|i: int| 0 <= i < curr.len() ==> listed(prev, (#[trigger] curr[i]).path),
    ensures
        plan.renames@.len() == 0,
        plan.merges@.len() == 0,
{
    let cs = candidates(prev, curr);
    lemma_candidates(prev, curr);
    if plan.renames@.len() > 0 {
        let c = lemma_single(prev, curr, plan, 0);
        assert(is_rename(prev, curr, cs[c].from, cs[c].to));
        assert(listed(prev, curr[cs[c].to as int].path));
    }
    if plan.merges@.len() > 0 {
        law_merges_are_sequences(prev, curr, plan, 0);
        let c = lemma_frame(prev, curr, plan, 0, 0);
        assert(is_rename(prev, curr, cs[c].from, cs[c].to));
        assert(listed(prev, curr[cs[c].to as int].path));
    }
}

// ---------------------------------------------------------------------------
// Numbered stems
// ---------------------------------------------------------------------------

proof fn lemma_last_dot(base: Seq<char>, tail: Seq<char>)
    requires
        forall|i: int| 0 <= i < tail.len() ==> #[trigger] tail[i] != '.',
    ensures
        (base + seq!['.'] + tail).index_of_last('.') == Some(base.len() as int),
        (base + seq!['.'] + tail).take(base.len() as int) == base,
        (base + seq!['.'] + tail).skip(base.len() as int + 1) == tail,
{
    let s = base + seq!['.'] + tail;
    let n = base.len() as int;
    s.index_of_last_ensures('.');
    assert(s[n] == '.');
    assert(s.contains('.'));
    let dot = s.index_of_last('.')->0;
    assert forall|j: int| n < j < s.len() implies s[j] != '.' by {
        assert(s[j] == tail[j - n - 1]);
    }
    assert(dot == n);
    assert(s.take(n) =~= base);
    assert(s.skip(n + 1) =~= tail);
}

/// A stem that ends in a dot and digits has what stands before the dot for its base, and the value
/// of the digits for its number, whatever the base. A plus sign before the digits changes nothing.
/// Where the number takes more than 32 bits the stem has none.
pub proof fn law_a_stem_with_a_number(base: Seq<char>, d: Seq<char>)
    requires
        d.len() > 0,
        all_digits(d),
    ensures
        number(d) <= u32::MAX ==> numbered(OsTextView::Unicode(base + seq!['.'] + d)) == Some(
            (base, number(d) as u32),
        ),
        number(d) <= u32::MAX ==> numbered(OsTextView::Unicode(base + seq!['.', '+'] + d)) == Some(
            (base, number(d) as u32),
        ),
        number(d) > u32::MAX ==> numbered(OsTextView::Unicode(base + seq!['.'] + d)) is None,
{
    law_digits_are_read(d);
    assert forall|i: int| 0 <= i < d.len() implies #[trigger] d[i] != '.' by {
        assert('0' <= d[i] <= '9');
    }
    lemma_last_dot(base, d);
    let plus = seq!['+'] + d;
    assert forall|i: int| 0 <= i < plus.len() implies #[trigger] plus[i] != '.' by {
        if i > 0 {
            assert('0' <= d[i - 1] <= '9');
        }
    }
    lemma_last_dot(base, plus);
    assert(base + seq!['.', '+'] + d =~= base + seq!['.'] + plus);
}

/// A stem has no number where it has no dot, where something that is no digit stands after the
/// last dot, where nothing stands there, and where it is not Unicode.
pub proof fn law_a_stem_without_a_number(base: Seq<char>, tail: Seq<char>, raw: Seq<u8>, i: int)
    requires
        forall|k: int| 0 <= k < tail.len() ==> #[trigger] tail[k] != '.',
        tail.len() == 0 || 0 <= i < tail.len() && !('0' <= tail[i] <= '9') && !(i == 0 && tail[0]
            == '+'),
    ensures
        numbered(OsTextView::Unicode(base + seq!['.'] + tail)) is None,
        numbered(OsTextView::Unicode(tail)) is None,
        numbered(OsTextView::Other(raw)) is None,
{
    lemma_last_dot(base, tail);
    law_other_texts_are_no_numbers(tail, i);
    tail.index_of_last_ensures('.');
    if tail.contains('.') {
        let k = choose|k: int| 0 <= k < tail.len() && tail[k] == '.';
        assert(tail[k] != '.');
    }
}

// ---------------------------------------------------------------------------
// Snapshots and plans
// ---------------------------------------------------------------------------

proof fn lemma_is_rename(prev: Seq<EntryView>, curr: Seq<EntryView>, f: int, t: int)
    requires
        prev.len() <= usize::MAX,
        curr.len() <= usize::MAX,
        0 <= f < prev.len(),
        0 <= t < curr.len(),
        forall|i: int| 0 <= i < curr.len() ==> (#[trigger] curr[i]).path != prev[f].path,
        forall|i: int| 0 <= i < prev.len() ==> (#[trigger] prev[i]).path != curr[t].path,
        prev[f].path.parent == curr[t].path.parent,
        prev[f].path.stem == curr[t].path.stem,
        prev[f].path.ext != curr[t].path.ext,
        prev[f].size == curr[t].size,
    ensures
        is_rename(prev, curr, f as usize, t as usize),
{
}

/// No file whose extension was changed escapes a pass. If a file is gone, another one is new, and
/// the two have one directory, one stem and one length and differ in their extension, then the new
/// one is handled by itself or as a frame of a merge, whatever its length and its name.
pub proof fn law_a_changed_extension_is_noticed(
    prev: Seq<EntryView>,
    curr: Seq<EntryView>,
    plan: Plan,
    f: int,
    t: int,
)
    requires
        prev.len() <= usize::MAX,
        curr.len() <= usize::MAX,
        is_plan(prev, curr, plan),
        0 <= f < prev.len(),
        0 <= t < curr.len(),
        forall|i: int| 0 <= i < curr.len() ==> (#[trigger] curr[i]).path != prev[f].path,
        forall|i: int| 0 <= i < prev.len() ==> (#[trigger] prev[i]).path != curr[t].path,
        prev[f].path.parent == curr[t].path.parent,
        prev[f].path.stem == curr[t].path.stem,
        prev[f].path.ext != curr[t].path.ext,
        prev[f].size == curr[t].size,
    ensures
        (exists|i: int| 0 <= i < plan.renames@.len() && (#[trigger] plan.renames@[i]).to == t) || (
        exists|j: int, k: int|
            0 <= j < plan.merges@.len() && 0 <= k < plan.merges@[j].frames@.len() && (
            #[trigger] plan.merges@[j].frames@[k]).to == t),
{
    lemma_is_rename(prev, curr, f, t);
    law_every_rename_is_planned(prev, curr, plan, f as usize, t as usize);
}

/// Whether the files at `f` and `t` are in the two lists, in one of them each, and differ in their
/// extension alone.
pub open spec fn changed_extension(
    prev: Seq<EntryView>,
    curr: Seq<EntryView>,
    f: int,
    t: int,
) -> bool {
    &&& 0 <= f < prev.len()
    &&& 0 <= t < curr.len()
    &&& forall|i: int| 0 <= i < curr.len() ==> (#[trigger] curr[i]).path != prev[f].path
    &&& forall|i: int| 0 <= i < prev.len() ==> (#[trigger] prev[i]).path != curr[t].path
    &&& prev[f].path.parent == curr[t].path.parent
    &&& prev[f].path.stem == curr[t].path.stem
    &&& prev[f].path.ext != curr[t].path.ext
    &&& prev[f].size == curr[t].size
}

/// Nothing else is planned: every file that is handled by itself, and every frame of a merge, is
/// new, and goes with one that is gone and from which it differs in its extension alone.
pub proof fn law_nothing_else_is_planned(prev: Seq<EntryView>, curr: Seq<EntryView>, plan: Plan)
    requires
        prev.len() <= usize::MAX,
        curr.len() <= usize::MAX,
        is_plan(prev, curr, plan),
    ensures
        forall|i: int|
            0 <= i < plan.renames@.len() ==> changed_extension(
                prev,
                curr,
                (#[trigger] plan.renames@[i]).from as int,
                plan.renames@[i].to as int,
            ),
        forall|j: int, k: int|
            0 <= j < plan.merges@.len() && 0 <= k < plan.merges@[j].frames@.len()
                ==> changed_extension(
                prev,
                curr,
                (#[trigger] plan.merges@[j].frames@[k]).from as int,
                plan.merges@[j].frames@[k].to as int,
            ),
{
    law_only_renames_are_planned(prev, curr, plan);
    assert forall|f: usize, t: usize| #[trigger] is_rename(
        prev,
        curr,
        f,
        t,
    ) implies changed_extension(prev, curr, f as int, t as int) by {
        assert(!listed(curr, prev[f as int].path));
        assert(!listed(prev, curr[t as int].path));
    }
}

/// Numbered files that were renamed together become frames of one merge, by ascending number. Here
/// the two have one directory, one new extension, which is empty where there is none that is
/// Unicode, and the stems `base.m` and `base.n`, each number in as many digits as you like.
pub proof fn law_numbered_files_are_merged_in_order(
    prev: Seq<EntryView>,
    curr: Seq<EntryView>,
    plan: Plan,
    f: (int, int),
    t: (int, int),
    base: Seq<char>,
    digits: (Seq<char>, Seq<char>),
    ext: Seq<char>,
)
    requires
        prev.len() <= usize::MAX,
        curr.len() <= usize::MAX,
        is_plan(prev, curr, plan),
        changed_extension(prev, curr, f.0, t.0),
        changed_extension(prev, curr, f.1, t.1),
        curr[t.0].path.parent == curr[t.1].path.parent,
        curr[t.0].path.stem == OsTextView::Unicode(base + seq!['.'] + digits.0),
        curr[t.1].path.stem == OsTextView::Unicode(base + seq!['.'] + digits.1),
        text_or(curr[t.0].path.ext, ""@) == ext,
        text_or(curr[t.1].path.ext, ""@) == ext,
        all_digits(digits.0) && all_digits(digits.1),
        digits.0.len() > 0 && digits.1.len() > 0,
        number(digits.0) < number(digits.1) <= u32::MAX,
    ensures
        exists|j: int, a: int, b: int|
            #![trigger plan.merges@[j].frames@[a], plan.merges@[j].frames@[b]]
            {
                &&& 0 <= j < plan.merges@.len()
                &&& plan.merges@[j].base@ == base
                &&& plan.merges@[j].to_ext@ == ext
                &&& 0 <= a < b < plan.merges@[j].frames@.len()
                &&& plan.merges@[j].frames@[a].to == t.0
                &&& plan.merges@[j].frames@[b].to == t.1
            },
{
    law_a_stem_with_a_number(base, digits.0);
    law_a_stem_with_a_number(base, digits.1);
    lemma_is_rename(prev, curr, f.0, t.0);
    lemma_is_rename(prev, curr, f.1, t.1);
    let key = GroupKey { parent: curr[t.0].path.parent, base, ext };
    let (t0, t1) = (t.0 as usize, t.1 as usize);
    assert(t0 != t1);
    law_sequences_are_merged(prev, curr, plan, key, t0, t1);
    let j = choose|j: int|
        #![trigger plan.merges@[j]]
        0 <= j < plan.merges@.len() && forall|f: usize, t: usize|
            #[trigger] is_rename(prev, curr, f, t) && group_of(curr[t as int]) == Some(key)
                ==> in_merge(plan, j, t);
    assert(in_merge(plan, j, t0) && in_merge(plan, j, t1));
    law_merges_are_sequences(prev, curr, plan, j);
    let frames = plan.merges@[j].frames@;
    let a = choose|k: int| 0 <= k < frames.len() && (#[trigger] frames[k]).to == t0;
    let b = choose|k: int| 0 <= k < frames.len() && (#[trigger] frames[k]).to == t1;
    assert(frames[a].number == number(digits.0) && frames[b].number == number(digits.1));
    if b <= a {
        assert(frames[b].number <= frames[a].number);
    }
}

/// A number may be written with zeros in front, as in `clip.007.png`, or without: either way the
/// stem has that number.
pub proof fn law_zeros_do_not_matter(base: Seq<char>, n: u32, width: nat)
    ensures
        numbered(OsTextView::Unicode(base + seq!['.'] + padded(n as nat, width))) == Some((base, n)),
{
    law_a_padded_number(n as nat, width);
    law_a_written_number_reads_back(n as nat);
    law_a_stem_with_a_number(base, padded(n as nat, width));
}

/// The frames of a merge stand by ascending number, and each under the number that its stem ends
/// in; the result has their base for its name, and their new extension.
pub proof fn law_a_merge_is_in_order(
    prev: Seq<EntryView>,
    curr: Seq<EntryView>,
    plan: Plan,
    j: int,
    a: int,
    b: int,
)
    requires
        prev.len() <= usize::MAX,
        curr.len() <= usize::MAX,
        is_plan(prev, curr, plan),
        0 <= j < plan.merges@.len(),
        0 <= a < b < plan.merges@[j].frames@.len(),
    ensures
        ({
            let m = plan.merges@[j];
            let p = curr[m.frames@[a].to as int].path;
            let q = curr[m.frames@[b].to as int].path;
            &&& m.frames@[a].number <= m.frames@[b].number
            &&& p.parent == q.parent
            &&& p.stem matches OsTextView::Unicode(s) && s.len() > m.base@.len() && s.take(
                m.base@.len() as int,
            ) == m.base@ && s[m.base@.len() as int] == '.'
            &&& m.to_ext@ == match p.ext {
                Some(OsTextView::Unicode(e)) => e,
                _ => ""@,
            }
            &&& m.to_ext@ == match q.ext {
                Some(OsTextView::Unicode(e)) => e,
                _ => ""@,
            }
        }),
{
    law_merges_are_sequences(prev, curr, plan, j);
    let m = plan.merges@[j];
    let p = curr[m.frames@[a].to as int].path;
    let q = curr[m.frames@[b].to as int].path;
    assert(numbered(p.stem) == Some((m.base@, m.frames@[a].number)));
    assert(numbered(q.stem) == Some((m.base@, m.frames@[b].number)));
    let s = p.stem->Unicode_0;
    s.index_of_last_ensures('.');
    assert(numbered_text(s) == Some((m.base@, m.frames@[a].number)));
}

/// A renamed file is handled by itself where it has no number, and where it is the only one of its
/// directory, its base and its new extension.
pub proof fn law_a_lone_file_is_handled_by_itself(
    prev: Seq<EntryView>,
    curr: Seq<EntryView>,
    plan: Plan,
    f: int,
    t: int,
)
    requires
        prev.len() <= usize::MAX,
        curr.len() <= usize::MAX,
        is_plan(prev, curr, plan),
        changed_extension(prev, curr, f, t),
        numbered(curr[t].path.stem) is None || forall|g: int, u: int|
            #[trigger] changed_extension(prev, curr, g, u) && u != t && curr[u].path.parent
                == curr[t].path.parent && text_or(curr[u].path.ext, ""@) == text_or(
                curr[t].path.ext,
                ""@,
            ) ==> match (numbered(curr[u].path.stem), numbered(curr[t].path.stem)) {
                (Some((other, _)), Some((base, _))) => other != base,
                _ => true,
            },
    ensures
        exists|i: int| 0 <= i < plan.renames@.len() && (#[trigger] plan.renames@[i]).to == t,
{
    let cs = candidates(prev, curr);
    lemma_is_rename(prev, curr, f, t);
    let c = lemma_rename_is_candidate(prev, curr, f as usize, t as usize);
    law_nothing_else_is_planned(prev, curr, plan);
    lemma_candidates(prev, curr);
    law_every_rename_is_planned(prev, curr, plan, f as usize, t as usize);
    if in_merges(plan, t as usize) {
        let (j, k) = choose|j: int, k: int|
            0 <= j < plan.merges@.len() && 0 <= k < plan.merges@[j].frames@.len() && (
            #[trigger] plan.merges@[j].frames@[k]).to == t;
        law_merges_are_sequences(prev, curr, plan, j);
        law_no_file_is_planned_twice(prev, curr, plan);
        let other: int = if k == 0 {
            1
        } else {
            0
        };
        let x = plan.merges@[j].frames@[other];
        let y = plan.merges@[j].frames@[k];
        assert(x.to != y.to);
        assert(changed_extension(prev, curr, x.from as int, x.to as int));
    }
}

} // verus!
