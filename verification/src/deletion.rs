//! What a deletion leaves on the disk where no backup can be made: the
//! versions are gone all the same.

use crate::disk::{answers, is_run, Disk, World};
use crate::host::Place;
use crate::protector::{
    asked_in_round, delete_versions_flow, lemma_deletion_goes_on_without_backup, lemma_round_asks,
    removal, round_length, round_without_backup, ProtectionResultView,
};
use crate::protocol::{OpView, ReplyView, StepView};
use crate::round_trip::nothing_at;
use vstd::prelude::*;

verus! {

/// Whether the attempt of the `k`-th round to create the root of the backup
/// store, which failed, left the disk as it was.
pub open spec fn failure_left_no_trace(worlds: Seq<World>, k: int) -> bool {
    worlds[4 * k + 3].disk == worlds[4 * k + 2].disk
}

/// Whether `after` holds something only where `before` did.
pub open spec fn holds_no_more(before: Disk, after: Disk) -> bool {
    forall|q: Place| #[trigger] after.holds(q) ==> before.holds(q)
}

/// The two changes that remove the version directory at `path`.
pub open spec fn removal_changes(path: Seq<char>) -> Seq<OpView> {
    seq![OpView::ClearReadonly(Place::at(path)), OpView::RemoveDirAll(Place::at(path))]
}

/// Removing a version directory leaves nothing at its place and adds nothing
/// anywhere.
pub proof fn lemma_removal_on_disk(d: Disk, path: Seq<char>)
    ensures
        nothing_at(d.effects(removal_changes(path)), Place::at(path)),
        holds_no_more(d, d.effects(removal_changes(path))),
{
    let p = Place::at(path);
    let ops = removal_changes(path);
    reveal_with_fuel(Disk::effects, 3);
    assert(ops.drop_last() =~= seq![OpView::ClearReadonly(p)]);
    assert(ops.drop_last().drop_last() =~= Seq::<OpView>::empty());
    let cleared = d.effect(OpView::ClearReadonly(p));
    assert(d.effects(ops) == cleared.effect(OpView::RemoveDirAll(p)));
    assert forall|q: Place| #[trigger] d.effects(ops).holds(q) implies d.holds(q) && !q.within(p) by {
        assert(cleared.holds(q));
    }
}

proof fn lemma_round_on_disk(
    paths: Seq<Seq<char>>,
    worlds: Seq<World>,
    history: Seq<ReplyView>,
    known: bool,
    k: int,
)
    requires
        is_run(|h: Seq<ReplyView>| delete_versions_flow(paths, h, 0).step(), worlds, history),
        0 <= k < paths.len(),
        forall|j: int| 0 <= j <= k ==> #[trigger] round_without_backup(history, known, j),
        known ==> failure_left_no_trace(worlds, k),
    ensures
        worlds[round_length(known) * (k + 1)].disk == worlds[round_length(known) * k].disk.effects(
            removal_changes(paths[k]),
        ),
{
    let steps = |h: Seq<ReplyView>| delete_versions_flow(paths, h, 0).step();
    let stride = round_length(known);
    let at = stride * k;
    assert(round_without_backup(history, known, k));
    assert(stride * (k + 1) == at + stride) by (nonlinear_arith)
        requires
            at == stride * k,
    ;
    let none = Seq::<Seq<char>>::empty();
    lemma_round_asks(paths, known, 0, k, 0, none, history);
    assert(steps(history.take(at)) == StepView::<ProtectionResultView>::Ask(
        asked_in_round(paths, history, known, k, 0),
    ));
    assert(answers(worlds[at], steps(history.take(at))->Ask_0, history[at], worlds[at + 1]));
    assert(worlds[at + 1].disk == worlds[at].disk);
    lemma_round_asks(paths, known, 0, k, 1, none, history);
    assert(steps(history.take(at + 1)) == StepView::<ProtectionResultView>::Ask(
        asked_in_round(paths, history, known, k, 1),
    ));
    assert(answers(
        worlds[at + 1],
        steps(history.take(at + 1))->Ask_0,
        history[at + 1],
        worlds[at + 2],
    ));
    assert(worlds[at + 2].disk == worlds[at].disk);
    if known {
        assert(failure_left_no_trace(worlds, k));
        assert(worlds[at + 3].disk == worlds[at].disk);
    }
    let last = at + stride - 1;
    assert(worlds[last].disk == worlds[at].disk);
    lemma_round_asks(paths, known, 0, k, stride - 1, none, history);
    assert(steps(history.take(last)) == StepView::<ProtectionResultView>::Ask(removal(paths[k])));
    assert(answers(worlds[last], steps(history.take(last))->Ask_0, history[last], worlds[last + 1]));
}

proof fn lemma_gone_after_rounds(
    paths: Seq<Seq<char>>,
    worlds: Seq<World>,
    history: Seq<ReplyView>,
    known: bool,
    r: int,
)
    requires
        is_run(|h: Seq<ReplyView>| delete_versions_flow(paths, h, 0).step(), worlds, history),
        0 <= r <= paths.len(),
        forall|k: int| 0 <= k < r ==> #[trigger] round_without_backup(history, known, k),
        known ==> forall|k: int| 0 <= k < r ==> #[trigger] failure_left_no_trace(worlds, k),
    ensures
        forall|k: int|
            0 <= k < r ==> nothing_at(
                worlds[round_length(known) * r].disk,
                Place::at(#[trigger] paths[k]),
            ),
    decreases r,
{
    if r > 0 {
        let stride = round_length(known);
        lemma_gone_after_rounds(paths, worlds, history, known, r - 1);
        lemma_round_on_disk(paths, worlds, history, known, r - 1);
        let before = worlds[stride * (r - 1)].disk;
        let after = worlds[stride * r].disk;
        lemma_removal_on_disk(before, paths[r - 1]);
        assert forall|k: int| 0 <= k < r implies nothing_at(after, Place::at(#[trigger] paths[k])) by {
            if k < r - 1 {
                assert(nothing_at(before, Place::at(paths[k])));
                assert forall|q: Place| q.within(Place::at(paths[k])) implies !(#[trigger] after.holds(
                    q,
                )) by {
                    if after.holds(q) {
                        assert(before.holds(q));
                    }
                }
            }
        }
    }
}

proof fn lemma_rounds_fit(paths: Seq<Seq<char>>, history: Seq<ReplyView>, known: bool, k: int)
    requires
        0 <= k < paths.len(),
        round_without_backup(history, known, k),
    ensures
        0 <= round_length(known) * k,
        round_length(known) * k + round_length(known) <= round_length(known) * paths.len(),
        k == paths.len() - 1 ==> round_length(known) * paths.len() <= history.len(),
{
    let stride = round_length(known);
    let n = paths.len() as int;
    assert(stride * k + stride <= stride * n) by (nonlinear_arith)
        requires
            0 <= k < n,
            stride > 0,
    ;
    assert(k == n - 1 ==> stride * k + stride == stride * n) by (nonlinear_arith);
}

proof fn lemma_run_ends_with_the_rounds(
    paths: Seq<Seq<char>>,
    worlds: Seq<World>,
    history: Seq<ReplyView>,
    known: bool,
)
    requires
        is_run(|h: Seq<ReplyView>| delete_versions_flow(paths, h, 0).step(), worlds, history),
        forall|k: int| 0 <= k < paths.len() ==> #[trigger] round_without_backup(history, known, k),
    ensures
        history.len() == round_length(known) * paths.len(),
{
    let steps = |h: Seq<ReplyView>| delete_versions_flow(paths, h, 0).step();
    let end = round_length(known) * paths.len();
    if paths.len() > 0 {
        assert(round_without_backup(history, known, paths.len() - 1));
        lemma_rounds_fit(paths, history, known, paths.len() - 1);
    }
    assert(0 <= end <= history.len());
    if end < history.len() {
        let short = history.take(end);
        assert forall|k: int| 0 <= k < paths.len() implies #[trigger] round_without_backup(
            short,
            known,
            k,
        ) by {
            assert(round_without_backup(history, known, k));
            lemma_rounds_fit(paths, history, known, k);
        }
        lemma_deletion_goes_on_without_backup(paths, short, known);
        assert(steps(short) is Done);
        assert(answers(worlds[end], steps(history.take(end))->Ask_0, history[end], worlds[end + 1]));
    }
}

/// Versions that are deleted without a backup are gone. Let a faithful host
/// answer a deletion of the versions at `paths` in which no backup is
/// possible for any version, because the application data directory is
/// unknown or, where `known` is set, because the root of the backup store
/// cannot be created; let each failed attempt to create that root leave the
/// disk as it was, and each version directory be removable. Then the run ends
/// with the last of these rounds, and afterwards the disk holds nothing at
/// any of the paths or under it.
pub proof fn lemma_deleted_versions_are_gone(
    paths: Seq<Seq<char>>,
    worlds: Seq<World>,
    history: Seq<ReplyView>,
    known: bool,
)
    requires
        is_run(|h: Seq<ReplyView>| delete_versions_flow(paths, h, 0).step(), worlds, history),
        forall|k: int| 0 <= k < paths.len() ==> #[trigger] round_without_backup(history, known, k),
        known ==> forall|k: int|
            0 <= k < paths.len() ==> #[trigger] failure_left_no_trace(worlds, k),
    ensures
        history.len() == round_length(known) * paths.len(),
        forall|k: int|
            0 <= k < paths.len() ==> nothing_at(worlds.last().disk, Place::at(#[trigger] paths[k])),
{
    lemma_run_ends_with_the_rounds(paths, worlds, history, known);
    lemma_gone_after_rounds(paths, worlds, history, known, paths.len() as int);
}

} // verus!
