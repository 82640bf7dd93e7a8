//! A backup that is restored brings back what was backed up: on a disk where
//! every change goes through, the files of a version directory that was
//! backed up, removed and restored are the files it had, but for those named
//! like the metadata file.

use crate::backup::{
    backup_flow, backup_place, backup_root, copy_plan, entry_ops, left_out,
    lemma_identity_key_names_one_backup, names_one_backup, recorded_size, restore_flow,
    version_name_of,
};
use crate::disk::{all_changes_made, answers, is_run, same_at, Disk, World};
use crate::host::{is_plain, total_size, EntryView, Place};
use crate::protocol::{OpView, ReplyView, RequestView, StepView};
use crate::records::{
    identity_key, sidecar_name, BackupRecord, BackupResultView, RestoreResultView,
};
use vstd::prelude::*;

verus! {

/// Making the changes `first` and then the changes `then` is making the
/// changes of both in a row.
pub proof fn lemma_effects_in_a_row(d: Disk, first: Seq<OpView>, then: Seq<OpView>)
    ensures
        d.effects(first + then) == d.effects(first).effects(then),
    decreases then.len(),
{
    if then.len() == 0 {
        assert(first + then =~= first);
    } else {
        lemma_effects_in_a_row(d, first, then.drop_last());
        assert((first + then).drop_last() =~= first + then.drop_last());
        assert((first + then).last() == then.last());
    }
}

/// Whether the copy planned from `entries` copies a file to `rel`: one of the
/// entries lies at `rel`, is no directory, and is not left out.
pub open spec fn copies_to(entries: Seq<EntryView>, exclude: Option<Seq<char>>, rel: Seq<Seq<char>>) -> bool {
    exists|j: int|
        0 <= j < entries.len() && (#[trigger] entries[j]).rel == rel && !entries[j].is_dir
            && !left_out(entries[j], exclude)
}

/// Whether the two disks hold the same file, or both none, at every place
/// outside the tree at `root`.
pub open spec fn same_files_outside(a: Disk, b: Disk, root: Place) -> bool {
    forall|q: Place| !q.within(root) ==> #[trigger] a.file(q) == b.file(q)
}

proof fn lemma_below_is_one_to_one(root: Place, a: Seq<Seq<char>>, b: Seq<Seq<char>>)
    requires
        root.below(a) == root.below(b),
    ensures
        a == b,
{
    let n = root.parts.len() as int;
    assert((root.parts + a).len() == (root.parts + b).len());
    assert(a =~= b) by {
        assert forall|i: int| 0 <= i < a.len() implies a[i] == b[i] by {
            assert((root.parts + a)[n + i] == a[i]);
            assert((root.parts + b)[n + i] == b[i]);
        }
    }
}

proof fn lemma_below_is_within(root: Place, rel: Seq<Seq<char>>)
    ensures
        root.below(rel).within(root),
{
    assert((root.parts + rel).subrange(0, root.parts.len() as int) =~= root.parts);
}

proof fn lemma_within_is_below(q: Place, root: Place)
    requires
        q.within(root),
    ensures
        q == root.below(q.parts.skip(root.parts.len() as int)),
{
    let n = root.parts.len() as int;
    assert(q.parts.subrange(0, n) == root.parts);
    assert(q.parts =~= root.parts + q.parts.skip(n));
}

/// What a planned copy does to the files of a disk. Let `entries` be a walk
/// of the directory `src`, and let `dst` lie under another base. After the
/// changes planned from the walk, nothing outside `dst` has changed; under
/// `dst`, each place to which the plan copies holds the file that `src` holds
/// at the same relative place, and every other place holds what it held;
/// and what there was at `dst` itself is still there.
pub proof fn lemma_copy_plan(
    d: Disk,
    src: Place,
    dst: Place,
    entries: Seq<EntryView>,
    exclude: Option<Seq<char>>,
    k: int,
)
    requires
        0 <= k <= entries.len(),
        src.base != dst.base,
        d.holds(src),
        d.nodes[src] is Dir,
        forall|i: int| 0 <= i < entries.len() ==> d.describes(src, #[trigger] entries[i]),
    ensures
        same_files_outside(d, d.effects(copy_plan(entries.take(k), src, dst, exclude)), dst),
        forall|rel: Seq<Seq<char>>| #[trigger]
            d.effects(copy_plan(entries.take(k), src, dst, exclude)).file(dst.below(rel)) == if copies_to(
                entries.take(k),
                exclude,
                rel,
            ) {
                d.file(src.below(rel))
            } else {
                d.file(dst.below(rel))
            },
        forall|q: Place|
            d.holds(q) ==> #[trigger] d.effects(copy_plan(entries.take(k), src, dst, exclude)).holds(
                q,
            ),
        d.holds(dst) ==> same_at(d, d.effects(copy_plan(entries.take(k), src, dst, exclude)), dst),
        d.effects(copy_plan(entries.take(k), src, dst, exclude)).measure == d.measure,
        d.effects(copy_plan(entries.take(k), src, dst, exclude)).render == d.render,
    decreases k,
{
    let head = entries.take(k);
    if k == 0 {
        assert(copy_plan(head, src, dst, exclude) =~= Seq::<OpView>::empty());
        assert forall|rel: Seq<Seq<char>>| !copies_to(head, exclude, rel) by {}
    } else {
        let before = entries.take(k - 1);
        let e = entries[k - 1];
        assert(head.drop_last() =~= before);
        assert(head.last() == e);
        lemma_copy_plan(d, src, dst, entries, exclude, k - 1);
        let d1 = d.effects(copy_plan(before, src, dst, exclude));
        let step = if left_out(e, exclude) {
            Seq::<OpView>::empty()
        } else {
            entry_ops(e, src, dst)
        };
        assert(copy_plan(head, src, dst, exclude) == copy_plan(before, src, dst, exclude) + step);
        lemma_effects_in_a_row(d, copy_plan(before, src, dst, exclude), step);
        let d2 = d1.effects(step);
        assert(d.effects(copy_plan(head, src, dst, exclude)) == d2);
        let to = dst.below(e.rel);
        let from = src.below(e.rel);
        lemma_below_is_within(dst, e.rel);
        lemma_below_is_within(src, e.rel);
        assert(d.describes(src, e));
        reveal_with_fuel(Disk::effects, 3);
        // Whether an entry before the last copies to a place does not depend
        // on the last entry.
        assert forall|rel: Seq<Seq<char>>|
            copies_to(head, exclude, rel) == (copies_to(before, exclude, rel) || (e.rel == rel
                && !e.is_dir && !left_out(e, exclude))) by {
            if copies_to(before, exclude, rel) {
                let j = choose|j: int|
                    0 <= j < before.len() && (#[trigger] before[j]).rel == rel && !before[j].is_dir
                        && !left_out(before[j], exclude);
                assert(head[j] == before[j]);
            }
            if e.rel == rel && !e.is_dir && !left_out(e, exclude) {
                assert(head[k - 1] == e);
            }
            if copies_to(head, exclude, rel) {
                let j = choose|j: int|
                    0 <= j < head.len() && (#[trigger] head[j]).rel == rel && !head[j].is_dir
                        && !left_out(head[j], exclude);
                if j < k - 1 {
                    assert(before[j] == head[j]);
                }
            }
        }
        if left_out(e, exclude) {
            assert(d2 == d1);
        } else if e.is_dir {
            assert(step =~= seq![OpView::CreateDirAll(to)]);
            assert(step.drop_last() =~= Seq::<OpView>::empty());
            assert(d2 == d1.with_dirs(to));
            assert forall|q: Place| #[trigger] d2.file(q) == d1.file(q) by {}
        } else {
            assert(step =~= seq![
                OpView::CreateParentDirs(to),
                OpView::CopyFile { from, to },
            ]);
            assert(step.drop_last() =~= seq![OpView::CreateParentDirs(to)]);
            assert(step.drop_last().drop_last() =~= Seq::<OpView>::empty());
            let mid = d1.effect(OpView::CreateParentDirs(to));
            assert(d2 == mid.effect(OpView::CopyFile { from, to }));
            assert forall|q: Place| #[trigger] mid.file(q) == d1.file(q) by {}
            // The source is untouched so far: it lies outside the target.
            assert(!from.within(dst));
            assert(d1.file(from) == d.file(from));
            assert(d.file(from) is Some);
            assert(e.rel.len() > 0) by {
                if e.rel.len() == 0 {
                    assert(src.below(e.rel) =~= src);
                }
            }
            assert(to != dst) by {
                assert(to.parts.len() == dst.parts.len() + e.rel.len());
            }
            assert forall|q: Place| !q.within(dst) implies #[trigger] d2.file(q) == d.file(q) by {
                assert(q != to);
                assert(d1.file(q) == d.file(q));
            }
            assert forall|rel: Seq<Seq<char>>| #[trigger]
                d2.file(dst.below(rel)) == if copies_to(head, exclude, rel) {
                    d.file(src.below(rel))
                } else {
                    d.file(dst.below(rel))
                } by {
                if dst.below(rel) == to {
                    lemma_below_is_one_to_one(dst, rel, e.rel);
                } else {
                    assert(d2.file(dst.below(rel)) == d1.file(dst.below(rel)));
                }
            }
        }
    }
}

/// Whether a relative place is that of the metadata file of a backup:
/// directly under the root, with the name of that file.
pub open spec fn is_the_sidecar(rel: Seq<Seq<char>>) -> bool {
    rel == seq![sidecar_name()]
}

/// Whether nothing lies at `root` or under it.
pub open spec fn nothing_at(d: Disk, root: Place) -> bool {
    forall|q: Place| q.within(root) ==> !(#[trigger] d.holds(q))
}

proof fn lemma_walk_copies_files(
    d: Disk,
    src: Place,
    entries: Seq<EntryView>,
    exclude: Option<Seq<char>>,
    rel: Seq<Seq<char>>,
)
    requires
        d.is_walk(src, entries),
    ensures
        copies_to(entries, exclude, rel) == (d.file(src.below(rel)) is Some && !(exclude is Some
            && rel == seq![exclude->0])),
{
    let q = src.below(rel);
    lemma_below_is_within(src, rel);
    if copies_to(entries, exclude, rel) {
        let j = choose|j: int|
            0 <= j < entries.len() && (#[trigger] entries[j]).rel == rel && !entries[j].is_dir
                && !left_out(entries[j], exclude);
        assert(d.describes(src, entries[j]));
    }
    if d.file(q) is Some && !(exclude is Some && rel == seq![exclude->0]) {
        assert(d.holds(q) && q.within(src));
        let i = choose|i: int|
            0 <= i < entries.len() && src.below(#[trigger] entries[i].rel) == q;
        lemma_below_is_one_to_one(src, entries[i].rel, rel);
        assert(d.describes(src, entries[i]));
    }
}

proof fn lemma_with_dirs_keeps_files(d: Disk, p: Place)
    ensures
        forall|q: Place| #[trigger] d.with_dirs(p).file(q) == d.file(q),
        forall|q: Place| d.holds(q) ==> same_at(d, d.with_dirs(p), q),
        d.with_dirs(p).holds(p),
        !d.holds(p) ==> d.with_dirs(p).nodes[p] is Dir,
{
    assert(p.within(p));
}

/// Making one change is making the changes of a list that holds it alone.
pub proof fn lemma_one_change(d: Disk, op: OpView)
    ensures
        d.effects(seq![op]) == d.effect(op),
{
    reveal_with_fuel(Disk::effects, 2);
    assert(seq![op].drop_last() =~= Seq::<OpView>::empty());
}

/// The name of the backup that the history of a backup stands for.
pub open spec fn backup_id_of(history: Seq<ReplyView>) -> Seq<char> {
    identity_key(version_name_of(history[3].text()), history[2].time())
}

/// The record that the history of a backup stands for.
pub open spec fn backup_record_of(history: Seq<ReplyView>, path: Seq<char>, reason: Seq<char>) -> BackupRecord {
    BackupRecord {
        version_name: version_name_of(history[3].text()),
        original_path: path,
        created_at: history[2].time(),
        size_bytes: recorded_size(total_size(history[8].entries())),
        reason,
    }
}

proof fn lemma_backup_trace(
    worlds: Seq<World>,
    history: Seq<ReplyView>,
    path: Seq<char>,
    reason: Seq<char>,
)
    requires
        is_run(|h: Seq<ReplyView>| backup_flow(path, reason, h, 0).step(), worlds, history),
        all_changes_made(|h: Seq<ReplyView>| backup_flow(path, reason, h, 0).step(), history),
        backup_flow(path, reason, history, 0) is Done,
        backup_flow(path, reason, history, 0)->value.success,
        worlds[0].app_data is Some,
    ensures
        history.len() == 10,
        is_plain(version_name_of(history[3].text())),
        backup_flow(path, reason, history, 0)->value.backup_id == Some(backup_id_of(history)),
        worlds.last().app_data == worlds[0].app_data,
        ({
            let root = backup_root(worlds[0].app_data->0);
            let dir = root.child(backup_id_of(history));
            let src = Place::at(path);
            let d1 = worlds[0].disk.with_dirs(root);
            let d2 = d1.with_dirs(dir);
            &&& d1.seen(src) is Some
            &&& d1.seen(src)->0.is_dir
            &&& d2.is_walk(src, history[6].entries())
            &&& worlds.last().disk == d2.effects(
                copy_plan(history[6].entries(), src, dir, None),
            ).effect(
                OpView::WriteRecord {
                    to: dir.child(sidecar_name()),
                    record: backup_record_of(history, path, reason),
                },
            )
        }),
{
    let steps = |h: Seq<ReplyView>| backup_flow(path, reason, h, 0).step();
    let n = history.len() as int;
    let d0 = worlds[0].disk;
    let app_data = worlds[0].app_data->0;
    let root = backup_root(app_data);
    let src = Place::at(path);
    assert(n > 0);
    assert(history.take(0).len() == 0);
    assert(steps(history.take(0)) is Ask);
    assert(answers(worlds[0], steps(history.take(0))->Ask_0, history[0], worlds[1]));
    assert(history[0] == ReplyView::Text(Some(app_data)));
    assert(n > 1);
    assert(history.take(1) =~= seq![history[0]]);
    assert(steps(history.take(1)) == StepView::<BackupResultView>::Ask(
        RequestView::Apply(seq![OpView::CreateDirAll(root)]),
    ));
    assert(answers(worlds[1], steps(history.take(1))->Ask_0, history[1], worlds[2]));
    assert(history[1].outcome() is Ok);
    let d1 = worlds[2].disk;
    lemma_one_change(d0, OpView::CreateDirAll(root));
    assert(d1 == d0.with_dirs(root));
    assert(n > 2);
    assert(history.take(2) =~= seq![history[0], history[1]]);
    assert(steps(history.take(2)) == StepView::<BackupResultView>::Ask(RequestView::Clock));
    assert(answers(worlds[2], steps(history.take(2))->Ask_0, history[2], worlds[3]));
    assert(n > 3);
    assert(history.take(3) =~= seq![history[0], history[1], history[2]]);
    assert(steps(history.take(3)) == StepView::<BackupResultView>::Ask(RequestView::LeafName(src)));
    assert(answers(worlds[3], steps(history.take(3))->Ask_0, history[3], worlds[4]));
    let dir = root.child(backup_id_of(history));
    assert(worlds[4].disk == d1);
    assert(n > 4);
    assert(history.take(4) =~= seq![history[0], history[1], history[2], history[3]]);
    assert(steps(history.take(4)) == StepView::<BackupResultView>::Ask(RequestView::Stat(src)));
    assert(answers(worlds[4], steps(history.take(4))->Ask_0, history[4], worlds[5]));
    assert(history[4].meta() == d1.seen(src));
    assert(worlds[5].disk == d1);
    assert(n > 5);
    assert(history.take(5).len() == 5);
    assert(d1.seen(src) is Some && d1.seen(src)->0.is_dir);
    assert(steps(history.take(5)) == StepView::<BackupResultView>::Ask(
        RequestView::Apply(seq![OpView::CreateDirAll(dir)]),
    ));
    assert(answers(worlds[5], steps(history.take(5))->Ask_0, history[5], worlds[6]));
    assert(history[5].outcome() is Ok);
    let d2 = worlds[6].disk;
    lemma_one_change(d1, OpView::CreateDirAll(dir));
    assert(d2 == d1.with_dirs(dir));
    assert(n > 6);
    assert(history.take(6).len() == 6);
    assert(steps(history.take(6)) == StepView::<BackupResultView>::Ask(RequestView::Walk(src)));
    assert(answers(worlds[6], steps(history.take(6))->Ask_0, history[6], worlds[7]));
    let entries = history[6].entries();
    assert(d2.is_walk(src, entries));
    assert(worlds[7].disk == d2);
    assert(n > 7);
    assert(history.take(7).len() == 7);
    let plan = copy_plan(entries, src, dir, None);
    assert(steps(history.take(7)) == StepView::<BackupResultView>::Ask(RequestView::Apply(plan)));
    assert(answers(worlds[7], steps(history.take(7))->Ask_0, history[7], worlds[8]));
    assert(history[7].outcome() is Ok);
    let d3 = worlds[8].disk;
    assert(d3 == d2.effects(plan));
    assert(n > 8);
    assert(history.take(8).len() == 8);
    assert(steps(history.take(8)) == StepView::<BackupResultView>::Ask(RequestView::Walk(dir)));
    assert(answers(worlds[8], steps(history.take(8))->Ask_0, history[8], worlds[9]));
    assert(worlds[9].disk == d3);
    assert(n > 9);
    assert(history.take(9).len() == 9);
    let write = OpView::WriteRecord {
        to: dir.child(sidecar_name()),
        record: backup_record_of(history, path, reason),
    };
    assert(steps(history.take(9)) == StepView::<BackupResultView>::Ask(
        RequestView::Apply(seq![write]),
    ));
    assert(answers(worlds[9], steps(history.take(9))->Ask_0, history[9], worlds[10]));
    assert(history[9].outcome() is Ok);
    lemma_one_change(d3, write);
    assert(worlds[10].disk == d3.effect(write));
    if n > 10 {
        assert(history.take(10).len() == 10);
        assert(steps(history.take(10)) is Done);
        assert(answers(worlds[10], steps(history.take(10))->Ask_0, history[10], worlds[11]));
    }
    assert(n == 10);
    assert(worlds.last() == worlds[10]);
    assert(history.take(10) =~= history);
}

proof fn lemma_backup_disk(
    d0: Disk,
    root: Place,
    dir: Place,
    src: Place,
    entries: Seq<EntryView>,
    record: BackupRecord,
)
    requires
        src.base != dir.base,
        nothing_at(d0, dir),
        d0.with_dirs(root).seen(src) is Some,
        d0.with_dirs(root).seen(src)->0.is_dir,
        d0.with_dirs(root).with_dirs(dir).is_walk(src, entries),
    ensures
        ({
            let last = d0.with_dirs(root).with_dirs(dir).effects(
                copy_plan(entries, src, dir, None),
            ).effect(OpView::WriteRecord { to: dir.child(sidecar_name()), record });
            &&& last.holds(dir)
            &&& last.nodes[dir] is Dir
            &&& last.file(dir.child(sidecar_name())) is Some
            &&& last.file(dir.child(sidecar_name()))->0.record == Some(record)
            &&& forall|rel: Seq<Seq<char>>|
                rel != seq![sidecar_name()] ==> #[trigger] last.file(dir.below(rel)) == d0.file(
                    src.below(rel),
                )
        }),
{
    let d1 = d0.with_dirs(root);
    let d2 = d1.with_dirs(dir);
    let plan = copy_plan(entries, src, dir, None);
    let d3 = d2.effects(plan);
    let side = dir.child(sidecar_name());
    let d4 = d3.effect(OpView::WriteRecord { to: side, record });
    lemma_with_dirs_keeps_files(d0, root);
    lemma_with_dirs_keeps_files(d1, dir);
    assert(entries.take(entries.len() as int) =~= entries);
    assert(d2.holds(src) && d2.nodes[src] is Dir);
    lemma_copy_plan(d2, src, dir, entries, None, entries.len() as int);
    assert(dir.within(dir));
    assert(!d0.holds(dir));
    assert(d1.holds(dir) ==> d1.nodes[dir] is Dir);
    assert(d2.holds(dir) && d2.nodes[dir] is Dir);
    assert(same_at(d2, d3, dir));
    assert(side.parts.len() == dir.parts.len() + 1);
    assert(side != dir);
    assert forall|rel: Seq<Seq<char>>| rel != seq![sidecar_name()] implies #[trigger] d4.file(
        dir.below(rel),
    ) == d0.file(src.below(rel)) by {
        lemma_walk_copies_files(d2, src, entries, None, rel);
        lemma_below_is_within(dir, rel);
        assert(d2.file(src.below(rel)) == d0.file(src.below(rel)));
        assert(d2.file(dir.below(rel)) == d0.file(dir.below(rel)));
        assert(!d0.holds(dir.below(rel)));
        assert(d3.file(dir.below(rel)) == d0.file(src.below(rel)));
        if dir.below(rel) == side {
            assert(dir.parts.push(sidecar_name()) =~= dir.parts + seq![sidecar_name()]);
            assert(side == dir.below(seq![sidecar_name()]));
            lemma_below_is_one_to_one(dir, rel, seq![sidecar_name()]);
        }
        assert(d4.file(dir.below(rel)) == d3.file(dir.below(rel)));
    }
}

proof fn lemma_backup_run(
    worlds: Seq<World>,
    history: Seq<ReplyView>,
    path: Seq<char>,
    reason: Seq<char>,
)
    requires
        is_run(|h: Seq<ReplyView>| backup_flow(path, reason, h, 0).step(), worlds, history),
        all_changes_made(|h: Seq<ReplyView>| backup_flow(path, reason, h, 0).step(), history),
        backup_flow(path, reason, history, 0) is Done,
        backup_flow(path, reason, history, 0)->value.success,
        worlds[0].app_data is Some,
        worlds[0].app_data->0 != path,
        backup_flow(path, reason, history, 0)->value.backup_id is Some ==> nothing_at(
            worlds[0].disk,
            backup_place(
                worlds[0].app_data->0,
                backup_flow(path, reason, history, 0)->value.backup_id->0,
            ),
        ),
    ensures
        backup_flow(path, reason, history, 0)->value.backup_id is Some,
        names_one_backup(backup_flow(path, reason, history, 0)->value.backup_id->0),
        worlds.last().app_data == worlds[0].app_data,
        ({
            let dir = backup_place(
                worlds[0].app_data->0,
                backup_flow(path, reason, history, 0)->value.backup_id->0,
            );
            let last = worlds.last().disk;
            &&& last.holds(dir)
            &&& last.nodes[dir] is Dir
            &&& last.file(dir.child(sidecar_name())) is Some
            &&& last.file(dir.child(sidecar_name()))->0.record is Some
            &&& last.file(dir.child(sidecar_name()))->0.record->0.original_path == path
            &&& forall|rel: Seq<Seq<char>>|
                rel != seq![sidecar_name()] ==> #[trigger] last.file(dir.below(rel))
                    == worlds[0].disk.file(Place::at(path).below(rel))
        }),
{
    lemma_backup_trace(worlds, history, path, reason);
    lemma_identity_key_names_one_backup(version_name_of(history[3].text()), history[2].time());
    let root = backup_root(worlds[0].app_data->0);
    let dir = root.child(backup_id_of(history));
    lemma_backup_disk(
        worlds[0].disk,
        root,
        dir,
        Place::at(path),
        history[6].entries(),
        backup_record_of(history, path, reason),
    );
}

proof fn lemma_restore_run(
    worlds: Seq<World>,
    history: Seq<ReplyView>,
    id: Seq<char>,
    path: Seq<char>,
)
    requires
        is_run(|h: Seq<ReplyView>| restore_flow(id, h, 0).step(), worlds, history),
        all_changes_made(|h: Seq<ReplyView>| restore_flow(id, h, 0).step(), history),
        restore_flow(id, history, 0) is Done,
        names_one_backup(id),
        worlds[0].app_data is Some,
        worlds[0].app_data->0 != path,
        ({
            let dir = backup_place(worlds[0].app_data->0, id);
            let d0 = worlds[0].disk;
            &&& d0.holds(dir)
            &&& d0.nodes[dir] is Dir
            &&& d0.file(dir.child(sidecar_name())) is Some
            &&& d0.file(dir.child(sidecar_name()))->0.record is Some
            &&& d0.file(dir.child(sidecar_name()))->0.record->0.original_path == path
            &&& nothing_at(d0, Place::at(path))
        }),
    ensures
        restore_flow(id, history, 0)->value == RestoreResultView::done(path),
        same_files_outside(worlds[0].disk, worlds.last().disk, Place::at(path)),
        forall|rel: Seq<Seq<char>>| #[trigger]
            worlds.last().disk.file(Place::at(path).below(rel)) == if is_the_sidecar(rel) {
                None
            } else {
                worlds[0].disk.file(backup_place(worlds[0].app_data->0, id).below(rel))
            },
{
    let steps = |h: Seq<ReplyView>| restore_flow(id, h, 0).step();
    let n = history.len() as int;
    let d0 = worlds[0].disk;
    let app_data = worlds[0].app_data->0;
    let dir = backup_place(app_data, id);
    let home = Place::at(path);
    let side = dir.child(sidecar_name());
    assert(home.within(home));
    assert(n > 0);
    assert(history.take(0).len() == 0);
    assert(steps(history.take(0)) is Ask);
    assert(answers(worlds[0], steps(history.take(0))->Ask_0, history[0], worlds[1]));
    assert(history[0] == ReplyView::Text(Some(app_data)));
    assert(n > 1);
    assert(history.take(1) =~= seq![history[0]]);
    assert(steps(history.take(1)) == StepView::<RestoreResultView>::Ask(RequestView::Stat(dir)));
    assert(answers(worlds[1], steps(history.take(1))->Ask_0, history[1], worlds[2]));
    assert(worlds[1].disk == d0);
    assert(history[1].meta() == d0.seen(dir));
    assert(n > 2);
    assert(history.take(2) =~= seq![history[0], history[1]]);
    assert(steps(history.take(2)) == StepView::<RestoreResultView>::Ask(
        RequestView::ReadRecord(side),
    ));
    assert(answers(worlds[2], steps(history.take(2))->Ask_0, history[2], worlds[3]));
    assert(worlds[2].disk == d0);
    let record = d0.file(side)->0.record->0;
    assert(history[2] == ReplyView::Record(Ok(record)));
    assert(n > 3);
    assert(history.take(3) =~= seq![history[0], history[1], history[2]]);
    assert(steps(history.take(3)) == StepView::<RestoreResultView>::Ask(
        RequestView::Apply(seq![OpView::CreateParentDirs(home)]),
    ));
    assert(answers(worlds[3], steps(history.take(3))->Ask_0, history[3], worlds[4]));
    assert(history[3].outcome() is Ok);
    lemma_one_change(d0, OpView::CreateParentDirs(home));
    assert(worlds[4].disk == d0);
    assert(n > 4);
    assert(history.take(4) =~= seq![history[0], history[1], history[2], history[3]]);
    assert(steps(history.take(4)) == StepView::<RestoreResultView>::Ask(RequestView::Stat(home)));
    assert(answers(worlds[4], steps(history.take(4))->Ask_0, history[4], worlds[5]));
    assert(history[4].meta() == d0.seen(home));
    assert(!d0.holds(home));
    assert(worlds[5].disk == d0);
    // The copy.
    assert(n > 5);
    assert(history.take(5).len() == 5);
    assert(steps(history.take(5)) == StepView::<RestoreResultView>::Ask(RequestView::Stat(dir)));
    assert(answers(worlds[5], steps(history.take(5))->Ask_0, history[5], worlds[6]));
    assert(history[5].meta() == d0.seen(dir));
    assert(worlds[6].disk == d0);
    assert(n > 6);
    assert(history.take(6).len() == 6);
    assert(steps(history.take(6)) == StepView::<RestoreResultView>::Ask(
        RequestView::Apply(seq![OpView::CreateDirAll(home)]),
    ));
    assert(answers(worlds[6], steps(history.take(6))->Ask_0, history[6], worlds[7]));
    assert(history[6].outcome() is Ok);
    let d1 = worlds[7].disk;
    lemma_one_change(d0, OpView::CreateDirAll(home));
    assert(d1 == d0.with_dirs(home));
    lemma_with_dirs_keeps_files(d0, home);
    assert(n > 7);
    assert(history.take(7).len() == 7);
    assert(steps(history.take(7)) == StepView::<RestoreResultView>::Ask(RequestView::Walk(dir)));
    assert(answers(worlds[7], steps(history.take(7))->Ask_0, history[7], worlds[8]));
    let entries = history[7].entries();
    assert(d1.is_walk(dir, entries));
    assert(worlds[8].disk == d1);
    assert(n > 8);
    assert(history.take(8).len() == 8);
    let plan = copy_plan(entries, dir, home, Some(sidecar_name()));
    assert(steps(history.take(8)) == StepView::<RestoreResultView>::Ask(RequestView::Apply(plan)));
    assert(answers(worlds[8], steps(history.take(8))->Ask_0, history[8], worlds[9]));
    assert(history[8].outcome() is Ok);
    let d2 = worlds[9].disk;
    assert(d2 == d1.effects(plan));
    if n > 9 {
        assert(history.take(9).len() == 9);
        assert(steps(history.take(9)) is Done);
        assert(answers(worlds[9], steps(history.take(9))->Ask_0, history[9], worlds[10]));
    }
    assert(n == 9);
    assert(worlds.last() == worlds[9]);
    assert(history.take(9) =~= history);
    assert(entries.take(entries.len() as int) =~= entries);
    assert(same_at(d0, d1, dir));
    lemma_copy_plan(d1, dir, home, entries, Some(sidecar_name()), entries.len() as int);
    assert forall|q: Place| !q.within(home) implies #[trigger] d0.file(q) == d2.file(q) by {
        assert(d1.file(q) == d0.file(q));
        assert(d1.file(q) == d2.file(q));
    }
    assert forall|rel: Seq<Seq<char>>| #[trigger]
        d2.file(home.below(rel)) == if is_the_sidecar(rel) {
            None
        } else {
            d0.file(dir.below(rel))
        } by {
        lemma_walk_copies_files(d1, dir, entries, Some(sidecar_name()), rel);
        lemma_below_is_within(home, rel);
        assert(!d0.holds(home.below(rel)));
        assert(d1.file(home.below(rel)) == d0.file(home.below(rel)));
        assert(d1.file(dir.below(rel)) == d0.file(dir.below(rel)));
    }
}

/// The machine after the version directory at `path` has been removed.
pub open spec fn with_tree_removed(w: World, path: Seq<char>) -> World {
    World {
        disk: w.disk.effect(OpView::RemoveDirAll(Place::at(path))),
        app_data: w.app_data,
        install: w.install,
    }
}

/// A backup that is restored brings back what was backed up. Let the
/// directory at `path` be backed up, with every change going through, into a
/// backup directory that did not exist before; let the directory at `path`
/// then be removed; and let the backup be restored, again with every change
/// going through. Then the restore ends well, and at every place under `path`
/// stands the file that stood there before the backup, or none where none
/// stood. The one exception is the place directly under `path` that has the
/// name of the metadata file: the backup keeps its own record there, and
/// nothing comes back to it. No file outside `path` is touched by the
/// restore.
///
/// The disk of this statement takes two places to be apart where their base
/// texts differ. A path whose text is the beginning of the application data
/// directory's lies above the store, and removing it would take the backup
/// with it: such a path is left out.
pub proof fn lemma_restore_brings_back(
    backing: Seq<World>,
    backed: Seq<ReplyView>,
    restoring: Seq<World>,
    restored: Seq<ReplyView>,
    path: Seq<char>,
    reason: Seq<char>,
)
    requires
        backing.len() > 0,
        restoring.len() > 0,
        backing[0].app_data is Some,
        !path.is_prefix_of(backing[0].app_data->0),
        is_run(|h: Seq<ReplyView>| backup_flow(path, reason, h, 0).step(), backing, backed),
        all_changes_made(|h: Seq<ReplyView>| backup_flow(path, reason, h, 0).step(), backed),
        backup_flow(path, reason, backed, 0) is Done,
        backup_flow(path, reason, backed, 0)->value.success,
        backup_flow(path, reason, backed, 0)->value.backup_id is Some ==> nothing_at(
            backing[0].disk,
            backup_place(
                backing[0].app_data->0,
                backup_flow(path, reason, backed, 0)->value.backup_id->0,
            ),
        ),
        restoring[0] == with_tree_removed(backing.last(), path),
        backup_flow(path, reason, backed, 0)->value.backup_id is Some ==> {
            let id = backup_flow(path, reason, backed, 0)->value.backup_id->0;
            &&& is_run(|h: Seq<ReplyView>| restore_flow(id, h, 0).step(), restoring, restored)
            &&& all_changes_made(|h: Seq<ReplyView>| restore_flow(id, h, 0).step(), restored)
            &&& restore_flow(id, restored, 0) is Done
        },
    ensures
        backup_flow(path, reason, backed, 0)->value.backup_id is Some,
        restore_flow(
            backup_flow(path, reason, backed, 0)->value.backup_id->0,
            restored,
            0,
        )->value == RestoreResultView::done(path),
        same_files_outside(restoring[0].disk, restoring.last().disk, Place::at(path)),
        forall|rel: Seq<Seq<char>>| #[trigger]
            restoring.last().disk.file(Place::at(path).below(rel)) == if is_the_sidecar(rel) {
                None
            } else {
                backing[0].disk.file(Place::at(path).below(rel))
            },
{
    assert(backing[0].app_data->0 != path) by {
        let a = backing[0].app_data->0;
        assert(a.subrange(0, a.len() as int) =~= a);
    }
    lemma_backup_run(backing, backed, path, reason);
    let app_data = backing[0].app_data->0;
    let id = backup_flow(path, reason, backed, 0)->value.backup_id->0;
    let dir = backup_place(app_data, id);
    let home = Place::at(path);
    let d4 = backing.last().disk;
    let d5 = restoring[0].disk;
    let side = dir.child(sidecar_name());
    assert(!dir.within(home));
    assert(!side.within(home));
    assert(same_at(d4, d5, dir));
    assert(same_at(d4, d5, side));
    assert(nothing_at(d5, home));
    lemma_restore_run(restoring, restored, id, path);
    assert forall|rel: Seq<Seq<char>>| #[trigger]
        restoring.last().disk.file(home.below(rel)) == if is_the_sidecar(rel) {
            None
        } else {
            backing[0].disk.file(home.below(rel))
        } by {
        if !is_the_sidecar(rel) {
            lemma_below_is_within(dir, rel);
            assert(!dir.below(rel).within(home));
            assert(d5.file(dir.below(rel)) == d4.file(dir.below(rel)));
            assert(d4.file(dir.below(rel)) == backing[0].disk.file(home.below(rel)));
        }
    }
}

} // verus!
