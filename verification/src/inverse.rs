//! Lifting the lockdown undoes applying it: on a disk where every change goes
//! through, an install that was locked down and released again shows no
//! protection.

use crate::config::{
    config_is_locked, has_pin, lemma_lock_locks, lemma_unlock_undoes_lock, locked_config,
    unlocked_config,
};
use crate::derived::{lemma_status_reads_the_disk, status_on, text_at};
use crate::disk::{all_changes_made, answers, is_run, same_at, Disk, FileState, World};
use crate::host::Place;
use crate::paths::{chosen_install, lemma_first_existing, payload_dir, PathsView};
use crate::protector::{
    apply_flow, blocker_ops, config_place, download_place, product_info_place, remove_flow,
    status_flow, update_exe_place,
};
use crate::protocol::{OpView, ReplyView, RequestView, StepView};
use crate::text::lines_of;
use vstd::prelude::*;

verus! {

/// The file that stands where a blocker was put.
pub open spec fn blocker_file(d: Disk) -> FileState {
    FileState { len: (d.measure)(Seq::empty()), readonly: true, text: Seq::empty(), record: None }
}

proof fn lemma_blocker_ops(d: Disk, p: Place)
    ensures
        d.effects(blocker_ops(p, d.seen(p))).file(p) == Some(blocker_file(d)),
        d.effects(blocker_ops(p, d.seen(p))).measure == d.measure,
        d.effects(blocker_ops(p, d.seen(p))).render == d.render,
        forall|q: Place| !q.within(p) ==> same_at(d, d.effects(blocker_ops(p, d.seen(p))), q),
{
    reveal_with_fuel(Disk::effects, 5);
    let ops = blocker_ops(p, d.seen(p));
    assert(p.within(p));
    match d.seen(p) {
        None => {
            let d1 = d.effect(ops[0]);
            let d2 = d1.effect(ops[1]);
            assert(ops.drop_last().drop_last() =~= Seq::<OpView>::empty());
            assert(d.effects(ops) == d2);
            assert(d1.file(p) is Some);
        },
        Some(meta) => {
            let d1 = d.effect(ops[0]);
            let d2 = d1.effect(ops[1]);
            let d3 = d2.effect(ops[2]);
            let d4 = d3.effect(ops[3]);
            assert(ops.drop_last().drop_last().drop_last().drop_last() =~= Seq::<OpView>::empty());
            assert(d.effects(ops) == d4);
            assert(d3.file(p) is Some);
            assert forall|q: Place| !q.within(p) implies same_at(d, d4, q) by {
                assert(same_at(d, d1, q));
                assert(same_at(d1, d2, q));
            }
        },
    }
}

proof fn lemma_unblock_ops(d: Disk, p: Place)
    ensures
        !d.effects(seq![OpView::ClearReadonly(p), OpView::RemoveFile(p)]).holds(p),
        d.effects(seq![OpView::ClearReadonly(p), OpView::RemoveFile(p)]).measure == d.measure,
        d.effects(seq![OpView::ClearReadonly(p), OpView::RemoveFile(p)]).render == d.render,
        forall|q: Place|
            !q.within(p) ==> same_at(
                d,
                d.effects(seq![OpView::ClearReadonly(p), OpView::RemoveFile(p)]),
                q,
            ),
{
    reveal_with_fuel(Disk::effects, 3);
    let ops = seq![OpView::ClearReadonly(p), OpView::RemoveFile(p)];
    let d1 = d.effect(ops[0]);
    let d2 = d1.effect(ops[1]);
    assert(ops.drop_last().drop_last() =~= Seq::<OpView>::empty());
    assert(d.effects(ops) == d2);
    assert(p.within(p));
    assert forall|q: Place| !q.within(p) implies same_at(d, d2, q) by {
        assert(same_at(d, d1, q));
    }
}

proof fn lemma_write_text(d: Disk, p: Place, text: Seq<char>)
    ensures
        d.effects(seq![OpView::WriteText { to: p, text }]).file(p) == Some(
            FileState { len: (d.measure)(text), readonly: false, text, record: None },
        ),
        d.effects(seq![OpView::WriteText { to: p, text }]).measure == d.measure,
        d.effects(seq![OpView::WriteText { to: p, text }]).render == d.render,
        forall|q: Place|
            q != p ==> same_at(d, d.effects(seq![OpView::WriteText { to: p, text }]), q),
{
    reveal_with_fuel(Disk::effects, 2);
    let ops = seq![OpView::WriteText { to: p, text }];
    assert(ops.drop_last() =~= Seq::<OpView>::empty());
    assert(d.effects(ops) == d.effect(ops[0]));
}

proof fn lemma_push_dirs(d: Disk, ops: Seq<OpView>, p: Place)
    ensures
        d.effects(ops.push(OpView::CreateDirAll(p))).measure == d.effects(ops).measure,
        d.effects(ops.push(OpView::CreateDirAll(p))).render == d.effects(ops).render,
        forall|q: Place|
            d.effects(ops).holds(q) ==> same_at(
                d.effects(ops),
                d.effects(ops.push(OpView::CreateDirAll(p))),
                q,
            ),
        forall|q: Place|
            !p.within(q) ==> same_at(
                d.effects(ops),
                d.effects(ops.push(OpView::CreateDirAll(p))),
                q,
            ),
{
    let more = ops.push(OpView::CreateDirAll(p));
    assert(more.drop_last() =~= ops);
    assert(d.effects(more) == d.effects(ops).with_dirs(p));
}

/// The install that is chosen has its payload directory at the root or right
/// under it.
pub open spec fn laid_out(paths: PathsView) -> bool {
    paths.apps == paths.root || paths.apps == paths.root.child(payload_dir())
}

proof fn lemma_chosen_is_laid_out(probe: crate::paths::InstallProbeView)
    ensures
        chosen_install(probe) is Some ==> laid_out(chosen_install(probe)->0),
{
    lemma_first_existing(probe.registry);
}

/// The places the lockdown touches do not lie in one another, and none of
/// them lies on the way down to the download directory.
pub open spec fn apart(paths: PathsView) -> bool {
    let c = config_place(paths.apps);
    let m = product_info_place(paths.apps);
    let u = update_exe_place(paths.root);
    let d = download_place(paths.root);
    &&& c != m && c != u && m != u
    &&& !c.within(m) && !c.within(u)
    &&& !m.within(c) && !m.within(u)
    &&& !u.within(c) && !u.within(m)
    &&& !d.within(c) && !d.within(m) && !d.within(u)
}

proof fn lemma_apart(paths: PathsView)
    requires
        laid_out(paths),
    ensures
        apart(paths),
{
    reveal_strlit("Apps");
    reveal_strlit("configure.ini");
    reveal_strlit("ProductInfo.xml");
    reveal_strlit("User Data");
    reveal_strlit("Download");
    reveal_strlit("update.exe");
    let r = paths.root.parts;
    let n = r.len() as int;
    let c = config_place(paths.apps);
    let m = product_info_place(paths.apps);
    let u = update_exe_place(paths.root);
    let d = download_place(paths.root);
    assert(u.parts.len() == n + 3);
    assert(d.parts.len() == n + 2);
    assert(u.parts[n] == "User Data"@);
    assert(d.parts[n] == "User Data"@);
    assert(d.parts[n + 1] == "Download"@);
    if paths.apps == paths.root {
        assert(c.parts.len() == n + 1);
        assert(m.parts.len() == n + 1);
        assert(c.parts[n] == "configure.ini"@);
        assert(m.parts[n] == "ProductInfo.xml"@);
        if c.parts.is_prefix_of(u.parts) {
            assert(u.parts.subrange(0, n + 1)[n] == c.parts[n]);
        }
        if m.parts.is_prefix_of(u.parts) {
            assert(u.parts.subrange(0, n + 1)[n] == m.parts[n]);
        }
        if c.parts.is_prefix_of(d.parts) {
            assert(d.parts.subrange(0, n + 1)[n] == c.parts[n]);
        }
        if m.parts.is_prefix_of(d.parts) {
            assert(d.parts.subrange(0, n + 1)[n] == m.parts[n]);
        }
        if c.parts.is_prefix_of(m.parts) {
            assert(m.parts.subrange(0, n + 1)[n] == c.parts[n]);
        }
        if m.parts.is_prefix_of(c.parts) {
            assert(c.parts.subrange(0, n + 1)[n] == m.parts[n]);
        }
    } else {
        assert(c.parts.len() == n + 2);
        assert(m.parts.len() == n + 2);
        assert(c.parts[n] == "Apps"@);
        assert(m.parts[n] == "Apps"@);
        assert(c.parts[n + 1] == "configure.ini"@);
        assert(m.parts[n + 1] == "ProductInfo.xml"@);
        if c.parts.is_prefix_of(u.parts) {
            assert(u.parts.subrange(0, n + 2)[n] == c.parts[n]);
        }
        if m.parts.is_prefix_of(u.parts) {
            assert(u.parts.subrange(0, n + 2)[n] == m.parts[n]);
        }
        if c.parts.is_prefix_of(d.parts) {
            assert(d.parts.subrange(0, n + 2)[n] == c.parts[n]);
        }
        if m.parts.is_prefix_of(d.parts) {
            assert(d.parts.subrange(0, n + 2)[n] == m.parts[n]);
        }
        if c.parts.is_prefix_of(m.parts) {
            assert(m.parts.subrange(0, n + 2)[n + 1] == c.parts[n + 1]);
        }
        if m.parts.is_prefix_of(c.parts) {
            assert(c.parts.subrange(0, n + 2)[n + 1] == m.parts[n + 1]);
        }
    }
}

/// The places that the lockdown of a chosen install touches lie apart.
pub proof fn lemma_places_apart(probe: crate::paths::InstallProbeView)
    ensures
        chosen_install(probe) is Some ==> apart(chosen_install(probe)->0),
{
    lemma_chosen_is_laid_out(probe);
    if chosen_install(probe) is Some {
        lemma_apart(chosen_install(probe)->0);
    }
}

/// The text of the configuration file at `c`; empty where there is no file.
pub open spec fn config_text(d: Disk, c: Place) -> Seq<char> {
    match d.file(c) {
        Some(f) => f.text,
        None => Seq::empty(),
    }
}

/// What stands on the disk of an install that is fully locked down, where
/// the configuration read `before` when the lockdown began.
pub open spec fn locked_down(d: Disk, paths: PathsView, before: Seq<char>) -> bool {
    &&& d.file(config_place(paths.apps)) is Some
    &&& d.file(config_place(paths.apps))->0.text == locked_config(before)
    &&& d.file(product_info_place(paths.apps)) == Some(blocker_file(d))
    &&& d.file(update_exe_place(paths.root)) == Some(blocker_file(d))
}

proof fn lemma_apply_run(worlds: Seq<World>, history: Seq<ReplyView>)
    requires
        is_run(|h: Seq<ReplyView>| apply_flow(true, true, h, 0).step(), worlds, history),
        apply_flow(true, true, history, 0) is Done,
        apply_flow(true, true, history, 0)->value.success,
    ensures
        chosen_install(worlds[0].install) is Some,
        worlds.last().install == worlds[0].install,
        worlds.last().disk.measure == worlds[0].disk.measure,
        locked_down(
            worlds.last().disk,
            chosen_install(worlds[0].install)->0,
            config_text(worlds[0].disk, config_place(chosen_install(worlds[0].install)->0.apps)),
        ),
{
    let steps = |h: Seq<ReplyView>| apply_flow(true, true, h, 0).step();
    let n = history.len() as int;
    let w0 = worlds[0];
    // The install.
    assert(n > 0);
    assert(history.take(0).len() == 0);
    assert(steps(history.take(0)) is Ask);
    assert(answers(worlds[0], steps(history.take(0))->Ask_0, history[0], worlds[1]));
    assert(history[0] == ReplyView::Install(w0.install));
    let paths = chosen_install(w0.install)->0;
    assert(chosen_install(w0.install) is Some);
    lemma_chosen_is_laid_out(w0.install);
    lemma_apart(paths);
    let c = config_place(paths.apps);
    let m = product_info_place(paths.apps);
    let u = update_exe_place(paths.root);
    let before = config_text(w0.disk, c);
    // The configuration.
    assert(n > 1);
    assert(history.take(1) =~= seq![history[0]]);
    assert(steps(history.take(1)) == StepView::<crate::protector::ProtectionResultView>::Ask(
        RequestView::Stat(c),
    ));
    assert(answers(worlds[1], steps(history.take(1))->Ask_0, history[1], worlds[2]));
    assert(worlds[1].disk == w0.disk);
    assert(history[1].meta() == w0.disk.seen(c));
    let k: int = if w0.disk.seen(c) is Some {
        3
    } else {
        2
    };
    if w0.disk.seen(c) is Some {
        assert(n > 2);
        assert(history.take(2) =~= seq![history[0], history[1]]);
        assert(steps(history.take(2)) == StepView::<crate::protector::ProtectionResultView>::Ask(
            RequestView::ReadText(c),
        ));
        assert(answers(worlds[2], steps(history.take(2))->Ask_0, history[2], worlds[3]));
        assert(worlds[2].disk == w0.disk);
        assert(match history[2].content() {
            Ok(text) => text,
            Err(_) => Seq::empty(),
        } == before);
        assert(n > 3);
        assert(history.take(3) =~= seq![history[0], history[1], history[2]]);
    } else {
        assert(n > 2);
        assert(history.take(2) =~= seq![history[0], history[1]]);
    }
    let write = seq![OpView::WriteText { to: c, text: locked_config(before) }];
    assert(steps(history.take(k)) == StepView::<crate::protector::ProtectionResultView>::Ask(
        RequestView::Apply(write),
    ));
    assert(answers(worlds[k], steps(history.take(k))->Ask_0, history[k], worlds[k + 1]));
    assert(worlds[k].disk == w0.disk);
    assert(history[k].outcome() is Ok);
    let d1 = worlds[k + 1].disk;
    assert(d1 == w0.disk.effects(write));
    lemma_write_text(w0.disk, c, locked_config(before));
    // The first blocker, and the way down to the second.
    assert(n > k + 1);
    assert(history.take(k + 1).len() == k + 1);
    assert(steps(history.take(k + 1)) == StepView::<crate::protector::ProtectionResultView>::Ask(
        RequestView::Stat(m),
    ));
    assert(answers(worlds[k + 1], steps(history.take(k + 1))->Ask_0, history[k + 1], worlds[k + 2]));
    assert(worlds[k + 2].disk == d1);
    assert(history[k + 1].meta() == d1.seen(m));
    assert(n > k + 2);
    assert(history.take(k + 2).len() == k + 2);
    let first = blocker_ops(m, d1.seen(m)).push(OpView::CreateDirAll(download_place(paths.root)));
    assert(steps(history.take(k + 2)) == StepView::<crate::protector::ProtectionResultView>::Ask(
        RequestView::Apply(first),
    ));
    assert(answers(worlds[k + 2], steps(history.take(k + 2))->Ask_0, history[k + 2], worlds[k + 3]));
    assert(history[k + 2].outcome() is Ok);
    let d2 = worlds[k + 3].disk;
    assert(d2 == d1.effects(first));
    lemma_blocker_ops(d1, m);
    lemma_push_dirs(d1, blocker_ops(m, d1.seen(m)), download_place(paths.root));
    let mid = d1.effects(blocker_ops(m, d1.seen(m)));
    assert(same_at(d1, mid, c));
    assert(same_at(mid, d2, c));
    assert(same_at(mid, d2, m));
    // The second blocker.
    assert(n > k + 3);
    assert(history.take(k + 3).len() == k + 3);
    assert(steps(history.take(k + 3)) == StepView::<crate::protector::ProtectionResultView>::Ask(
        RequestView::Stat(u),
    ));
    assert(answers(worlds[k + 3], steps(history.take(k + 3))->Ask_0, history[k + 3], worlds[k + 4]));
    assert(worlds[k + 4].disk == d2);
    assert(history[k + 3].meta() == d2.seen(u));
    assert(n > k + 4);
    assert(history.take(k + 4).len() == k + 4);
    let second = blocker_ops(u, d2.seen(u));
    assert(steps(history.take(k + 4)) == StepView::<crate::protector::ProtectionResultView>::Ask(
        RequestView::Apply(second),
    ));
    assert(answers(worlds[k + 4], steps(history.take(k + 4))->Ask_0, history[k + 4], worlds[k + 5]));
    assert(history[k + 4].outcome() is Ok);
    let d3 = worlds[k + 5].disk;
    assert(d3 == d2.effects(second));
    lemma_blocker_ops(d2, u);
    assert(same_at(d2, d3, c));
    assert(same_at(d2, d3, m));
    // Nothing more is asked.
    if n > k + 5 {
        assert(history.take(k + 5).len() == k + 5);
        assert(steps(history.take(k + 5)) is Done);
        assert(answers(
            worlds[k + 5],
            steps(history.take(k + 5))->Ask_0,
            history[k + 5],
            worlds[k + 6],
        ));
    }
    assert(n == k + 5);
    assert(worlds.last() == worlds[k + 5]);
}

/// Applying the lockdown protects. Where the whole lockdown is applied, on a
/// disk on which an empty file has no length, and ends well, the status that
/// the disk then stands for shows the configuration locked, the blockers in
/// place, and the install protected.
pub proof fn lemma_apply_protects(applying: Seq<World>, applied: Seq<ReplyView>)
    requires
        applying.len() > 0,
        applying[0].disk.well_formed(),
        is_run(|h: Seq<ReplyView>| apply_flow(true, true, h, 0).step(), applying, applied),
        apply_flow(true, true, applied, 0) is Done,
        apply_flow(true, true, applied, 0)->value.success,
    ensures
        status_on(applying.last().disk, applying.last().install).is_protected,
        status_on(applying.last().disk, applying.last().install).config_locked,
        status_on(applying.last().disk, applying.last().install).blockers_exist,
{
    lemma_apply_run(applying, applied);
    let paths = chosen_install(applying[0].install)->0;
    lemma_lock_locks(config_text(applying[0].disk, config_place(paths.apps)));
}

proof fn lemma_remove_run(
    worlds: Seq<World>,
    history: Seq<ReplyView>,
    paths: PathsView,
    before: Seq<char>,
)
    requires
        is_run(|h: Seq<ReplyView>| remove_flow(h, 0).step(), worlds, history),
        all_changes_made(|h: Seq<ReplyView>| remove_flow(h, 0).step(), history),
        remove_flow(history, 0) is Done,
        chosen_install(worlds[0].install) == Some(paths),
        locked_down(worlds[0].disk, paths, before),
    ensures
        worlds.last().install == worlds[0].install,
        !worlds.last().disk.holds(product_info_place(paths.apps)),
        !worlds.last().disk.holds(update_exe_place(paths.root)),
        worlds.last().disk.file(config_place(paths.apps)) is Some,
        worlds.last().disk.file(config_place(paths.apps))->0.text == unlocked_config(
            locked_config(before),
        ),
{
    let steps = |h: Seq<ReplyView>| remove_flow(h, 0).step();
    let n = history.len() as int;
    let d0 = worlds[0].disk;
    lemma_chosen_is_laid_out(worlds[0].install);
    lemma_apart(paths);
    let c = config_place(paths.apps);
    let m = product_info_place(paths.apps);
    let u = update_exe_place(paths.root);
    assert(n > 0);
    assert(history.take(0).len() == 0);
    assert(steps(history.take(0)) is Ask);
    assert(answers(worlds[0], steps(history.take(0))->Ask_0, history[0], worlds[1]));
    assert(history[0] == ReplyView::Install(worlds[0].install));
    // The first blocker.
    assert(n > 1);
    assert(history.take(1) =~= seq![history[0]]);
    assert(steps(history.take(1)) == StepView::<crate::protector::ProtectionResultView>::Ask(
        RequestView::Stat(m),
    ));
    assert(answers(worlds[1], steps(history.take(1))->Ask_0, history[1], worlds[2]));
    assert(worlds[2].disk == d0);
    assert(history[1].meta() == d0.seen(m));
    assert(d0.seen(m) is Some);
    assert(n > 2);
    assert(history.take(2) =~= seq![history[0], history[1]]);
    let first = seq![OpView::ClearReadonly(m), OpView::RemoveFile(m)];
    assert(steps(history.take(2)) == StepView::<crate::protector::ProtectionResultView>::Ask(
        RequestView::Apply(first),
    ));
    assert(answers(worlds[2], steps(history.take(2))->Ask_0, history[2], worlds[3]));
    assert(history[2].outcome() is Ok);
    let d1 = worlds[3].disk;
    assert(d1 == d0.effects(first));
    lemma_unblock_ops(d0, m);
    assert(same_at(d0, d1, u));
    assert(same_at(d0, d1, c));
    // The second blocker.
    assert(n > 3);
    assert(history.take(3) =~= seq![history[0], history[1], history[2]]);
    assert(steps(history.take(3)) == StepView::<crate::protector::ProtectionResultView>::Ask(
        RequestView::Stat(u),
    ));
    assert(answers(worlds[3], steps(history.take(3))->Ask_0, history[3], worlds[4]));
    assert(worlds[4].disk == d1);
    assert(history[3].meta() == d1.seen(u));
    assert(d1.seen(u) is Some);
    assert(n > 4);
    assert(history.take(4) =~= seq![history[0], history[1], history[2], history[3]]);
    let second = seq![OpView::ClearReadonly(u), OpView::RemoveFile(u)];
    assert(steps(history.take(4)) == StepView::<crate::protector::ProtectionResultView>::Ask(
        RequestView::Apply(second),
    ));
    assert(answers(worlds[4], steps(history.take(4))->Ask_0, history[4], worlds[5]));
    assert(history[4].outcome() is Ok);
    let d2 = worlds[5].disk;
    assert(d2 == d1.effects(second));
    lemma_unblock_ops(d1, u);
    assert(same_at(d1, d2, m));
    assert(same_at(d1, d2, c));
    // The configuration.
    assert(n > 5);
    assert(history.take(5) =~= seq![history[0], history[1], history[2], history[3], history[4]]);
    assert(steps(history.take(5)) == StepView::<crate::protector::ProtectionResultView>::Ask(
        RequestView::Stat(c),
    ));
    assert(answers(worlds[5], steps(history.take(5))->Ask_0, history[5], worlds[6]));
    assert(worlds[6].disk == d2);
    assert(history[5].meta() == d2.seen(c));
    assert(d2.file(c) == d0.file(c));
    assert(n > 6);
    assert(history.take(6).len() == 6);
    assert(steps(history.take(6)) == StepView::<crate::protector::ProtectionResultView>::Ask(
        RequestView::ReadText(c),
    ));
    assert(answers(worlds[6], steps(history.take(6))->Ask_0, history[6], worlds[7]));
    assert(worlds[7].disk == d2);
    assert(history[6] == ReplyView::Content(Ok(locked_config(before))));
    assert(n > 7);
    assert(history.take(7).len() == 7);
    let write = seq![
        OpView::WriteText { to: c, text: unlocked_config(locked_config(before)) },
    ];
    assert(steps(history.take(7)) == StepView::<crate::protector::ProtectionResultView>::Ask(
        RequestView::Apply(write),
    ));
    assert(answers(worlds[7], steps(history.take(7))->Ask_0, history[7], worlds[8]));
    assert(history[7].outcome() is Ok);
    let d3 = worlds[8].disk;
    assert(d3 == d2.effects(write));
    lemma_write_text(d2, c, unlocked_config(locked_config(before)));
    assert(same_at(d2, d3, m));
    assert(same_at(d2, d3, u));
    if n > 8 {
        assert(history.take(8).len() == 8);
        assert(steps(history.take(8)) is Done);
        assert(answers(worlds[8], steps(history.take(8))->Ask_0, history[8], worlds[9]));
    }
    assert(n == 8);
    assert(worlds.last() == worlds[8]);
}

/// Lifting the lockdown undoes applying it. Let the whole lockdown be applied
/// and end well; let it then be lifted, with every change going through; and
/// let the status be derived after that. Then lifting ended well, the status
/// shows nothing protected, and the configuration file holds no line that
/// pins the version.
pub proof fn lemma_remove_undoes_apply(
    applying: Seq<World>,
    applied: Seq<ReplyView>,
    lifting: Seq<World>,
    lifted: Seq<ReplyView>,
    checking: Seq<World>,
    checked: Seq<ReplyView>,
)
    requires
        applying.len() > 0,
        lifting.len() > 0,
        checking.len() > 0,
        is_run(|h: Seq<ReplyView>| apply_flow(true, true, h, 0).step(), applying, applied),
        apply_flow(true, true, applied, 0) is Done,
        apply_flow(true, true, applied, 0)->value.success,
        lifting[0] == applying.last(),
        is_run(|h: Seq<ReplyView>| remove_flow(h, 0).step(), lifting, lifted),
        all_changes_made(|h: Seq<ReplyView>| remove_flow(h, 0).step(), lifted),
        remove_flow(lifted, 0) is Done,
        checking[0] == lifting.last(),
        is_run(|h: Seq<ReplyView>| status_flow(h, 0).step(), checking, checked),
        status_flow(checked, 0) is Done,
    ensures
        remove_flow(lifted, 0)->value.success,
        !status_flow(checked, 0)->value.is_protected,
        !status_flow(checked, 0)->value.config_locked,
        !status_flow(checked, 0)->value.blockers_exist,
        chosen_install(applying[0].install) is Some,
        checking.last().disk.file(config_place(chosen_install(applying[0].install)->0.apps))
            is Some,
        !has_pin(
            lines_of(
                checking.last().disk.file(
                    config_place(chosen_install(applying[0].install)->0.apps),
                )->0.text,
            ),
        ),
        !config_is_locked(
            checking.last().disk.file(
                config_place(chosen_install(applying[0].install)->0.apps),
            )->0.text,
        ),
{
    lemma_apply_run(applying, applied);
    let paths = chosen_install(applying[0].install)->0;
    let c = config_place(paths.apps);
    let m = product_info_place(paths.apps);
    let u = update_exe_place(paths.root);
    let before = config_text(applying[0].disk, c);
    lemma_remove_run(lifting, lifted, paths, before);
    lemma_unlock_undoes_lock(before);
    lemma_status_reads_the_disk(checking, checked);
    let d = checking[0].disk;
    assert(d.seen(m) is None);
    assert(d.seen(u) is None);
    assert(text_at(d, c) == Some(unlocked_config(locked_config(before))));
}

} // verus!
