//! The status is derived, never kept: it is a function of what stands on the
//! disk when it is asked for, and asking for it changes nothing.

use crate::disk::{answers, is_run, Disk, World};
use crate::host::Place;
use crate::paths::{chosen_install, InstallProbeView};
use crate::protector::{
    config_place, product_info_place, status_flow, status_of, unprotected, update_exe_place,
    ProtectionStatus,
};
use crate::protocol::{OpView, ReplyView, RequestView, StepView};
use vstd::prelude::*;

verus! {

/// The text of the file at `p`, where there is a file.
pub open spec fn text_at(d: Disk, p: Place) -> Option<Seq<char>> {
    match d.file(p) {
        Some(f) => Some(f.text),
        None => None,
    }
}

/// The status that a disk and the install found on it stand for.
pub open spec fn status_on(d: Disk, install: InstallProbeView) -> ProtectionStatus {
    match chosen_install(install) {
        None => unprotected(),
        Some(paths) => status_of(
            d.seen(product_info_place(paths.apps)),
            d.seen(update_exe_place(paths.root)),
            text_at(d, config_place(paths.apps)),
        ),
    }
}

/// Deriving the status reads the disk and leaves it alone: whatever a
/// faithful host answers, the machine is afterwards as it was, and the status
/// is the one that the disk stands for.
pub proof fn lemma_status_reads_the_disk(worlds: Seq<World>, history: Seq<ReplyView>)
    requires
        is_run(|h: Seq<ReplyView>| status_flow(h, 0).step(), worlds, history),
        status_flow(history, 0) is Done,
    ensures
        worlds.last() == worlds[0],
        status_flow(history, 0)->value == status_on(worlds[0].disk, worlds[0].install),
{
    let steps = |h: Seq<ReplyView>| status_flow(h, 0).step();
    let n = history.len() as int;
    let w = worlds[0];
    let d = w.disk;
    assert(n > 0);
    assert(history.take(0).len() == 0);
    assert(steps(history.take(0)) is Ask);
    assert(answers(worlds[0], steps(history.take(0))->Ask_0, history[0], worlds[1]));
    assert(history[0] == ReplyView::Install(w.install));
    assert(worlds[1] == w);
    if chosen_install(w.install) is None {
        if n > 1 {
            assert(history.take(1) =~= seq![history[0]]);
            assert(steps(history.take(1)) is Done);
            assert(answers(worlds[1], steps(history.take(1))->Ask_0, history[1], worlds[2]));
        }
        assert(n == 1);
        assert(history.take(1) =~= history);
    } else {
        let paths = chosen_install(w.install)->0;
        let c = config_place(paths.apps);
        let m = product_info_place(paths.apps);
        let u = update_exe_place(paths.root);
        assert(n > 1);
        assert(history.take(1) =~= seq![history[0]]);
        assert(steps(history.take(1)) == StepView::<ProtectionStatus>::Ask(RequestView::Stat(m)));
        assert(answers(worlds[1], steps(history.take(1))->Ask_0, history[1], worlds[2]));
        assert(history[1].meta() == d.seen(m));
        assert(worlds[2] == w);
        assert(n > 2);
        assert(history.take(2) =~= seq![history[0], history[1]]);
        assert(steps(history.take(2)) == StepView::<ProtectionStatus>::Ask(RequestView::Stat(u)));
        assert(answers(worlds[2], steps(history.take(2))->Ask_0, history[2], worlds[3]));
        assert(history[2].meta() == d.seen(u));
        assert(worlds[3] == w);
        assert(n > 3);
        assert(history.take(3) =~= seq![history[0], history[1], history[2]]);
        assert(steps(history.take(3)) == StepView::<ProtectionStatus>::Ask(RequestView::Stat(c)));
        assert(answers(worlds[3], steps(history.take(3))->Ask_0, history[3], worlds[4]));
        assert(history[3].meta() == d.seen(c));
        assert(worlds[4] == w);
        if d.seen(c) is None {
            if n > 4 {
                assert(history.take(4).len() == 4);
                assert(steps(history.take(4)) is Done);
                assert(answers(worlds[4], steps(history.take(4))->Ask_0, history[4], worlds[5]));
            }
            assert(n == 4);
            assert(history.take(4) =~= history);
        } else {
            assert(n > 4);
            assert(history.take(4) =~= seq![history[0], history[1], history[2], history[3]]);
            assert(steps(history.take(4)) == StepView::<ProtectionStatus>::Ask(
                RequestView::ReadText(c),
            ));
            assert(answers(worlds[4], steps(history.take(4))->Ask_0, history[4], worlds[5]));
            assert(worlds[5] == w);
            if n > 5 {
                assert(history.take(5).len() == 5);
                assert(steps(history.take(5)) is Done);
                assert(answers(worlds[5], steps(history.take(5))->Ask_0, history[5], worlds[6]));
            }
            assert(n == 5);
            assert(history.take(5) =~= history);
            assert(match history[4].content() {
                Ok(text) => Some(text),
                Err(_) => None,
            } == text_at(d, c));
        }
    }
}

/// The machine after the two blocker files of its install have been deleted
/// by hand.
pub open spec fn without_blockers(w: World) -> World {
    match chosen_install(w.install) {
        None => w,
        Some(paths) => World {
            disk: w.disk.effect(OpView::RemoveFile(product_info_place(paths.apps))).effect(
                OpView::RemoveFile(update_exe_place(paths.root)),
            ),
            app_data: w.app_data,
            install: w.install,
        },
    }
}

/// The status follows the disk. Let the status be derived, the blocker
/// files be deleted by hand, and the status be derived again. Then the second
/// status says that no blocker exists, says of the configuration what the
/// first said, and counts the install as protected exactly where the
/// configuration is locked.
pub proof fn lemma_status_follows_the_blockers(
    before: Seq<World>,
    first: Seq<ReplyView>,
    after: Seq<World>,
    second: Seq<ReplyView>,
)
    requires
        before.len() > 0,
        after.len() > 0,
        is_run(|h: Seq<ReplyView>| status_flow(h, 0).step(), before, first),
        status_flow(first, 0) is Done,
        after[0] == without_blockers(before.last()),
        is_run(|h: Seq<ReplyView>| status_flow(h, 0).step(), after, second),
        status_flow(second, 0) is Done,
    ensures
        !status_flow(second, 0)->value.blockers_exist,
        status_flow(second, 0)->value.config_locked == status_flow(first, 0)->value.config_locked,
        status_flow(second, 0)->value.is_protected == status_flow(first, 0)->value.config_locked,
{
    lemma_status_reads_the_disk(before, first);
    lemma_status_reads_the_disk(after, second);
    let w = before[0];
    if chosen_install(w.install) is Some {
        let paths = chosen_install(w.install)->0;
        crate::inverse::lemma_places_apart(w.install);
        let c = config_place(paths.apps);
        let m = product_info_place(paths.apps);
        let u = update_exe_place(paths.root);
        let d0 = w.disk;
        let d1 = d0.effect(OpView::RemoveFile(m));
        let d2 = d1.effect(OpView::RemoveFile(u));
        assert(after[0].disk == d2);
        assert(!d2.holds(m));
        assert(!d2.holds(u));
        assert(d2.file(c) == d0.file(c));
    }
}

} // verus!
