//! The lockdown: pinning the configured version, putting blocker files where
//! the updater would write, lifting both again, and telling from the disk
//! alone whether the lockdown is in place.

use crate::backup::{backup_flow, backup_from, backup_root, version_name_of};
use crate::cleaner::{clean_flow, clean_from};
use crate::config::{
    config_is_locked, is_locked_text, lock_text, locked_config, unlock_text, unlocked_config,
};
use crate::host::{lemma_deep_view_push, FileMeta, Location, Place};
use crate::paths::{
    choose_install, chosen_install, make_probe_plan, probe_plan, CapCutPaths, PathsView,
};
use crate::process::{running_flow, running_from};
use crate::protocol::{
    agrees, apply_one, apply_two, reply_at, report, Cursor, Flow, FsOp, OpView, Reply, ReplyView,
    Request, RequestView, Step, StepView,
};
use crate::records::{BackupResult, BackupResultView};
use crate::text::{concat2, concat3, decimal, decimal_string};
use vstd::prelude::*;
use vstd::string::*;

verus! {

/// How applying or lifting the lockdown, or deleting versions, ended: whether
/// it went through, the failure that stopped it, and what was done, line by
/// line.
#[derive(Debug, Clone, PartialEq, Eq)]
pub struct ProtectionResult {
    pub success: bool,
    pub error: Option<String>,
    pub logs: Vec<String>,
}

/// A `ProtectionResult` as plain sequences.
pub struct ProtectionResultView {
    pub success: bool,
    pub error: Option<Seq<char>>,
    pub logs: Seq<Seq<char>>,
}

impl DeepView for ProtectionResult {
    type V = ProtectionResultView;

    open spec fn deep_view(&self) -> ProtectionResultView {
        ProtectionResultView {
            success: self.success,
            error: self.error.deep_view(),
            logs: self.logs.deep_view(),
        }
    }
}

impl ProtectionResultView {
    /// The result of a run that `message` stopped, after `logs`.
    pub open spec fn failed(message: Seq<char>, logs: Seq<Seq<char>>) -> ProtectionResultView {
        ProtectionResultView { success: false, error: Some(message), logs }
    }

    /// The result of a run that went through, with `logs`.
    pub open spec fn passed(logs: Seq<Seq<char>>) -> ProtectionResultView {
        ProtectionResultView { success: true, error: None, logs }
    }
}

impl ProtectionResult {
    /// The result of a run that `message` stopped, after `logs`.
    pub fn failed(message: String, logs: Vec<String>) -> (out: ProtectionResult)
        ensures
            out.deep_view() == ProtectionResultView::failed(message@, logs.deep_view()),
    {
        ProtectionResult { success: false, error: Some(message), logs }
    }

    /// The result of a run that went through, with `logs`.
    pub fn passed(logs: Vec<String>) -> (out: ProtectionResult)
        ensures
            out.deep_view() == ProtectionResultView::passed(logs.deep_view()),
    {
        ProtectionResult { success: true, error: None, logs }
    }
}

/// What a full protection run is to do.
#[derive(Debug, Clone, PartialEq, Eq)]
pub struct ProtectionParams {
    pub versions_to_delete: Vec<String>,
    pub clean_cache: bool,
    pub lock_config: bool,
    pub create_blockers: bool,
}

/// Whether the lockdown is in place, as the disk shows it.
#[derive(Debug, Clone, Copy, PartialEq, Eq)]
pub struct ProtectionStatus {
    pub is_protected: bool,
    pub config_locked: bool,
    pub blockers_exist: bool,
}

impl DeepView for ProtectionStatus {
    type V = ProtectionStatus;

    open spec fn deep_view(&self) -> ProtectionStatus {
        *self
    }
}

/// Adds `line` to the log.
pub fn log(logs: &mut Vec<String>, line: &str)
    ensures
        final(logs).deep_view() == old(logs).deep_view().push(line@),
{
    let ghost before = *logs;
    let owned = String::from_str(line);
    logs.push(owned);
    proof {
        lemma_deep_view_push(before, *logs, owned);
    }
}

/// Adds `line` to the log.
pub fn log_line(logs: &mut Vec<String>, line: String)
    ensures
        final(logs).deep_view() == old(logs).deep_view().push(line@),
{
    let ghost before = *logs;
    logs.push(line);
    proof {
        lemma_deep_view_push(before, *logs, line);
    }
}

/// The configuration file of the install whose payload directory is `apps`.
pub open spec fn config_place(apps: Place) -> Place {
    apps.child("configure.ini"@)
}

/// The payload marker, which the lockdown replaces by a blocker.
pub open spec fn product_info_place(apps: Place) -> Place {
    apps.child("ProductInfo.xml"@)
}

/// The directory the updater downloads to.
pub open spec fn download_place(root: Place) -> Place {
    root.child("User Data"@).child("Download"@)
}

/// The downloaded updater, which the lockdown replaces by a blocker.
pub open spec fn update_exe_place(root: Place) -> Place {
    download_place(root).child("update.exe"@)
}

/// Whether what the host saw at a place is a blocker: something of length
/// zero that carries the read-only attribute.
pub open spec fn is_blocker(seen: Option<FileMeta>) -> bool {
    seen is Some && seen->0.len == 0 && seen->0.readonly
}

/// The status that three observations stand for: what there is at the payload
/// marker, what there is at the downloaded updater, and the text of the
/// configuration file where it could be read.
pub open spec fn status_of(
    product_info: Option<FileMeta>,
    update_exe: Option<FileMeta>,
    config: Option<Seq<char>>,
) -> ProtectionStatus {
    let blockers = is_blocker(product_info) || is_blocker(update_exe);
    let locked = config is Some && config_is_locked(config->0);
    ProtectionStatus { is_protected: blockers || locked, config_locked: locked, blockers_exist: blockers }
}

/// The status where no install is found.
pub open spec fn unprotected() -> ProtectionStatus {
    ProtectionStatus { is_protected: false, config_locked: false, blockers_exist: false }
}

/// Derives the status from three observations.
pub fn compute_status(
    product_info: Option<FileMeta>,
    update_exe: Option<FileMeta>,
    config: Option<&String>,
) -> (out: ProtectionStatus)
    ensures
        out == status_of(product_info, update_exe, config.deep_view()),
{
    let marker = match product_info {
        Some(meta) => meta.len == 0 && meta.readonly,
        None => false,
    };
    let updater = match update_exe {
        Some(meta) => meta.len == 0 && meta.readonly,
        None => false,
    };
    let locked = match config {
        Some(text) => is_locked_text(text.as_str()),
        None => false,
    };
    ProtectionStatus {
        is_protected: marker || updater || locked,
        config_locked: locked,
        blockers_exist: marker || updater,
    }
}

/// The status is a function of the observations alone, and without blockers
/// it says what the configuration says: taking the blocker files away turns
/// `blockers_exist` off, leaves `config_locked` as it was, and leaves the
/// install protected exactly where the configuration is locked.
pub proof fn lemma_status_without_blockers(
    product_info: Option<FileMeta>,
    update_exe: Option<FileMeta>,
    config: Option<Seq<char>>,
)
    ensures
        !status_of(None, None, config).blockers_exist,
        status_of(None, None, config).config_locked == status_of(
            product_info,
            update_exe,
            config,
        ).config_locked,
        status_of(None, None, config).is_protected == status_of(
            product_info,
            update_exe,
            config,
        ).config_locked,
{
}

/// How the status is derived, read from position `at` of the history. Without
/// an install nothing is protected. Else the two blocker places are looked at
/// and the configuration file is read, and the status is what they show.
pub open spec fn status_flow(history: Seq<ReplyView>, at: int) -> Flow<ProtectionStatus> {
    match reply_at(history, at) {
        None => Flow::Ask(RequestView::ProbeInstall(probe_plan())),
        Some(probed) => match chosen_install(probed.install()) {
            None => Flow::Done { value: unprotected(), next: at + 1 },
            Some(paths) => match reply_at(history, at + 1) {
                None => Flow::Ask(RequestView::Stat(product_info_place(paths.apps))),
                Some(marker) => match reply_at(history, at + 2) {
                    None => Flow::Ask(RequestView::Stat(update_exe_place(paths.root))),
                    Some(updater) => match reply_at(history, at + 3) {
                        None => Flow::Ask(RequestView::Stat(config_place(paths.apps))),
                        Some(seen) => if seen.meta() is None {
                            Flow::Done {
                                value: status_of(marker.meta(), updater.meta(), None),
                                next: at + 4,
                            }
                        } else {
                            match reply_at(history, at + 4) {
                                None => Flow::Ask(RequestView::ReadText(config_place(paths.apps))),
                                Some(read) => Flow::Done {
                                    value: status_of(
                                        marker.meta(),
                                        updater.meta(),
                                        match read.content() {
                                            Ok(text) => Some(text),
                                            Err(_) => None,
                                        },
                                    ),
                                    next: at + 5,
                                },
                            }
                        },
                    },
                },
            },
        },
    }
}

/// Asks the host for the install and chooses among what it found.
pub fn resolve_from(cursor: &mut Cursor) -> (out: Result<Option<CapCutPaths>, Request>)
    ensures
        final(cursor).history == old(cursor).history,
        match reply_at(old(cursor).history.deep_view(), old(cursor).at as int) {
            None => out is Err && out->Err_0.deep_view() == RequestView::ProbeInstall(probe_plan())
                && final(cursor).at == old(cursor).at,
            Some(probed) => out is Ok && out->Ok_0.deep_view() == chosen_install(probed.install())
                && final(cursor).at == old(cursor).at + 1,
        },
{
    let probed = cursor.ask(Request::ProbeInstall(make_probe_plan()))?;
    match probed.install() {
        Some(probe) => Ok(choose_install(probe)),
        None => Ok(None),
    }
}

fn status_from(cursor: &mut Cursor) -> (out: Result<ProtectionStatus, Request>)
    ensures
        agrees(
            out,
            final(cursor).at,
            status_flow(old(cursor).history.deep_view(), old(cursor).at as int),
        ),
{
    let paths = match resolve_from(cursor)? {
        Some(paths) => paths,
        None => {
            return Ok(
                ProtectionStatus { is_protected: false, config_locked: false, blockers_exist: false },
            );
        },
    };
    let marker = cursor.ask(Request::Stat(paths.apps.child("ProductInfo.xml")))?;
    let updater = cursor.ask(
        Request::Stat(paths.root.child("User Data").child("Download").child("update.exe")),
    )?;
    let config = paths.apps.child("configure.ini");
    let seen = cursor.ask(Request::Stat(config.duplicate()))?;
    if seen.meta().is_none() {
        return Ok(compute_status(marker.meta(), updater.meta(), None));
    }
    let read = cursor.ask(Request::ReadText(config))?;
    match read.content() {
        Ok(text) => Ok(compute_status(marker.meta(), updater.meta(), Some(text))),
        Err(_) => Ok(compute_status(marker.meta(), updater.meta(), None)),
    }
}

/// How locking the configuration goes, read from position `at` of the
/// history: the file is read where it exists, taken as empty where it does not
/// or cannot be read, and written back whole, locked. The value is the message
/// of the write that failed, if it did.
pub open spec fn lock_flow(apps: Place, history: Seq<ReplyView>, at: int) -> Flow<Option<Seq<char>>> {
    let config = config_place(apps);
    match reply_at(history, at) {
        None => Flow::Ask(RequestView::Stat(config)),
        Some(seen) => if seen.meta() is None {
            lock_write(config, Seq::empty(), history, at + 1)
        } else {
            match reply_at(history, at + 1) {
                None => Flow::Ask(RequestView::ReadText(config)),
                Some(read) => lock_write(
                    config,
                    match read.content() {
                        Ok(text) => text,
                        Err(_) => Seq::empty(),
                    },
                    history,
                    at + 2,
                ),
            }
        },
    }
}

/// The end of locking the configuration: `content`, locked, is written.
pub open spec fn lock_write(config: Place, content: Seq<char>, history: Seq<ReplyView>, at: int) -> Flow<
    Option<Seq<char>>,
> {
    match reply_at(history, at) {
        None => Flow::Ask(
            RequestView::Apply(seq![OpView::WriteText { to: config, text: locked_config(content) }]),
        ),
        Some(written) => Flow::Done {
            value: match written.outcome() {
                Ok(_) => None,
                Err(e) => Some(e),
            },
            next: at + 1,
        },
    }
}

/// Locks the configuration file under `apps`.
pub fn lock_configuration(apps: &Location, cursor: &mut Cursor) -> (out: Result<
    Option<String>,
    Request,
>)
    ensures
        final(cursor).history == old(cursor).history,
        agrees(
            out,
            final(cursor).at,
            lock_flow(apps.deep_view(), old(cursor).history.deep_view(), old(cursor).at as int),
        ),
{
    let config = apps.child("configure.ini");
    let seen = cursor.ask(Request::Stat(config.duplicate()))?;
    let locked = if seen.meta().is_some() {
        let read = cursor.ask(Request::ReadText(config.duplicate()))?;
        match read.content() {
            Ok(text) => lock_text(text.as_str()),
            Err(_) => lock_text(""),
        }
    } else {
        lock_text("")
    };
    proof {
        reveal_strlit("");
        assert(""@ =~= Seq::<char>::empty());
    }
    let written = cursor.ask(apply_one(FsOp::WriteText { to: config, text: locked }))?;
    match written.outcome() {
        Ok(_) => Ok(None),
        Err(e) => Ok(Some(e)),
    }
}

/// The changes that make the file at `path` a blocker, where the host saw
/// `seen` there: what is there is removed, read-only or not; an empty file is
/// written; the file is made read-only.
pub open spec fn blocker_ops(path: Place, seen: Option<FileMeta>) -> Seq<OpView> {
    let fresh = seq![
        OpView::WriteText { to: path, text: Seq::empty() },
        OpView::MarkReadonly(path),
    ];
    match seen {
        None => fresh,
        Some(meta) => seq![
            OpView::ClearReadonly(path),
            if meta.is_dir {
                OpView::RemoveDirAll(path)
            } else {
                OpView::RemoveFile(path)
            },
        ] + fresh,
    }
}

/// Plans the changes that make the file at `path` a blocker.
pub fn create_readonly(path: &Location, seen: Option<FileMeta>) -> (out: Vec<FsOp>)
    ensures
        out.deep_view() == blocker_ops(path.deep_view(), seen),
{
    let mut out: Vec<FsOp> = Vec::new();
    let ghost p = path.deep_view();
    proof {
        assert(out.deep_view() =~= Seq::<OpView>::empty());
    }
    if let Some(meta) = seen {
        let ghost v0 = out;
        let clear = FsOp::ClearReadonly(path.duplicate());
        out.push(clear);
        let ghost v1 = out;
        let remove = if meta.is_dir {
            FsOp::RemoveDirAll(path.duplicate())
        } else {
            FsOp::RemoveFile(path.duplicate())
        };
        out.push(remove);
        proof {
            lemma_deep_view_push(v0, v1, clear);
            lemma_deep_view_push(v1, out, remove);
        }
    }
    let ghost v2 = out;
    let write = FsOp::WriteText { to: path.duplicate(), text: String::new() };
    out.push(write);
    let ghost v3 = out;
    let mark = FsOp::MarkReadonly(path.duplicate());
    out.push(mark);
    proof {
        lemma_deep_view_push(v2, v3, write);
        lemma_deep_view_push(v3, out, mark);
        assert(out.deep_view() =~= blocker_ops(p, seen));
    }
    out
}

/// How putting the blockers in place goes, read from position `at` of the
/// history: the payload marker is made a blocker and the download directory
/// is created, then the downloaded updater is made a blocker. The value is the
/// message of the change that failed, if one did.
pub open spec fn blockers_flow(root: Place, apps: Place, history: Seq<ReplyView>, at: int) -> Flow<
    Option<Seq<char>>,
> {
    let marker = product_info_place(apps);
    let updater = update_exe_place(root);
    match reply_at(history, at) {
        None => Flow::Ask(RequestView::Stat(marker)),
        Some(seen) => match reply_at(history, at + 1) {
            None => Flow::Ask(
                RequestView::Apply(
                    blocker_ops(marker, seen.meta()).push(
                        OpView::CreateDirAll(download_place(root)),
                    ),
                ),
            ),
            Some(made) => match made.outcome() {
                Err(e) => Flow::Done { value: Some(e), next: at + 2 },
                Ok(_) => match reply_at(history, at + 2) {
                    None => Flow::Ask(RequestView::Stat(updater)),
                    Some(seen_updater) => match reply_at(history, at + 3) {
                        None => Flow::Ask(
                            RequestView::Apply(blocker_ops(updater, seen_updater.meta())),
                        ),
                        Some(blocked) => Flow::Done {
                            value: match blocked.outcome() {
                                Ok(_) => None,
                                Err(e) => Some(e),
                            },
                            next: at + 4,
                        },
                    },
                },
            },
        },
    }
}

/// Puts the blockers of the install at `root`, with payload directory `apps`,
/// in place.
pub fn create_dummy_files(root: &Location, apps: &Location, cursor: &mut Cursor) -> (out: Result<
    Option<String>,
    Request,
>)
    ensures
        final(cursor).history == old(cursor).history,
        agrees(
            out,
            final(cursor).at,
            blockers_flow(
                root.deep_view(),
                apps.deep_view(),
                old(cursor).history.deep_view(),
                old(cursor).at as int,
            ),
        ),
{
    let marker = apps.child("ProductInfo.xml");
    let seen = cursor.ask(Request::Stat(marker.duplicate()))?;
    let mut ops = create_readonly(&marker, seen.meta());
    let download = root.child("User Data").child("Download");
    let ghost before = ops;
    let make = FsOp::CreateDirAll(download.duplicate());
    ops.push(make);
    proof {
        lemma_deep_view_push(before, ops, make);
    }
    let made = cursor.ask(Request::Apply(ops))?;
    if let Err(e) = made.outcome() {
        return Ok(Some(e));
    }
    let updater = download.child("update.exe");
    let seen_updater = cursor.ask(Request::Stat(updater.duplicate()))?;
    let blocked = cursor.ask(Request::Apply(create_readonly(&updater, seen_updater.meta())))?;
    match blocked.outcome() {
        Ok(_) => Ok(None),
        Err(e) => Ok(Some(e)),
    }
}

/// The second half of applying the lockdown, read from position `at` of the
/// history, with the log so far: the blockers, where they are wanted.
pub open spec fn apply_blockers(
    paths: PathsView,
    create_blockers: bool,
    logs: Seq<Seq<char>>,
    history: Seq<ReplyView>,
    at: int,
) -> Flow<ProtectionResultView> {
    if create_blockers {
        match blockers_flow(paths.root, paths.apps, history, at) {
            Flow::Ask(q) => Flow::Ask(q),
            Flow::Done { value: Some(e), next } => Flow::Done {
                value: ProtectionResultView::failed(e, logs.push("Creating blockers..."@)),
                next,
            },
            Flow::Done { value: None, next } => Flow::Done {
                value: ProtectionResultView::passed(
                    logs.push("Creating blockers..."@).push("[OK] Update blockers created"@),
                ),
                next,
            },
        }
    } else {
        Flow::Done {
            value: ProtectionResultView::passed(logs.push("Skipping blocker creation (disabled)"@)),
            next: at,
        }
    }
}

/// The first half of applying the lockdown to the install `paths`, read from
/// position `at` of the history: the configuration, where locking it is
/// wanted; then the blockers.
pub open spec fn apply_to(
    paths: PathsView,
    lock_config: bool,
    create_blockers: bool,
    history: Seq<ReplyView>,
    at: int,
) -> Flow<ProtectionResultView> {
    if lock_config {
        match lock_flow(paths.apps, history, at) {
            Flow::Ask(q) => Flow::Ask(q),
            Flow::Done { value: Some(e), next } => Flow::Done {
                value: ProtectionResultView::failed(e, seq!["Modifying config..."@]),
                next,
            },
            Flow::Done { value: None, next } => apply_blockers(
                paths,
                create_blockers,
                seq!["Modifying config..."@, "[OK] Configuration locked"@],
                history,
                next,
            ),
        }
    } else {
        apply_blockers(
            paths,
            create_blockers,
            seq!["Skipping config lock (disabled)"@],
            history,
            at,
        )
    }
}

/// How applying the lockdown goes, read from position `at` of the history.
/// Without an install it fails at once. Each half is done where it is wanted
/// and passed over, with a line in the log, where it is not; the first change
/// that fails stops the run, with the log up to there.
pub open spec fn apply_flow(
    lock_config: bool,
    create_blockers: bool,
    history: Seq<ReplyView>,
    at: int,
) -> Flow<ProtectionResultView> {
    match reply_at(history, at) {
        None => Flow::Ask(RequestView::ProbeInstall(probe_plan())),
        Some(probed) => match chosen_install(probed.install()) {
            None => Flow::Done {
                value: ProtectionResultView::failed(
                    "Could not find CapCut installation"@,
                    Seq::empty(),
                ),
                next: at + 1,
            },
            Some(paths) => apply_to(paths, lock_config, create_blockers, history, at + 1),
        },
    }
}

/// Applies the lockdown, reading the history from the cursor on.
pub fn apply_from(lock_config: bool, create_blockers: bool, cursor: &mut Cursor) -> (out: Result<
    ProtectionResult,
    Request,
>)
    ensures
        final(cursor).history == old(cursor).history,
        agrees(
            out,
            final(cursor).at,
            apply_flow(
                lock_config,
                create_blockers,
                old(cursor).history.deep_view(),
                old(cursor).at as int,
            ),
        ),
{
    let mut logs: Vec<String> = Vec::new();
    proof {
        assert(logs.deep_view() =~= Seq::<Seq<char>>::empty());
    }
    let paths = match resolve_from(cursor)? {
        Some(paths) => paths,
        None => {
            return Ok(
                ProtectionResult::failed(
                    String::from_str("Could not find CapCut installation"),
                    logs,
                ),
            );
        },
    };
    let ghost history = cursor.history.deep_view();
    let ghost goal = apply_flow(lock_config, create_blockers, history, old(cursor).at as int);
    assert(goal == apply_to(
        paths.deep_view(),
        lock_config,
        create_blockers,
        history,
        cursor.at as int,
    ));
    if lock_config {
        log(&mut logs, "Modifying config...");
        if let Some(e) = lock_configuration(&paths.apps, cursor)? {
            return Ok(ProtectionResult::failed(e, logs));
        }
        log(&mut logs, "[OK] Configuration locked");
        assert(logs.deep_view() =~= seq!["Modifying config..."@, "[OK] Configuration locked"@]);
    } else {
        log(&mut logs, "Skipping config lock (disabled)");
        assert(logs.deep_view() =~= seq!["Skipping config lock (disabled)"@]);
    }
    assert(goal == apply_blockers(
        paths.deep_view(),
        create_blockers,
        logs.deep_view(),
        history,
        cursor.at as int,
    ));
    if create_blockers {
        log(&mut logs, "Creating blockers...");
        if let Some(e) = create_dummy_files(&paths.root, &paths.apps, cursor)? {
            return Ok(ProtectionResult::failed(e, logs));
        }
        log(&mut logs, "[OK] Update blockers created");
    } else {
        log(&mut logs, "Skipping blocker creation (disabled)");
    }
    Ok(ProtectionResult::passed(logs))
}

/// Applies the parts of the lockdown that are wanted: the next request for
/// the host, or how it ended.
pub fn apply_protection_with_options(lock_config: bool, create_blockers: bool, history: &Vec<Reply>) -> (step:
    Step<ProtectionResult>)
    ensures
        step.deep_view() == apply_flow(lock_config, create_blockers, history.deep_view(), 0).step(),
{
    let mut cursor = Cursor::start(history);
    report(apply_from(lock_config, create_blockers, &mut cursor))
}

/// Applies the whole lockdown: locks the configuration and puts the blockers
/// in place.
pub fn apply_protection(history: &Vec<Reply>) -> (step: Step<ProtectionResult>)
    ensures
        step.deep_view() == apply_flow(true, true, history.deep_view(), 0).step(),
{
    apply_protection_with_options(true, true, history)
}

/// How taking one blocker away goes, read from position `at` of the history,
/// with the log so far. Where nothing is at `path` nothing is done or logged.
/// Else the file is removed, read-only or not; the log says so, or says why it
/// could not be. The value is the log afterwards.
pub open spec fn unblock_flow(
    path: Place,
    label: Seq<char>,
    logs: Seq<Seq<char>>,
    history: Seq<ReplyView>,
    at: int,
) -> Flow<Seq<Seq<char>>> {
    match reply_at(history, at) {
        None => Flow::Ask(RequestView::Stat(path)),
        Some(seen) => if seen.meta() is None {
            Flow::Done { value: logs, next: at + 1 }
        } else {
            match reply_at(history, at + 1) {
                None => Flow::Ask(
                    RequestView::Apply(seq![OpView::ClearReadonly(path), OpView::RemoveFile(path)]),
                ),
                Some(removed) => Flow::Done {
                    value: logs.push("Removing "@ + label + " blocker..."@).push(
                        match removed.outcome() {
                            Err(e) => "[!] Could not remove "@ + label + ": "@ + e,
                            Ok(_) => "[OK] "@ + label + " blocker removed"@,
                        },
                    ),
                    next: at + 2,
                },
            }
        },
    }
}

/// Whether what a part of lifting the lockdown returned, the log it left and
/// where it left the reader are what `flow` says.
pub open spec fn log_agrees(
    out: Result<(), Request>,
    logs: Seq<Seq<char>>,
    at: usize,
    flow: Flow<Seq<Seq<char>>>,
) -> bool {
    match flow {
        Flow::Ask(q) => out is Err && out->Err_0.deep_view() == q,
        Flow::Done { value, next } => out is Ok && logs == value && at == next,
    }
}

/// Takes away the blocker at `path`, which the log calls `label`.
pub fn remove_blocker(path: &Location, label: &str, logs: &mut Vec<String>, cursor: &mut Cursor) -> (out:
    Result<(), Request>)
    ensures
        final(cursor).history == old(cursor).history,
        log_agrees(
            out,
            final(logs).deep_view(),
            final(cursor).at,
            unblock_flow(
                path.deep_view(),
                label@,
                old(logs).deep_view(),
                old(cursor).history.deep_view(),
                old(cursor).at as int,
            ),
        ),
{
    let seen = cursor.ask(Request::Stat(path.duplicate()))?;
    if seen.meta().is_none() {
        return Ok(());
    }
    let removed = cursor.ask(
        apply_two(FsOp::ClearReadonly(path.duplicate()), FsOp::RemoveFile(path.duplicate())),
    )?;
    log_line(logs, concat3("Removing ", label, " blocker..."));
    match removed.outcome() {
        Err(e) => {
            let mut line = concat3("[!] Could not remove ", label, ": ");
            line.append(e.as_str());
            log_line(logs, line);
        },
        Ok(_) => {
            log_line(logs, concat3("[OK] ", label, " blocker removed"));
        },
    }
    Ok(())
}

/// How resetting the configuration goes, read from position `at` of the
/// history, with the log so far. Where there is no file nothing is done or
/// logged. Else it is read and written back whole, without the lines that pin
/// the version; a file that cannot be read is left alone. The value is the
/// log afterwards.
pub open spec fn reset_flow(apps: Place, logs: Seq<Seq<char>>, history: Seq<ReplyView>, at: int) -> Flow<
    Seq<Seq<char>>,
> {
    let config = config_place(apps);
    match reply_at(history, at) {
        None => Flow::Ask(RequestView::Stat(config)),
        Some(seen) => if seen.meta() is None {
            Flow::Done { value: logs, next: at + 1 }
        } else {
            match reply_at(history, at + 1) {
                None => Flow::Ask(RequestView::ReadText(config)),
                Some(read) => match read.content() {
                    Err(_) => Flow::Done {
                        value: logs.push("Resetting configure.ini..."@),
                        next: at + 2,
                    },
                    Ok(text) => match reply_at(history, at + 2) {
                        None => Flow::Ask(
                            RequestView::Apply(
                                seq![
                                    OpView::WriteText { to: config, text: unlocked_config(text) },
                                ],
                            ),
                        ),
                        Some(written) => Flow::Done {
                            value: logs.push("Resetting configure.ini..."@).push(
                                match written.outcome() {
                                    Err(e) => "[!] Could not reset configure.ini: "@ + e,
                                    Ok(_) => "[OK] configure.ini reset"@,
                                },
                            ),
                            next: at + 3,
                        },
                    },
                },
            }
        },
    }
}

/// Takes the version pin out of the configuration file under `apps`.
pub fn reset_configuration(apps: &Location, logs: &mut Vec<String>, cursor: &mut Cursor) -> (out:
    Result<(), Request>)
    ensures
        final(cursor).history == old(cursor).history,
        log_agrees(
            out,
            final(logs).deep_view(),
            final(cursor).at,
            reset_flow(
                apps.deep_view(),
                old(logs).deep_view(),
                old(cursor).history.deep_view(),
                old(cursor).at as int,
            ),
        ),
{
    let config = apps.child("configure.ini");
    let seen = cursor.ask(Request::Stat(config.duplicate()))?;
    if seen.meta().is_none() {
        return Ok(());
    }
    let read = cursor.ask(Request::ReadText(config.duplicate()))?;
    match read.content() {
        Err(_) => {
            log(logs, "Resetting configure.ini...");
        },
        Ok(text) => {
            let written = cursor.ask(
                apply_one(FsOp::WriteText { to: config, text: unlock_text(text.as_str()) }),
            )?;
            log(logs, "Resetting configure.ini...");
            match written.outcome() {
                Err(e) => {
                    log_line(logs, concat2("[!] Could not reset configure.ini: ", e.as_str()));
                },
                Ok(_) => {
                    log(logs, "[OK] configure.ini reset");
                },
            }
        },
    }
    Ok(())
}

/// How lifting the lockdown goes, read from position `at` of the history.
/// Without an install it fails at once. Else each of the three signals is
/// taken away in turn, whatever became of the one before, and the run ends
/// well with a log that says what was done and what could not be.
pub open spec fn remove_flow(history: Seq<ReplyView>, at: int) -> Flow<ProtectionResultView> {
    match reply_at(history, at) {
        None => Flow::Ask(RequestView::ProbeInstall(probe_plan())),
        Some(probed) => match chosen_install(probed.install()) {
            None => Flow::Done {
                value: ProtectionResultView::failed(
                    "Could not find CapCut installation"@,
                    Seq::empty(),
                ),
                next: at + 1,
            },
            Some(paths) => match unblock_flow(
                product_info_place(paths.apps),
                "ProductInfo.xml"@,
                Seq::empty(),
                history,
                at + 1,
            ) {
                Flow::Ask(q) => Flow::Ask(q),
                Flow::Done { value: first, next: n1 } => match unblock_flow(
                    update_exe_place(paths.root),
                    "update.exe"@,
                    first,
                    history,
                    n1,
                ) {
                    Flow::Ask(q) => Flow::Ask(q),
                    Flow::Done { value: second, next: n2 } => match reset_flow(
                        paths.apps,
                        second,
                        history,
                        n2,
                    ) {
                        Flow::Ask(q) => Flow::Ask(q),
                        Flow::Done { value: third, next: n3 } => Flow::Done {
                            value: ProtectionResultView::passed(
                                third.push(
                                    "[OK] Protection removed - CapCut can now auto-update"@,
                                ),
                            ),
                            next: n3,
                        },
                    },
                },
            },
        },
    }
}

/// Lifts the lockdown, reading the history from the cursor on.
pub fn remove_from(cursor: &mut Cursor) -> (out: Result<ProtectionResult, Request>)
    ensures
        final(cursor).history == old(cursor).history,
        agrees(
            out,
            final(cursor).at,
            remove_flow(old(cursor).history.deep_view(), old(cursor).at as int),
        ),
{
    let mut logs: Vec<String> = Vec::new();
    proof {
        assert(logs.deep_view() =~= Seq::<Seq<char>>::empty());
    }
    let paths = match resolve_from(cursor)? {
        Some(paths) => paths,
        None => {
            return Ok(
                ProtectionResult::failed(
                    String::from_str("Could not find CapCut installation"),
                    logs,
                ),
            );
        },
    };
    remove_blocker(&paths.apps.child("ProductInfo.xml"), "ProductInfo.xml", &mut logs, cursor)?;
    remove_blocker(
        &paths.root.child("User Data").child("Download").child("update.exe"),
        "update.exe",
        &mut logs,
        cursor,
    )?;
    reset_configuration(&paths.apps, &mut logs, cursor)?;
    log(&mut logs, "[OK] Protection removed - CapCut can now auto-update");
    Ok(ProtectionResult::passed(logs))
}

/// Lifts the lockdown: the next request for the host, or how it ended.
pub fn remove_protection(history: &Vec<Reply>) -> (step: Step<ProtectionResult>)
    ensures
        step.deep_view() == remove_flow(history.deep_view(), 0).step(),
{
    let mut cursor = Cursor::start(history);
    report(remove_from(&mut cursor))
}

/// The reason that is recorded with a backup made before a deletion.
pub open spec fn deletion_reason() -> Seq<char> {
    "pre-delete snapshot"@
}

/// What the log says of a backup that ended as `result`: that it was made,
/// or that it failed and the deletion goes on without it.
pub open spec fn backup_lines(result: BackupResultView) -> Seq<Seq<char>> {
    if result.success {
        match result.backup_id {
            Some(id) => seq!["[OK] Backup created: "@ + id],
            None => Seq::empty(),
        }
    } else {
        seq![
            "[!] Backup failed: "@ + match result.error {
                Some(e) => e,
                None => Seq::empty(),
            },
            "[!] Proceeding with deletion (backup unavailable)"@,
        ]
    }
}

/// The last lines of the log of a deletion of `count` versions.
pub open spec fn closing_lines(count: nat) -> Seq<Seq<char>> {
    if count == 0 {
        seq!["[OK] No versions to delete"@]
    } else {
        seq![
            "[OK] Deleted "@ + decimal(count) + " version(s)"@,
            "[OK] Backups available for recovery"@,
        ]
    }
}

/// The request that removes the version directory at `path`, read-only or
/// not.
pub open spec fn removal(path: Seq<char>) -> RequestView {
    RequestView::Apply(
        seq![OpView::ClearReadonly(Place::at(path)), OpView::RemoveDirAll(Place::at(path))],
    )
}

/// How deleting the versions from the `i`-th on goes, read from position `at`
/// of the history, with the log so far. For each version its name is asked
/// for, a backup is made, and the directory is removed. Whether the backup
/// succeeded decides only what the log says; a directory that cannot be
/// removed stops the run.
pub open spec fn delete_versions_from(
    paths: Seq<Seq<char>>,
    i: int,
    logs: Seq<Seq<char>>,
    history: Seq<ReplyView>,
    at: int,
) -> Flow<ProtectionResultView>
    decreases paths.len() - i,
{
    if i < 0 || i >= paths.len() {
        Flow::Done { value: ProtectionResultView::passed(logs + closing_lines(paths.len())), next: at }
    } else {
        match reply_at(history, at) {
            None => Flow::Ask(RequestView::LeafName(Place::at(paths[i]))),
            Some(leaf) => {
                let name = version_name_of(leaf.text());
                match backup_flow(paths[i], deletion_reason(), history, at + 1) {
                    Flow::Ask(q) => Flow::Ask(q),
                    Flow::Done { value: backup, next } => {
                        let so_far = (logs.push("Backing up: "@ + name) + backup_lines(backup)).push(
                            "Deleting: "@ + name,
                        );
                        match reply_at(history, next) {
                            None => Flow::Ask(removal(paths[i])),
                            Some(removed) => match removed.outcome() {
                                Err(e) => Flow::Done {
                                    value: ProtectionResultView::failed(
                                        "Failed to delete "@ + name + ": "@ + e,
                                        so_far,
                                    ),
                                    next: next + 1,
                                },
                                Ok(_) => delete_versions_from(
                                    paths,
                                    i + 1,
                                    so_far,
                                    history,
                                    next + 1,
                                ),
                            },
                        }
                    },
                }
            },
        }
    }
}

/// How deleting the versions at `paths` goes, read from position `at` of the
/// history.
pub open spec fn delete_versions_flow(paths: Seq<Seq<char>>, history: Seq<ReplyView>, at: int) -> Flow<
    ProtectionResultView,
> {
    delete_versions_from(paths, 0, Seq::empty(), history, at)
}

/// How many replies a round of a deletion takes in which no backup can be
/// made: three where the application data directory is unknown, four where
/// it is known and the root of the backup store cannot be created.
pub open spec fn round_length(known: bool) -> int {
    if known {
        4
    } else {
        3
    }
}

/// Whether, in the `k`-th round of a deletion, no backup could be made and
/// the version was deleted all the same. Where `known` is set, the
/// application data directory was known and the root of the backup store
/// could not be created; else the directory was unknown. Either way the
/// version directory was removed.
pub open spec fn round_without_backup(history: Seq<ReplyView>, known: bool, k: int) -> bool {
    let at = round_length(known) * k;
    &&& 0 <= at && at + round_length(known) <= history.len()
    &&& if known {
        history[at + 1].text() is Some && history[at + 2].outcome() is Err
    } else {
        history[at + 1].text() is None
    }
    &&& history[at + round_length(known) - 1].outcome() is Ok
}

/// Why the backup of the `k`-th such round failed.
pub open spec fn backup_failure(history: Seq<ReplyView>, known: bool, k: int) -> Seq<char> {
    if known {
        "Failed to create backup directory: "@ + history[4 * k + 2].outcome()->Err_0
    } else {
        "Could not determine backup directory"@
    }
}

/// What the log says of the backup in the `k`-th such round.
pub open spec fn backup_warning(history: Seq<ReplyView>, known: bool, k: int) -> Seq<char> {
    "[!] Backup failed: "@ + backup_failure(history, known, k)
}

/// The four lines that the `k`-th such round adds to the log, in their
/// order: the backup is begun, it failed, the deletion goes on all the same,
/// the version is deleted.
pub open spec fn round_lines(history: Seq<ReplyView>, known: bool, k: int) -> Seq<Seq<char>> {
    let name = version_name_of(history[round_length(known) * k].text());
    seq![
        "Backing up: "@ + name,
        backup_warning(history, known, k),
        "[!] Proceeding with deletion (backup unavailable)"@,
        "Deleting: "@ + name,
    ]
}

/// The log of a deletion all of whose rounds, from the `i`-th on, are such
/// rounds: the lines so far, the four lines of each round, and the closing
/// lines.
pub open spec fn log_without_backup(
    paths: Seq<Seq<char>>,
    history: Seq<ReplyView>,
    known: bool,
    i: int,
    logs: Seq<Seq<char>>,
) -> Seq<Seq<char>>
    decreases paths.len() - i,
{
    if i < 0 || i >= paths.len() {
        logs + closing_lines(paths.len())
    } else {
        log_without_backup(paths, history, known, i + 1, logs + round_lines(history, known, i))
    }
}

/// Whether a line of the log says that a backup was made.
pub open spec fn says_backup_made(line: Seq<char>) -> bool {
    "[OK] Backup created: "@.is_prefix_of(line)
}

proof fn lemma_says_no_backup(line: Seq<char>, k: int)
    requires
        0 <= k < "[OK] Backup created: "@.len(),
        k < line.len() ==> line[k] != "[OK] Backup created: "@[k],
    ensures
        !says_backup_made(line),
{
    let made = "[OK] Backup created: "@;
    if made.is_prefix_of(line) {
        assert(line.subrange(0, made.len() as int)[k] == line[k]);
    }
}

proof fn lemma_round_lines_say_no_backup(history: Seq<ReplyView>, known: bool, k: int)
    ensures
        forall|j: int| 0 <= j < 4 ==> !says_backup_made(#[trigger] round_lines(history, known, k)[j]),
{
    reveal_strlit("[OK] Backup created: ");
    reveal_strlit("Backing up: ");
    reveal_strlit("[!] Backup failed: ");
    reveal_strlit("[!] Proceeding with deletion (backup unavailable)");
    reveal_strlit("Deleting: ");
    let lines = round_lines(history, known, k);
    lemma_says_no_backup(lines[0], 0);
    lemma_says_no_backup(lines[1], 1);
    lemma_says_no_backup(lines[2], 1);
    lemma_says_no_backup(lines[3], 0);
}

proof fn lemma_closing_lines_say_no_backup(count: nat)
    ensures
        forall|j: int|
            0 <= j < closing_lines(count).len() ==> !says_backup_made(
                #[trigger] closing_lines(count)[j],
            ),
{
    reveal_strlit("[OK] Backup created: ");
    reveal_strlit("[OK] No versions to delete");
    reveal_strlit("[OK] Deleted ");
    reveal_strlit("[OK] Backups available for recovery");
    let lines = closing_lines(count);
    if count == 0 {
        lemma_says_no_backup(lines[0], 5);
    } else {
        assert(lines[0][5] == 'D');
        lemma_says_no_backup(lines[0], 5);
        lemma_says_no_backup(lines[1], 11);
    }
}

proof fn lemma_log_says_no_backup(
    paths: Seq<Seq<char>>,
    history: Seq<ReplyView>,
    known: bool,
    i: int,
    logs: Seq<Seq<char>>,
)
    requires
        forall|j: int| 0 <= j < logs.len() ==> !says_backup_made(#[trigger] logs[j]),
    ensures
        forall|j: int|
            0 <= j < log_without_backup(paths, history, known, i, logs).len() ==> !says_backup_made(
                #[trigger] log_without_backup(paths, history, known, i, logs)[j],
            ),
    decreases paths.len() - i,
{
    if i < 0 || i >= paths.len() {
        lemma_closing_lines_say_no_backup(paths.len());
        let out = logs + closing_lines(paths.len());
        assert(log_without_backup(paths, history, known, i, logs) == out);
        assert forall|j: int| 0 <= j < out.len() implies !says_backup_made(#[trigger] out[j]) by {
            if j >= logs.len() {
                assert(out[j] == closing_lines(paths.len())[j - logs.len()]);
            } else {
                assert(out[j] == logs[j]);
            }
        }
    } else {
        lemma_round_lines_say_no_backup(history, known, i);
        let round = round_lines(history, known, i);
        assert(round.len() == 4);
        let more = logs + round;
        assert(log_without_backup(paths, history, known, i, logs) == log_without_backup(
            paths,
            history,
            known,
            i + 1,
            more,
        ));
        assert forall|j: int| 0 <= j < more.len() implies !says_backup_made(#[trigger] more[j]) by {
            if j >= logs.len() {
                assert(more[j] == round[j - logs.len()]);
            } else {
                assert(more[j] == logs[j]);
            }
        }
        lemma_log_says_no_backup(paths, history, known, i + 1, more);
    }
}

proof fn lemma_rounds_without_backup(
    paths: Seq<Seq<char>>,
    known: bool,
    i: int,
    logs: Seq<Seq<char>>,
    history: Seq<ReplyView>,
)
    requires
        0 <= i <= paths.len(),
        forall|k: int| i <= k < paths.len() ==> #[trigger] round_without_backup(history, known, k),
    ensures
        delete_versions_from(paths, i, logs, history, round_length(known) * i) == (Flow::Done {
            value: ProtectionResultView::passed(log_without_backup(paths, history, known, i, logs)),
            next: round_length(known) * paths.len(),
        }),
    decreases paths.len() - i,
{
    let stride = round_length(known);
    if i < paths.len() {
        assert(round_without_backup(history, known, i));
        let at = stride * i;
        let name = version_name_of(history[at].text());
        let backup = BackupResultView::failed(backup_failure(history, known, i));
        assert(backup_flow(paths[i], deletion_reason(), history, at + 1) == Flow::Done {
            value: backup,
            next: at + stride - 1,
        });
        let so_far = (logs.push("Backing up: "@ + name) + backup_lines(backup)).push(
            "Deleting: "@ + name,
        );
        assert(so_far =~= logs + round_lines(history, known, i));
        assert(stride * (i + 1) == at + stride) by (nonlinear_arith)
            requires
                at == stride * i,
        ;
        assert(delete_versions_from(paths, i, logs, history, at) == delete_versions_from(
            paths,
            i + 1,
            so_far,
            history,
            stride * (i + 1),
        ));
        lemma_rounds_without_backup(paths, known, i + 1, so_far, history);
    }
}

/// What a deletion asks for at the position `offset` of its `k`-th round,
/// where no backup can be made in that round: the name of the version, the
/// application data directory, where that is known the root of the backup
/// store, and last the removal of the version.
pub open spec fn asked_in_round(
    paths: Seq<Seq<char>>,
    history: Seq<ReplyView>,
    known: bool,
    k: int,
    offset: int,
) -> RequestView {
    if offset == 0 {
        RequestView::LeafName(Place::at(paths[k]))
    } else if offset == 1 {
        RequestView::LocalAppData
    } else if known && offset == 2 {
        RequestView::Apply(
            seq![OpView::CreateDirAll(backup_root(history[4 * k + 1].text()->0))],
        )
    } else {
        removal(paths[k])
    }
}

/// In a deletion whose rounds up to the `k`-th are rounds without a backup,
/// the request made at each position of the `k`-th round is the one that
/// `asked_in_round` names.
pub proof fn lemma_round_asks(
    paths: Seq<Seq<char>>,
    known: bool,
    i: int,
    k: int,
    offset: int,
    logs: Seq<Seq<char>>,
    history: Seq<ReplyView>,
)
    requires
        0 <= i <= k < paths.len(),
        0 <= offset < round_length(known),
        forall|j: int| i <= j <= k ==> #[trigger] round_without_backup(history, known, j),
    ensures
        delete_versions_from(
            paths,
            i,
            logs,
            history.take(round_length(known) * k + offset),
            round_length(known) * i,
        ) == Flow::<ProtectionResultView>::Ask(asked_in_round(paths, history, known, k, offset)),
    decreases k - i,
{
    let stride = round_length(known);
    let short = history.take(stride * k + offset);
    assert(round_without_backup(history, known, i));
    assert(round_without_backup(history, known, k));
    let at = stride * i;
    assert(stride * (i + 1) == at + stride) by (nonlinear_arith)
        requires
            at == stride * i,
    ;
    let name = version_name_of(history[at].text());
    if i < k {
        assert(stride * (i + 1) <= stride * k) by (nonlinear_arith)
            requires
                i < k,
                stride > 0,
        ;
        let backup = BackupResultView::failed(backup_failure(history, known, i));
        assert(reply_at(short, at) == Some(history[at]));
        assert(reply_at(short, at + 1) == Some(history[at + 1]));
        if known {
            assert(reply_at(short, at + 2) == Some(history[at + 2]));
        }
        assert(backup_flow(paths[i], deletion_reason(), short, at + 1) == Flow::Done {
            value: backup,
            next: at + stride - 1,
        });
        assert(reply_at(short, at + stride - 1) == Some(history[at + stride - 1]));
        let so_far = (logs.push("Backing up: "@ + name) + backup_lines(backup)).push(
            "Deleting: "@ + name,
        );
        assert(delete_versions_from(paths, i, logs, short, at) == delete_versions_from(
            paths,
            i + 1,
            so_far,
            short,
            stride * (i + 1),
        ));
        lemma_round_asks(paths, known, i + 1, k, offset, so_far, history);
    } else {
        assert(short.len() == at + offset);
        if offset == 0 {
            assert(reply_at(short, at) is None);
        } else {
            assert(reply_at(short, at) == Some(history[at]));
            if offset == 1 {
                assert(reply_at(short, at + 1) is None);
            } else {
                assert(reply_at(short, at + 1) == Some(history[at + 1]));
                if known && offset == 2 {
                    assert(reply_at(short, at + 2) is None);
                } else {
                    if known {
                        assert(reply_at(short, at + 2) == Some(history[at + 2]));
                    }
                    assert(backup_flow(paths[i], deletion_reason(), short, at + 1) == Flow::Done {
                        value: BackupResultView::failed(backup_failure(history, known, i)),
                        next: at + stride - 1,
                    });
                    assert(reply_at(short, at + stride - 1) is None);
                }
            }
        }
    }
}

/// A backup that cannot be made does not hold a deletion up. Let no backup
/// be possible for any version, because the application data directory is
/// unknown or, where `known` is set, because the root of the backup store
/// cannot be created; and let each version directory be removable. Then the
/// request to remove each version is made, and the deletion ends well. Its
/// log holds, for each version in turn, the line on the backup begun, the
/// warning with the reason, the line that the deletion goes on, and the line
/// on the deletion; then the closing lines. No line says that a backup was
/// made.
pub proof fn lemma_deletion_goes_on_without_backup(
    paths: Seq<Seq<char>>,
    history: Seq<ReplyView>,
    known: bool,
)
    requires
        forall|k: int| 0 <= k < paths.len() ==> #[trigger] round_without_backup(history, known, k),
    ensures
        forall|k: int|
            0 <= k < paths.len() ==> #[trigger] delete_versions_flow(
                paths,
                history.take(round_length(known) * (k + 1) - 1),
                0,
            ).step() == StepView::<ProtectionResultView>::Ask(removal(paths[k])),
        delete_versions_flow(paths, history, 0).step() == StepView::Done(
            ProtectionResultView::passed(
                log_without_backup(paths, history, known, 0, Seq::empty()),
            ),
        ),
        forall|j: int|
            0 <= j < log_without_backup(paths, history, known, 0, Seq::empty()).len()
                ==> !says_backup_made(
                #[trigger] log_without_backup(paths, history, known, 0, Seq::empty())[j],
            ),
{
    lemma_rounds_without_backup(paths, known, 0, Seq::empty(), history);
    lemma_log_says_no_backup(paths, history, known, 0, Seq::empty());
    assert forall|k: int| 0 <= k < paths.len() implies #[trigger] delete_versions_flow(
        paths,
        history.take(round_length(known) * (k + 1) - 1),
        0,
    ).step() == StepView::<ProtectionResultView>::Ask(removal(paths[k])) by {
        let stride = round_length(known);
        assert(stride * (k + 1) - 1 == stride * k + (stride - 1)) by (nonlinear_arith);
        lemma_round_asks(paths, known, 0, k, stride - 1, Seq::empty(), history);
    }
}

/// Without an install to be found, nothing that needs one goes on: applying
/// and lifting the lockdown fail with the same error and an empty log, and the
/// status says that nothing is protected.
pub proof fn lemma_nothing_without_install(
    history: Seq<ReplyView>,
    lock_config: bool,
    create_blockers: bool,
)
    requires
        history.len() > 0,
        chosen_install(history[0].install()) is None,
    ensures
        apply_flow(lock_config, create_blockers, history, 0).step() == StepView::Done(
            ProtectionResultView::failed("Could not find CapCut installation"@, Seq::empty()),
        ),
        remove_flow(history, 0).step() == StepView::Done(
            ProtectionResultView::failed("Could not find CapCut installation"@, Seq::empty()),
        ),
        status_flow(history, 0).step() == StepView::Done(unprotected()),
{
}

fn log_backup(logs: &mut Vec<String>, backup: BackupResult)
    ensures
        final(logs).deep_view() == old(logs).deep_view() + backup_lines(backup.deep_view()),
{
    if backup.success {
        if let Some(id) = &backup.backup_id {
            log_line(logs, concat2("[OK] Backup created: ", id.as_str()));
            assert(logs.deep_view() =~= old(logs).deep_view() + backup_lines(backup.deep_view()));
        } else {
            assert(logs.deep_view() =~= old(logs).deep_view() + backup_lines(backup.deep_view()));
        }
    } else {
        let line = match &backup.error {
            Some(e) => concat2("[!] Backup failed: ", e.as_str()),
            None => concat2("[!] Backup failed: ", ""),
        };
        proof {
            reveal_strlit("");
            assert("[!] Backup failed: "@ + ""@ =~= "[!] Backup failed: "@ + Seq::<char>::empty());
        }
        log_line(logs, line);
        log(logs, "[!] Proceeding with deletion (backup unavailable)");
        assert(logs.deep_view() =~= old(logs).deep_view() + backup_lines(backup.deep_view()));
    }
}

/// Deletes the versions at `paths`, reading the history from the cursor on.
pub fn delete_from(paths: &Vec<String>, cursor: &mut Cursor) -> (out: Result<
    ProtectionResult,
    Request,
>)
    ensures
        final(cursor).history == old(cursor).history,
        agrees(
            out,
            final(cursor).at,
            delete_versions_flow(
                paths.deep_view(),
                old(cursor).history.deep_view(),
                old(cursor).at as int,
            ),
        ),
{
    let ghost history = cursor.history.deep_view();
    let ghost all = paths.deep_view();
    let ghost goal = delete_versions_flow(all, history, cursor.at as int);
    let mut logs: Vec<String> = Vec::new();
    proof {
        assert(logs.deep_view() =~= Seq::<Seq<char>>::empty());
    }
    let mut i: usize = 0;
    while i < paths.len()
        invariant
            i <= paths.len(),
            all == paths.deep_view(),
            history == cursor.history.deep_view(),
            cursor.history == old(cursor).history,
            goal == delete_versions_flow(all, old(cursor).history.deep_view(), old(cursor).at as int),
            goal == delete_versions_from(all, i as int, logs.deep_view(), history, cursor.at as int),
        decreases paths.len() - i,
    {
        let path = &paths[i];
        assert(all[i as int] == path@);
        let leaf = cursor.ask(Request::LeafName(Location::at(path.as_str())))?;
        let name = match leaf.text() {
            Some(name) => name.clone(),
            None => String::new(),
        };
        let backup = backup_from(path.as_str(), "pre-delete snapshot", cursor)?;
        log_line(&mut logs, concat2("Backing up: ", name.as_str()));
        log_backup(&mut logs, backup);
        log_line(&mut logs, concat2("Deleting: ", name.as_str()));
        let here = Location::at(path.as_str());
        let removed = cursor.ask(
            apply_two(FsOp::ClearReadonly(here.duplicate()), FsOp::RemoveDirAll(here)),
        )?;
        if let Err(e) = removed.outcome() {
            let mut message = concat3("Failed to delete ", name.as_str(), ": ");
            message.append(e.as_str());
            return Ok(ProtectionResult::failed(message, logs));
        }
        i += 1;
    }
    let ghost before = logs.deep_view();
    if paths.len() == 0 {
        log(&mut logs, "[OK] No versions to delete");
    } else {
        let count = decimal_string(paths.len() as u64);
        log_line(&mut logs, concat3("[OK] Deleted ", count.as_str(), " version(s)"));
        log(&mut logs, "[OK] Backups available for recovery");
    }
    proof {
        assert(logs.deep_view() =~= before + closing_lines(all.len()));
    }
    Ok(ProtectionResult::passed(logs))
}

/// Deletes the version directories at `paths`, each after a backup of it: the
/// next request for the host, or how the deletion ended.
pub fn delete_versions(paths: Vec<String>, history: &Vec<Reply>) -> (step: Step<ProtectionResult>)
    ensures
        step.deep_view() == delete_versions_flow(paths.deep_view(), history.deep_view(), 0).step(),
{
    let mut cursor = Cursor::start(history);
    report(delete_from(&paths, &mut cursor))
}

/// What a full run is to do, as plain sequences.
pub struct ParamsView {
    pub versions_to_delete: Seq<Seq<char>>,
    pub clean_cache: bool,
    pub lock_config: bool,
    pub create_blockers: bool,
}

impl DeepView for ProtectionParams {
    type V = ParamsView;

    open spec fn deep_view(&self) -> ParamsView {
        ParamsView {
            versions_to_delete: self.versions_to_delete.deep_view(),
            clean_cache: self.clean_cache,
            lock_config: self.lock_config,
            create_blockers: self.create_blockers,
        }
    }
}

/// The last part of a full run, read from position `at` of the history, with
/// the log so far: the lockdown, where any half of it is wanted. Its log is
/// added to the run's; where it fails the run fails with its error.
pub open spec fn full_protect(params: ParamsView, logs: Seq<Seq<char>>, history: Seq<ReplyView>, at: int) -> Flow<
    ProtectionResultView,
> {
    if params.lock_config || params.create_blockers {
        match apply_flow(params.lock_config, params.create_blockers, history, at) {
            Flow::Ask(q) => Flow::Ask(q),
            Flow::Done { value: applied, next } => Flow::Done {
                value: ProtectionResultView {
                    success: applied.success,
                    error: if applied.success {
                        None
                    } else {
                        applied.error
                    },
                    logs: logs + applied.logs,
                },
                next,
            },
        }
    } else {
        Flow::Done {
            value: ProtectionResultView::passed(
                logs.push("Skipping protection (all options disabled)"@),
            ),
            next: at,
        }
    }
}

/// The third part of a full run, read from position `at` of the history,
/// with the log so far: the caches are cleared where that is wanted, and the
/// log of it is added to the run's whatever became of it.
pub open spec fn full_clean(params: ParamsView, logs: Seq<Seq<char>>, history: Seq<ReplyView>, at: int) -> Flow<
    ProtectionResultView,
> {
    if params.clean_cache {
        match clean_flow(history, at) {
            Flow::Ask(q) => Flow::Ask(q),
            Flow::Done { value: cleaned, next } => full_protect(
                params,
                logs.push("Cleaning cache directories..."@) + cleaned.logs,
                history,
                next,
            ),
        }
    } else {
        full_protect(params, logs.push("Skipping cache cleaning (disabled)"@), history, at)
    }
}

/// How a full run goes, read from position `at` of the history. It stops at
/// once where the application is running. Then the versions are deleted; a
/// version that cannot be deleted stops the run. Then the caches and the
/// lockdown follow, each where it is wanted.
pub open spec fn full_flow(params: ParamsView, history: Seq<ReplyView>, at: int) -> Flow<
    ProtectionResultView,
> {
    let opening = seq!["Checking system state..."@];
    match running_flow(history, at) {
        Flow::Ask(q) => Flow::Ask(q),
        Flow::Done { value: true, next } => Flow::Done {
            value: ProtectionResultView::failed(
                "CapCut is still running. Please close it."@,
                opening,
            ),
            next,
        },
        Flow::Done { value: false, next } => match delete_versions_flow(
            params.versions_to_delete,
            history,
            next,
        ) {
            Flow::Ask(q) => Flow::Ask(q),
            Flow::Done { value: deleted, next: n } => {
                let logs = opening.push("[OK] No running instances"@) + deleted.logs;
                if !deleted.success {
                    Flow::Done {
                        value: ProtectionResultView { success: false, error: deleted.error, logs },
                        next: n,
                    }
                } else {
                    full_clean(params, logs, history, n)
                }
            },
        },
    }
}

/// Adds the lines of `more` to the log.
pub fn log_all(logs: &mut Vec<String>, more: Vec<String>)
    ensures
        final(logs).deep_view() == old(logs).deep_view() + more.deep_view(),
{
    let ghost start = logs.deep_view();
    let mut i: usize = 0;
    proof {
        assert(start + more.deep_view().take(0) =~= start);
    }
    while i < more.len()
        invariant
            i <= more.len(),
            logs.deep_view() == start + more.deep_view().take(i as int),
        decreases more.len() - i,
    {
        let line = more[i].clone();
        let ghost before = *logs;
        logs.push(line);
        proof {
            lemma_deep_view_push(before, *logs, line);
            assert(more.deep_view().take(i + 1) =~= more.deep_view().take(i as int).push(
                more@[i as int].deep_view(),
            ));
            assert(logs.deep_view() =~= start + more.deep_view().take(i + 1));
        }
        i += 1;
    }
    proof {
        assert(more.deep_view().take(more.len() as int) =~= more.deep_view());
    }
}

fn full_from(params: &ProtectionParams, cursor: &mut Cursor) -> (out: Result<
    ProtectionResult,
    Request,
>)
    ensures
        agrees(
            out,
            final(cursor).at,
            full_flow(params.deep_view(), old(cursor).history.deep_view(), old(cursor).at as int),
        ),
{
    let ghost history = cursor.history.deep_view();
    let ghost p = params.deep_view();
    let mut logs: Vec<String> = Vec::new();
    proof {
        assert(logs.deep_view() =~= Seq::<Seq<char>>::empty());
    }
    log(&mut logs, "Checking system state...");
    assert(logs.deep_view() =~= seq!["Checking system state..."@]);
    if running_from(cursor)? {
        return Ok(
            ProtectionResult::failed(
                String::from_str("CapCut is still running. Please close it."),
                logs,
            ),
        );
    }
    log(&mut logs, "[OK] No running instances");
    let deleted = delete_from(&params.versions_to_delete, cursor)?;
    log_all(&mut logs, deleted.logs);
    if !deleted.success {
        return Ok(ProtectionResult { success: false, error: deleted.error, logs });
    }
    assert(full_flow(p, history, old(cursor).at as int) == full_clean(
        p,
        logs.deep_view(),
        history,
        cursor.at as int,
    ));
    if params.clean_cache {
        let cleaned = clean_from(cursor)?;
        log(&mut logs, "Cleaning cache directories...");
        log_all(&mut logs, cleaned.logs);
    } else {
        log(&mut logs, "Skipping cache cleaning (disabled)");
    }
    assert(full_flow(p, history, old(cursor).at as int) == full_protect(
        p,
        logs.deep_view(),
        history,
        cursor.at as int,
    ));
    if params.lock_config || params.create_blockers {
        let applied = apply_from(params.lock_config, params.create_blockers, cursor)?;
        log_all(&mut logs, applied.logs);
        if !applied.success {
            return Ok(ProtectionResult { success: false, error: applied.error, logs });
        }
    } else {
        log(&mut logs, "Skipping protection (all options disabled)");
    }
    Ok(ProtectionResult::passed(logs))
}

/// Runs the whole protection: the next request for the host, or how the run
/// ended.
pub fn run_full_protection(params: ProtectionParams, history: &Vec<Reply>) -> (step: Step<
    ProtectionResult,
>)
    ensures
        step.deep_view() == full_flow(params.deep_view(), history.deep_view(), 0).step(),
{
    let mut cursor = Cursor::start(history);
    report(full_from(&params, &mut cursor))
}

/// Whether the lockdown is in place: the next request for the host, or the
/// status, derived anew from what the host reports of the disk.
pub fn check_protection_status(history: &Vec<Reply>) -> (step: Step<ProtectionStatus>)
    ensures
        step.deep_view() == status_flow(history.deep_view(), 0).step(),
{
    let mut cursor = Cursor::start(history);
    report(status_from(&mut cursor))
}

} // verus!
