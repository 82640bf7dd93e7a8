//! Whether the application is running, and the check made before anything is
//! changed.

use crate::host::{lemma_deep_view_push, Entry, EntryView, Location, Place};
use crate::paths::{chosen_install, default_root_dir, payload_dir, probe_plan};
use crate::protector::resolve_from;
use crate::protocol::{
    agrees, reply_at, report, Cursor, Flow, Reply, ReplyView, Request, RequestView, Step, StepView,
};
use crate::text::{concat2, sort_names, sorted_names};
use vstd::prelude::*;
use vstd::string::*;

verus! {

/// How asking for a running instance goes, read from position `at` of the
/// history: the host is asked for a process named like the application, and
/// only where there is none for one named like its program file.
pub open spec fn running_flow(history: Seq<ReplyView>, at: int) -> Flow<bool> {
    match reply_at(history, at) {
        None => Flow::Ask(RequestView::ProcessRunning("CapCut"@)),
        Some(plain) => if plain.flag() {
            Flow::Done { value: true, next: at + 1 }
        } else {
            match reply_at(history, at + 1) {
                None => Flow::Ask(RequestView::ProcessRunning("CapCut.exe"@)),
                Some(exe) => Flow::Done { value: exe.flag(), next: at + 2 },
            }
        },
    }
}

/// Asks whether the application is running, reading the history from the
/// cursor on.
pub fn running_from(cursor: &mut Cursor) -> (out: Result<bool, Request>)
    ensures
        final(cursor).history == old(cursor).history,
        agrees(
            out,
            final(cursor).at,
            running_flow(old(cursor).history.deep_view(), old(cursor).at as int),
        ),
{
    let plain = cursor.ask(Request::ProcessRunning(String::from_str("CapCut")))?;
    if plain.flag() {
        return Ok(true);
    }
    let exe = cursor.ask(Request::ProcessRunning(String::from_str("CapCut.exe")))?;
    Ok(exe.flag())
}

/// Whether the application is running: the next request for the host, or the
/// answer.
pub fn is_capcut_running(history: &Vec<Reply>) -> (step: Step<bool>)
    ensures
        step.deep_view() == running_flow(history.deep_view(), 0).step(),
{
    let mut cursor = Cursor::start(history);
    report(running_from(&mut cursor))
}

/// How starting the application ended.
#[derive(Debug, Clone, PartialEq, Eq)]
pub struct LaunchResult {
    pub success: bool,
    pub error: Option<String>,
}

/// A `LaunchResult` as plain sequences.
pub struct LaunchView {
    pub success: bool,
    pub error: Option<Seq<char>>,
}

impl DeepView for LaunchResult {
    type V = LaunchView;

    open spec fn deep_view(&self) -> LaunchView {
        LaunchView { success: self.success, error: self.error.deep_view() }
    }
}

impl LaunchView {
    /// The result of a launch that `message` stopped.
    pub open spec fn failed(message: Seq<char>) -> LaunchView {
        LaunchView { success: false, error: Some(message) }
    }
}

/// The name of an entry of a directory listing: the last of the names that
/// lead to it.
pub open spec fn entry_name(entry: EntryView) -> Seq<char> {
    if entry.rel.len() > 0 {
        entry.rel.last()
    } else {
        Seq::empty()
    }
}

/// The names of the directories among `entries`, in the order of the
/// listing.
pub open spec fn dir_names(entries: Seq<EntryView>) -> Seq<Seq<char>>
    decreases entries.len(),
{
    if entries.len() == 0 {
        Seq::empty()
    } else if entries.last().is_dir {
        dir_names(entries.drop_last()).push(entry_name(entries.last()))
    } else {
        dir_names(entries.drop_last())
    }
}

/// The names of the directories among `entries`.
pub fn directories(entries: &Vec<Entry>) -> (out: Vec<String>)
    ensures
        out.deep_view() == dir_names(entries.deep_view()),
{
    let ghost all = entries.deep_view();
    let mut out: Vec<String> = Vec::new();
    let mut i: usize = 0;
    proof {
        assert(all.take(0) =~= Seq::<EntryView>::empty());
        assert(out.deep_view() =~= Seq::<Seq<char>>::empty());
    }
    while i < entries.len()
        invariant
            i <= entries.len(),
            all == entries.deep_view(),
            out.deep_view() == dir_names(all.take(i as int)),
        decreases entries.len() - i,
    {
        let entry = &entries[i];
        proof {
            assert(all.take(i + 1).drop_last() =~= all.take(i as int));
            assert(all.take(i + 1).last() == entry.deep_view());
        }
        if entry.is_dir {
            let name = if entry.rel.len() > 0 {
                entry.rel[entry.rel.len() - 1].clone()
            } else {
                String::new()
            };
            let ghost before = out;
            out.push(name);
            proof {
                lemma_deep_view_push(before, out, name);
            }
        }
        i += 1;
    }
    proof {
        assert(all.take(entries.len() as int) =~= all);
    }
    out
}

/// The names of the directories that a reply to a listing stands for.
pub fn listed_directories(reply: &Reply) -> (out: Vec<String>)
    ensures
        out.deep_view() == dir_names(reply.deep_view().entries()),
{
    match reply.entries() {
        Some(listing) => directories(listing.entries()),
        None => {
            let none: Vec<String> = Vec::new();
            proof {
                assert(none.deep_view() =~= Seq::<Seq<char>>::empty());
            }
            none
        },
    }
}

/// The program file of the version called `name` under `apps`.
pub open spec fn program_place(apps: Place, name: Seq<char>) -> Place {
    apps.child(name).child("CapCut.exe"@)
}

/// How starting one of the versions called `names`, from the `i`-th on, goes,
/// read from position `at` of the history: the first version that holds the
/// program file is started, and the launch ends with that, well or not.
pub open spec fn launch_from(
    apps: Place,
    names: Seq<Seq<char>>,
    i: int,
    history: Seq<ReplyView>,
    at: int,
) -> Flow<LaunchView>
    decreases names.len() - i,
{
    if i < 0 || i >= names.len() {
        Flow::Done { value: LaunchView::failed("CapCut.exe not found in any version"@), next: at }
    } else {
        match reply_at(history, at) {
            None => Flow::Ask(RequestView::Stat(program_place(apps, names[i]))),
            Some(seen) => if seen.meta() is None {
                launch_from(apps, names, i + 1, history, at + 1)
            } else {
                match reply_at(history, at + 1) {
                    None => Flow::Ask(RequestView::Launch(program_place(apps, names[i]))),
                    Some(started) => Flow::Done {
                        value: match started.outcome() {
                            Ok(_) => LaunchView { success: true, error: None },
                            Err(e) => LaunchView::failed("Failed to launch: "@ + e),
                        },
                        next: at + 2,
                    },
                }
            },
        }
    }
}

/// How starting the application goes. It fails where no install is found or
/// its payload directory is missing. Else the versions are tried from the
/// highest name down.
pub open spec fn launch_flow(history: Seq<ReplyView>, at: int) -> Flow<LaunchView> {
    match reply_at(history, at) {
        None => Flow::Ask(RequestView::ProbeInstall(probe_plan())),
        Some(probed) => match chosen_install(probed.install()) {
            None => Flow::Done {
                value: LaunchView::failed("CapCut installation not found"@),
                next: at + 1,
            },
            Some(paths) => match reply_at(history, at + 1) {
                None => Flow::Ask(RequestView::Stat(paths.apps)),
                Some(seen) => if seen.meta() is None {
                    Flow::Done {
                        value: LaunchView::failed("CapCut installation not found"@),
                        next: at + 2,
                    }
                } else {
                    match reply_at(history, at + 2) {
                        None => Flow::Ask(RequestView::ListDir(paths.apps)),
                        Some(listed) => launch_from(
                            paths.apps,
                            sorted_names(dir_names(listed.entries()), true),
                            0,
                            history,
                            at + 3,
                        ),
                    }
                },
            },
        },
    }
}

fn launch(cursor: &mut Cursor) -> (out: Result<LaunchResult, Request>)
    ensures
        agrees(out, final(cursor).at, launch_flow(old(cursor).history.deep_view(), old(cursor).at as int)),
{
    let ghost history = cursor.history.deep_view();
    let ghost goal = launch_flow(history, cursor.at as int);
    let paths = match resolve_from(cursor)? {
        Some(paths) => paths,
        None => {
            return Ok(
                LaunchResult {
                    success: false,
                    error: Some(String::from_str("CapCut installation not found")),
                },
            );
        },
    };
    let seen = cursor.ask(Request::Stat(paths.apps.duplicate()))?;
    if seen.meta().is_none() {
        return Ok(
            LaunchResult {
                success: false,
                error: Some(String::from_str("CapCut installation not found")),
            },
        );
    }
    let listed = cursor.ask(Request::ListDir(paths.apps.duplicate()))?;
    let names = sort_names(&listed_directories(listed), true);
    let ghost apps = paths.apps.deep_view();
    let mut i: usize = 0;
    while i < names.len()
        invariant
            i <= names.len(),
            apps == paths.apps.deep_view(),
            history == cursor.history.deep_view(),
            cursor.history == old(cursor).history,
            goal == launch_flow(old(cursor).history.deep_view(), old(cursor).at as int),
            goal == launch_from(apps, names.deep_view(), i as int, history, cursor.at as int),
        decreases names.len() - i,
    {
        let name = &names[i];
        assert(names.deep_view()[i as int] == name@);
        let program = paths.apps.child(name.as_str()).child("CapCut.exe");
        let found = cursor.ask(Request::Stat(program.duplicate()))?;
        if found.meta().is_some() {
            let started = cursor.ask(Request::Launch(program))?;
            return match started.outcome() {
                Ok(_) => Ok(LaunchResult { success: true, error: None }),
                Err(e) => Ok(
                    LaunchResult {
                        success: false,
                        error: Some(concat2("Failed to launch: ", e.as_str())),
                    },
                ),
            };
        }
        i += 1;
    }
    Ok(
        LaunchResult {
            success: false,
            error: Some(String::from_str("CapCut.exe not found in any version")),
        },
    )
}

/// Without an install to be found, the launch fails at once and says so.
pub proof fn lemma_no_launch_without_install(history: Seq<ReplyView>)
    requires
        history.len() > 0,
        chosen_install(history[0].install()) is None,
    ensures
        launch_flow(history, 0).step() == StepView::Done(
            LaunchView::failed("CapCut installation not found"@),
        ),
{
}

/// Starts the application: the next request for the host, or how the launch
/// ended.
pub fn launch_capcut(history: &Vec<Reply>) -> (step: Step<LaunchResult>)
    ensures
        step.deep_view() == launch_flow(history.deep_view(), 0).step(),
{
    let mut cursor = Cursor::start(history);
    report(launch(&mut cursor))
}

/// What the check before a run found.
#[derive(Debug, Clone, PartialEq, Eq)]
pub struct PreCheckResult {
    /// The payload directory of a default install exists.
    pub capcut_found: bool,
    /// The application is running.
    pub capcut_running: bool,
    /// The payload directory of a default install, where the application data
    /// directory is known.
    pub apps_path: Option<Location>,
}

/// A `PreCheckResult` as plain sequences.
pub struct PreCheckView {
    pub capcut_found: bool,
    pub capcut_running: bool,
    pub apps_path: Option<Place>,
}

impl DeepView for PreCheckResult {
    type V = PreCheckView;

    open spec fn deep_view(&self) -> PreCheckView {
        PreCheckView {
            capcut_found: self.capcut_found,
            capcut_running: self.capcut_running,
            apps_path: self.apps_path.deep_view(),
        }
    }
}

/// The payload directory of a default install.
pub open spec fn default_apps(app_data: Seq<char>) -> Place {
    Place::at(app_data).child(default_root_dir()).child(payload_dir())
}

/// The end of the check: whether the application is running.
pub open spec fn precheck_running(
    found: bool,
    apps: Option<Place>,
    history: Seq<ReplyView>,
    at: int,
) -> Flow<PreCheckView> {
    match running_flow(history, at) {
        Flow::Ask(q) => Flow::Ask(q),
        Flow::Done { value, next } => Flow::Done {
            value: PreCheckView { capcut_found: found, capcut_running: value, apps_path: apps },
            next,
        },
    }
}

/// How the check before a run goes: the payload directory of a default
/// install is looked for, where the application data directory is known; then
/// the host is asked whether the application is running.
pub open spec fn precheck_flow(history: Seq<ReplyView>, at: int) -> Flow<PreCheckView> {
    match reply_at(history, at) {
        None => Flow::Ask(RequestView::LocalAppData),
        Some(env) => match env.text() {
            None => precheck_running(false, None, history, at + 1),
            Some(app_data) => match reply_at(history, at + 1) {
                None => Flow::Ask(RequestView::Stat(default_apps(app_data))),
                Some(seen) => precheck_running(
                    seen.meta() is Some,
                    Some(default_apps(app_data)),
                    history,
                    at + 2,
                ),
            },
        },
    }
}

fn precheck_from(cursor: &mut Cursor) -> (out: Result<PreCheckResult, Request>)
    ensures
        agrees(
            out,
            final(cursor).at,
            precheck_flow(old(cursor).history.deep_view(), old(cursor).at as int),
        ),
{
    let env = cursor.ask(Request::LocalAppData)?;
    let (found, apps) = match env.text() {
        None => (false, None),
        Some(app_data) => {
            let apps = Location::at(app_data.as_str()).child("CapCut").child("Apps");
            let seen = cursor.ask(Request::Stat(apps.duplicate()))?;
            (seen.meta().is_some(), Some(apps))
        },
    };
    let running = running_from(cursor)?;
    Ok(PreCheckResult { capcut_found: found, capcut_running: running, apps_path: apps })
}

/// Checks the machine before a run: the next request for the host, or what
/// was found.
pub fn perform_precheck(history: &Vec<Reply>) -> (step: Step<PreCheckResult>)
    ensures
        step.deep_view() == precheck_flow(history.deep_view(), 0).step(),
{
    let mut cursor = Cursor::start(history);
    report(precheck_from(&mut cursor))
}

} // verus!
