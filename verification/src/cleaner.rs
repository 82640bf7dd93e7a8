//! The application's cache directories: how much they hold, and clearing
//! them out.

use crate::backup::{recorded_size, walked_size};
use crate::host::{total_size, Location, Place};
use crate::paths::default_root_dir;
use crate::protector::{log, log_line};
use crate::protocol::{
    apply_two, reply_at, report, Cursor, Flow, FsOp, OpView, Reply, ReplyView, Request,
    RequestView, Step, StepView,
};
use crate::text::concat2;
use vstd::prelude::*;
use vstd::string::*;

verus! {

/// The names of the cache directories, under the user data of the install.
pub open spec fn cache_names() -> Seq<Seq<char>> {
    seq!["Cache"@, "Shadow_Cache"@, "Smart_Crop"@]
}

/// The cache directories of the install at `root`.
pub open spec fn cache_places(root: Place) -> Seq<Place> {
    Seq::new(3, |i: int| root.child("User Data"@).child(cache_names()[i]))
}

/// The cache directories of the install at `capcut_root`.
pub fn get_cache_dirs(capcut_root: &Location) -> (out: Vec<Location>)
    ensures
        out.deep_view() == cache_places(capcut_root.deep_view()),
{
    let user_data = capcut_root.child("User Data");
    let mut out: Vec<Location> = Vec::new();
    out.push(user_data.child("Cache"));
    out.push(user_data.child("Shadow_Cache"));
    out.push(user_data.child("Smart_Crop"));
    proof {
        assert(out.deep_view() =~= cache_places(capcut_root.deep_view()));
    }
    out
}

/// How clearing the caches ended: the bytes that were freed, and what was
/// done, line by line.
#[derive(Debug, Clone, PartialEq, Eq)]
pub struct CacheCleanResult {
    pub success: bool,
    pub cleaned_bytes: u128,
    pub logs: Vec<String>,
}

/// A `CacheCleanResult` as plain sequences.
pub struct CacheCleanView {
    pub success: bool,
    pub cleaned_bytes: u128,
    pub logs: Seq<Seq<char>>,
}

impl DeepView for CacheCleanResult {
    type V = CacheCleanView;

    open spec fn deep_view(&self) -> CacheCleanView {
        CacheCleanView {
            success: self.success,
            cleaned_bytes: self.cleaned_bytes,
            logs: self.logs.deep_view(),
        }
    }
}

/// The install root that the cache functions look under.
pub open spec fn cache_root(app_data: Seq<char>) -> Place {
    Place::at(app_data).child(default_root_dir())
}

/// What measuring the cache directories from the `i`-th on adds to `sum`,
/// read from position `at` of the history: each directory that exists is
/// walked, and the bytes in its regular files are added.
pub open spec fn measure_from(
    dirs: Seq<Place>,
    i: int,
    sum: int,
    history: Seq<ReplyView>,
    at: int,
) -> Flow<int>
    decreases dirs.len() - i,
{
    if i < 0 || i >= dirs.len() {
        Flow::Done { value: sum, next: at }
    } else {
        match reply_at(history, at) {
            None => Flow::Ask(RequestView::Stat(dirs[i])),
            Some(seen) => if seen.meta() is None {
                measure_from(dirs, i + 1, sum, history, at + 1)
            } else {
                match reply_at(history, at + 1) {
                    None => Flow::Ask(RequestView::Walk(dirs[i])),
                    Some(walked) => measure_from(
                        dirs,
                        i + 1,
                        sum + recorded_size(total_size(walked.entries())),
                        history,
                        at + 2,
                    ),
                }
            },
        }
    }
}

/// How measuring the caches goes: nothing where the application data
/// directory is unknown; else the bytes in the cache directories that exist.
pub open spec fn cache_size_flow(history: Seq<ReplyView>) -> Flow<int> {
    match reply_at(history, 0) {
        None => Flow::Ask(RequestView::LocalAppData),
        Some(env) => match env.text() {
            None => Flow::Done { value: 0, next: 1 },
            Some(app_data) => measure_from(cache_places(cache_root(app_data)), 0, 0, history, 1),
        },
    }
}

/// The bytes the caches hold: the next request for the host, or the number.
pub fn calculate_cache_size(history: &Vec<Reply>) -> (step: Step<u128>)
    ensures
        match cache_size_flow(history.deep_view()) {
            Flow::Ask(q) => step.deep_view() == StepView::<u128>::Ask(q),
            Flow::Done { value, next } => step.deep_view() == StepView::<u128>::Done(value as u128)
                && 0 <= value <= u128::MAX,
        },
{
    let mut cursor = Cursor::start(history);
    report(cache_size_from(&mut cursor))
}

fn cache_size_from(cursor: &mut Cursor) -> (out: Result<u128, Request>)
    requires
        old(cursor).at == 0,
    ensures
        match cache_size_flow(old(cursor).history.deep_view()) {
            Flow::Ask(q) => out is Err && out->Err_0.deep_view() == q,
            Flow::Done { value, next } => out == Ok::<u128, Request>(value as u128) && 0 <= value
                <= u128::MAX,
        },
{
    let ghost history = cursor.history.deep_view();
    let ghost goal = cache_size_flow(history);
    let env = cursor.ask(Request::LocalAppData)?;
    let app_data = match env.text() {
        Some(text) => text,
        None => {
            return Ok(0);
        },
    };
    let dirs = get_cache_dirs(&Location::at(app_data.as_str()).child("CapCut"));
    let ghost places = dirs.deep_view();
    let mut sum: u128 = 0;
    let mut i: usize = 0;
    while i < dirs.len()
        invariant
            i <= dirs.len() == 3,
            places == dirs.deep_view(),
            history == cursor.history.deep_view(),
            cursor.history == old(cursor).history,
            goal == cache_size_flow(history),
            goal == measure_from(places, i as int, sum as int, history, cursor.at as int),
            sum <= i * u64::MAX,
        decreases dirs.len() - i,
    {
        let dir = &dirs[i];
        assert(places[i as int] == dir.deep_view());
        let seen = cursor.ask(Request::Stat(dir.duplicate()))?;
        if seen.meta().is_some() {
            let walked = cursor.ask(Request::Walk(dir.duplicate()))?;
            sum = sum + walked_size(walked) as u128;
        }
        i += 1;
    }
    Ok(sum)
}

/// The log after one cache directory has been dealt with, and the bytes
/// freed so far.
pub struct Swept {
    pub logs: Seq<Seq<char>>,
    pub freed: int,
}

/// How clearing the cache directories from the `i`-th on goes, read from
/// position `at` of the history. A directory that does not exist is passed
/// over. One that does is walked for its size, the size is written out in
/// megabytes for the log, and the directory is removed, read-only or not;
/// where that fails the log says so and the bytes do not count as freed. At
/// the end the bytes freed are written out for the last line of the log.
pub open spec fn sweep_from(
    dirs: Seq<Place>,
    names: Seq<Seq<char>>,
    i: int,
    so_far: Swept,
    history: Seq<ReplyView>,
    at: int,
) -> Flow<CacheCleanView>
    decreases dirs.len() - i,
{
    if i < 0 || i >= dirs.len() {
        match reply_at(history, at) {
            None => Flow::Ask(RequestView::Megabytes(so_far.freed as u128)),
            Some(written) => Flow::Done {
                value: CacheCleanView {
                    success: true,
                    cleaned_bytes: so_far.freed as u128,
                    logs: so_far.logs.push(
                        "[OK] Cleaned "@ + written_out(written) + " MB of cache"@,
                    ),
                },
                next: at + 1,
            },
        }
    } else {
        match reply_at(history, at) {
            None => Flow::Ask(RequestView::Stat(dirs[i])),
            Some(seen) => if seen.meta() is None {
                sweep_from(dirs, names, i + 1, so_far, history, at + 1)
            } else {
                match reply_at(history, at + 1) {
                    None => Flow::Ask(RequestView::Walk(dirs[i])),
                    Some(walked) => {
                        let size = recorded_size(total_size(walked.entries()));
                        match reply_at(history, at + 2) {
                            None => Flow::Ask(RequestView::Megabytes(size as u128)),
                            Some(written) => {
                                let logs = so_far.logs.push(
                                    "Cleaning: "@ + names[i] + " ("@ + written_out(written)
                                        + " MB)"@,
                                );
                                match reply_at(history, at + 3) {
                                    None => Flow::Ask(
                                        RequestView::Apply(
                                            seq![
                                                OpView::ClearReadonly(dirs[i]),
                                                OpView::RemoveDirAll(dirs[i]),
                                            ],
                                        ),
                                    ),
                                    Some(removed) => match removed.outcome() {
                                        Err(e) => sweep_from(
                                            dirs,
                                            names,
                                            i + 1,
                                            Swept {
                                                logs: logs.push(
                                                    "[!] Failed to clean "@ + names[i] + ": "@ + e,
                                                ),
                                                freed: so_far.freed,
                                            },
                                            history,
                                            at + 4,
                                        ),
                                        Ok(_) => sweep_from(
                                            dirs,
                                            names,
                                            i + 1,
                                            Swept { logs, freed: so_far.freed + size },
                                            history,
                                            at + 4,
                                        ),
                                    },
                                }
                            },
                        }
                    },
                }
            },
        }
    }
}

/// The number the host wrote out; empty where it gave none.
pub open spec fn written_out(reply: ReplyView) -> Seq<char> {
    match reply.text() {
        Some(text) => text,
        None => Seq::empty(),
    }
}

/// How clearing the caches goes, read from position `at` of the history. It
/// fails where the application data directory is unknown.
pub open spec fn clean_flow(history: Seq<ReplyView>, at: int) -> Flow<CacheCleanView> {
    match reply_at(history, at) {
        None => Flow::Ask(RequestView::LocalAppData),
        Some(env) => match env.text() {
            None => Flow::Done {
                value: CacheCleanView {
                    success: false,
                    cleaned_bytes: 0,
                    logs: seq!["Failed to get LOCALAPPDATA"@],
                },
                next: at + 1,
            },
            Some(app_data) => sweep_from(
                cache_places(cache_root(app_data)),
                cache_names(),
                0,
                Swept { logs: Seq::empty(), freed: 0 },
                history,
                at + 1,
            ),
        },
    }
}

fn written_text(reply: &Reply) -> (out: String)
    ensures
        out@ == written_out(reply.deep_view()),
{
    match reply.text() {
        Some(text) => text.clone(),
        None => String::new(),
    }
}

/// Clears the caches, reading the history from the cursor on.
pub fn clean_from(cursor: &mut Cursor) -> (out: Result<CacheCleanResult, Request>)
    ensures
        final(cursor).history == old(cursor).history,
        match clean_flow(old(cursor).history.deep_view(), old(cursor).at as int) {
            Flow::Ask(q) => out is Err && out->Err_0.deep_view() == q,
            Flow::Done { value, next } => out is Ok && out->Ok_0.deep_view() == value
                && final(cursor).at == next,
        },
{
    let ghost history = cursor.history.deep_view();
    let ghost goal = clean_flow(history, cursor.at as int);
    let mut logs: Vec<String> = Vec::new();
    proof {
        assert(logs.deep_view() =~= Seq::<Seq<char>>::empty());
    }
    let env = cursor.ask(Request::LocalAppData)?;
    let app_data = match env.text() {
        Some(text) => text,
        None => {
            log(&mut logs, "Failed to get LOCALAPPDATA");
            assert(logs.deep_view() =~= seq!["Failed to get LOCALAPPDATA"@]);
            return Ok(CacheCleanResult { success: false, cleaned_bytes: 0, logs });
        },
    };
    let dirs = get_cache_dirs(&Location::at(app_data.as_str()).child("CapCut"));
    let mut names: Vec<String> = Vec::new();
    names.push(String::from_str("Cache"));
    names.push(String::from_str("Shadow_Cache"));
    names.push(String::from_str("Smart_Crop"));
    proof {
        assert(names.deep_view() =~= cache_names());
    }
    let ghost places = dirs.deep_view();
    let mut freed: u128 = 0;
    let mut i: usize = 0;
    while i < dirs.len()
        invariant
            i <= dirs.len() == 3,
            places == dirs.deep_view(),
            names.len() == 3,
            names.deep_view() == cache_names(),
            history == cursor.history.deep_view(),
            cursor.history == old(cursor).history,
            goal == clean_flow(old(cursor).history.deep_view(), old(cursor).at as int),
            goal == sweep_from(
                places,
                cache_names(),
                i as int,
                Swept { logs: logs.deep_view(), freed: freed as int },
                history,
                cursor.at as int,
            ),
            freed <= i * u64::MAX,
        decreases dirs.len() - i,
    {
        let dir = &dirs[i];
        let name = &names[i];
        assert(places[i as int] == dir.deep_view());
        assert(cache_names()[i as int] == name@) by {
            assert(names.deep_view()[i as int] == names@[i as int].deep_view());
        }
        let seen = cursor.ask(Request::Stat(dir.duplicate()))?;
        if seen.meta().is_some() {
            let walked = cursor.ask(Request::Walk(dir.duplicate()))?;
            let size = walked_size(walked);
            let written = cursor.ask(Request::Megabytes(size as u128))?;
            let mut line = concat2("Cleaning: ", name.as_str());
            line.append(" (");
            line.append(written_text(written).as_str());
            line.append(" MB)");
            log_line(&mut logs, line);
            let removed = cursor.ask(
                apply_two(FsOp::ClearReadonly(dir.duplicate()), FsOp::RemoveDirAll(dir.duplicate())),
            )?;
            match removed.outcome() {
                Err(e) => {
                    let mut line = concat2("[!] Failed to clean ", name.as_str());
                    line.append(": ");
                    line.append(e.as_str());
                    log_line(&mut logs, line);
                },
                Ok(_) => {
                    freed = freed + size as u128;
                },
            }
        }
        i += 1;
    }
    let written = cursor.ask(Request::Megabytes(freed))?;
    let mut line = concat2("[OK] Cleaned ", written_text(written).as_str());
    line.append(" MB of cache");
    log_line(&mut logs, line);
    Ok(CacheCleanResult { success: true, cleaned_bytes: freed, logs })
}

/// Clears the caches: the next request for the host, or how it ended.
pub fn clean_cache(history: &Vec<Reply>) -> (step: Step<CacheCleanResult>)
    ensures
        step.deep_view() == clean_flow(history.deep_view(), 0).step(),
{
    let mut cursor = Cursor::start(history);
    report(clean_from(&mut cursor))
}

} // verus!
