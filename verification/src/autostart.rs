//! Starting the guard with the user's session: a value under the run key of
//! the per-user registry hive.

use crate::protocol::{reply_at, Cursor, Reply, ReplyView, Request, RequestView, Step, StepView};
use crate::text::concat2;
use vstd::prelude::*;
use vstd::string::*;

verus! {

/// The key that lists what starts with the session.
pub open spec fn startup_key() -> Seq<char> {
    "SOFTWARE\\Microsoft\\Windows\\CurrentVersion\\Run"@
}

/// The name of the guard's value under that key.
pub open spec fn app_name() -> Seq<char> {
    "CCVersionGuard"@
}

/// How asking whether the guard starts with the session goes: it does where
/// its value can be read.
pub open spec fn autostart_flow(history: Seq<ReplyView>) -> StepView<bool> {
    match reply_at(history, 0) {
        None => StepView::Ask(RequestView::RegistryRead { key: startup_key(), name: app_name() }),
        Some(read) => StepView::Done(read.text() is Some),
    }
}

/// Whether the guard starts with the session: the next request for the host,
/// or the answer.
pub fn get_autostart_enabled(history: &Vec<Reply>) -> (step: Step<bool>)
    ensures
        step.deep_view() == autostart_flow(history.deep_view()),
{
    let mut cursor = Cursor::start(history);
    let request = Request::RegistryRead {
        key: String::from_str("SOFTWARE\\Microsoft\\Windows\\CurrentVersion\\Run"),
        name: String::from_str("CCVersionGuard"),
    };
    match cursor.ask(request) {
        Err(request) => Step::Ask(request),
        Ok(read) => Step::Done(read.text().is_some()),
    }
}

/// How switching the start with the session on goes: the path of the running
/// program is asked for, the key is opened, and the path is written as the
/// guard's value. The value is the message of the step that failed, if one
/// did.
pub open spec fn enable_flow(history: Seq<ReplyView>) -> StepView<Option<Seq<char>>> {
    match reply_at(history, 0) {
        None => StepView::Ask(RequestView::CurrentExe),
        Some(exe) => match exe.content() {
            Err(e) => StepView::Done(Some("Failed to get executable path: "@ + e)),
            Ok(path) => match reply_at(history, 1) {
                None => StepView::Ask(RequestView::RegistryOpen { key: startup_key() }),
                Some(opened) => match opened.outcome() {
                    Err(e) => StepView::Done(Some("Failed to open registry key: "@ + e)),
                    Ok(_) => match reply_at(history, 2) {
                        None => StepView::Ask(
                            RequestView::RegistryWrite {
                                key: startup_key(),
                                name: app_name(),
                                value: path,
                            },
                        ),
                        Some(written) => match written.outcome() {
                            Err(e) => StepView::Done(Some("Failed to set registry value: "@ + e)),
                            Ok(_) => StepView::Done(None),
                        },
                    },
                },
            },
        },
    }
}

/// How switching the start with the session off goes: the key is opened and
/// the guard's value is deleted; that there was none to delete is no failure.
pub open spec fn disable_flow(history: Seq<ReplyView>) -> StepView<Option<Seq<char>>> {
    match reply_at(history, 0) {
        None => StepView::Ask(RequestView::RegistryOpen { key: startup_key() }),
        Some(opened) => match opened.outcome() {
            Err(e) => StepView::Done(Some("Failed to open registry key: "@ + e)),
            Ok(_) => match reply_at(history, 1) {
                None => StepView::Ask(
                    RequestView::RegistryDelete { key: startup_key(), name: app_name() },
                ),
                Some(_) => StepView::Done(None),
            },
        },
    }
}

fn enable(cursor: &mut Cursor) -> (out: Result<Option<String>, Request>)
    requires
        old(cursor).at == 0,
    ensures
        match enable_flow(old(cursor).history.deep_view()) {
            StepView::Ask(q) => out is Err && out->Err_0.deep_view() == q,
            StepView::Done(v) => out is Ok && out->Ok_0.deep_view() == v,
        },
{
    let exe = cursor.ask(Request::CurrentExe)?;
    let path = match exe.content() {
        Ok(path) => path,
        Err(e) => {
            return Ok(Some(concat2("Failed to get executable path: ", e.as_str())));
        },
    };
    let opened = cursor.ask(
        Request::RegistryOpen {
            key: String::from_str("SOFTWARE\\Microsoft\\Windows\\CurrentVersion\\Run"),
        },
    )?;
    if let Err(e) = opened.outcome() {
        return Ok(Some(concat2("Failed to open registry key: ", e.as_str())));
    }
    let written = cursor.ask(
        Request::RegistryWrite {
            key: String::from_str("SOFTWARE\\Microsoft\\Windows\\CurrentVersion\\Run"),
            name: String::from_str("CCVersionGuard"),
            value: path.clone(),
        },
    )?;
    match written.outcome() {
        Err(e) => Ok(Some(concat2("Failed to set registry value: ", e.as_str()))),
        Ok(_) => Ok(None),
    }
}

fn disable(cursor: &mut Cursor) -> (out: Result<Option<String>, Request>)
    requires
        old(cursor).at == 0,
    ensures
        match disable_flow(old(cursor).history.deep_view()) {
            StepView::Ask(q) => out is Err && out->Err_0.deep_view() == q,
            StepView::Done(v) => out is Ok && out->Ok_0.deep_view() == v,
        },
{
    let opened = cursor.ask(
        Request::RegistryOpen {
            key: String::from_str("SOFTWARE\\Microsoft\\Windows\\CurrentVersion\\Run"),
        },
    )?;
    if let Err(e) = opened.outcome() {
        return Ok(Some(concat2("Failed to open registry key: ", e.as_str())));
    }
    let _ = cursor.ask(
        Request::RegistryDelete {
            key: String::from_str("SOFTWARE\\Microsoft\\Windows\\CurrentVersion\\Run"),
            name: String::from_str("CCVersionGuard"),
        },
    )?;
    Ok(None)
}

/// Switches the start with the session on or off: the next request for the
/// host, or the message of the step that failed, if one did.
pub fn set_autostart_enabled(enabled: bool, history: &Vec<Reply>) -> (step: Step<Option<String>>)
    ensures
        step.deep_view() == if enabled {
            enable_flow(history.deep_view())
        } else {
            disable_flow(history.deep_view())
        },
{
    let mut cursor = Cursor::start(history);
    let out = if enabled {
        enable(&mut cursor)
    } else {
        disable(&mut cursor)
    };
    match out {
        Ok(v) => Step::Done(v),
        Err(q) => Step::Ask(q),
    }
}

} // verus!
