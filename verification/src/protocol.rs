//! The dialogue between the guard and its host. The guard never touches the
//! machine: an operation is a function of the replies the host has given so
//! far, and returns the next request or the finished result. The host performs
//! each request, appends the reply to the history, and calls again.

use crate::host::{lemma_deep_view_push, EntryView, FileMeta, Listing, Location, Place};
use crate::paths::{CustomProbe, CustomProbeView, InstallProbe, InstallProbeView, ProbePlan, ProbePlanView};
use crate::records::{BackupMetadata, BackupRecord, FaultView, MetadataFault};
use vstd::prelude::*;
use vstd::string::*;

verus! {

/// One change to the disk.
#[derive(Debug, Clone, PartialEq, Eq)]
pub enum FsOp {
    /// Create the directory and every missing directory above it.
    CreateDirAll(Location),
    /// Create every missing directory above the place, where it has a parent.
    CreateParentDirs(Location),
    /// Copy the file at `from` to `to`.
    CopyFile { from: Location, to: Location },
    /// Write `text` as the whole content of the file.
    WriteText { to: Location, text: String },
    /// Write the record, as structured text, as the whole content of the file.
    WriteRecord { to: Location, record: BackupMetadata },
    /// Remove the file.
    RemoveFile(Location),
    /// Remove the directory and all that lies under it.
    RemoveDirAll(Location),
    /// Take the read-only attribute from the place and from all that lies
    /// under it. Quiet about what it cannot change: it never fails.
    ClearReadonly(Location),
    /// Give the file the read-only attribute.
    MarkReadonly(Location),
}

/// An `FsOp` as plain sequences.
pub enum OpView {
    CreateDirAll(Place),
    CreateParentDirs(Place),
    CopyFile { from: Place, to: Place },
    WriteText { to: Place, text: Seq<char> },
    WriteRecord { to: Place, record: BackupRecord },
    RemoveFile(Place),
    RemoveDirAll(Place),
    ClearReadonly(Place),
    MarkReadonly(Place),
}

impl DeepView for FsOp {
    type V = OpView;

    open spec fn deep_view(&self) -> OpView {
        match self {
            FsOp::CreateDirAll(p) => OpView::CreateDirAll(p.deep_view()),
            FsOp::CreateParentDirs(p) => OpView::CreateParentDirs(p.deep_view()),
            FsOp::CopyFile { from, to } => OpView::CopyFile {
                from: from.deep_view(),
                to: to.deep_view(),
            },
            FsOp::WriteText { to, text } => OpView::WriteText { to: to.deep_view(), text: text@ },
            FsOp::WriteRecord { to, record } => OpView::WriteRecord {
                to: to.deep_view(),
                record: record.deep_view(),
            },
            FsOp::RemoveFile(p) => OpView::RemoveFile(p.deep_view()),
            FsOp::RemoveDirAll(p) => OpView::RemoveDirAll(p.deep_view()),
            FsOp::ClearReadonly(p) => OpView::ClearReadonly(p.deep_view()),
            FsOp::MarkReadonly(p) => OpView::MarkReadonly(p.deep_view()),
        }
    }
}

/// What the guard asks of its host.
#[derive(Debug, Clone, PartialEq, Eq)]
pub enum Request {
    /// The per-user application data directory, from the environment.
    LocalAppData,
    /// The time, in seconds since the epoch.
    Clock,
    /// The final name of the place.
    LeafName(Location),
    /// The candidates for the install, probed as the plan says.
    ProbeInstall(ProbePlan),
    /// What there is at a path the user named, and whether `payload_dir`
    /// exists under it.
    ProbeCustom { path: String, payload_dir: String },
    /// What there is at the place.
    Stat(Location),
    /// The whole tree under the place, the place itself first.
    Walk(Location),
    /// The entries directly in the directory.
    ListDir(Location),
    /// The content of the file, as text.
    ReadText(Location),
    /// The record held in the file.
    ReadRecord(Location),
    /// The changes, in order, ending at the first that fails.
    Apply(Vec<FsOp>),
    /// A warning for the operator.
    Warn(String),
    /// Whether a process whose name contains `name` is running.
    ProcessRunning(String),
    /// Start the program at the place.
    Launch(Location),
    /// The number of bytes written out in megabytes, with one decimal.
    Megabytes(u128),
    /// The path of the running program.
    CurrentExe,
    /// The text of a value under a key of the per-user registry hive.
    RegistryRead { key: String, name: String },
    /// Whether a key of the per-user registry hive can be opened for writing.
    RegistryOpen { key: String },
    /// Set a value under a key of the per-user registry hive.
    RegistryWrite { key: String, name: String, value: String },
    /// Delete a value under a key of the per-user registry hive.
    RegistryDelete { key: String, name: String },
}

/// A `Request` as plain sequences.
pub enum RequestView {
    LocalAppData,
    Clock,
    LeafName(Place),
    ProbeInstall(ProbePlanView),
    ProbeCustom { path: Seq<char>, payload_dir: Seq<char> },
    Stat(Place),
    Walk(Place),
    ListDir(Place),
    ReadText(Place),
    ReadRecord(Place),
    Apply(Seq<OpView>),
    Warn(Seq<char>),
    ProcessRunning(Seq<char>),
    Launch(Place),
    Megabytes(u128),
    CurrentExe,
    RegistryRead { key: Seq<char>, name: Seq<char> },
    RegistryOpen { key: Seq<char> },
    RegistryWrite { key: Seq<char>, name: Seq<char>, value: Seq<char> },
    RegistryDelete { key: Seq<char>, name: Seq<char> },
}

impl DeepView for Request {
    type V = RequestView;

    open spec fn deep_view(&self) -> RequestView {
        match self {
            Request::LocalAppData => RequestView::LocalAppData,
            Request::Clock => RequestView::Clock,
            Request::LeafName(p) => RequestView::LeafName(p.deep_view()),
            Request::ProbeInstall(plan) => RequestView::ProbeInstall(plan.deep_view()),
            Request::ProbeCustom { path, payload_dir } => RequestView::ProbeCustom {
                path: path@,
                payload_dir: payload_dir@,
            },
            Request::Stat(p) => RequestView::Stat(p.deep_view()),
            Request::Walk(p) => RequestView::Walk(p.deep_view()),
            Request::ListDir(p) => RequestView::ListDir(p.deep_view()),
            Request::ReadText(p) => RequestView::ReadText(p.deep_view()),
            Request::ReadRecord(p) => RequestView::ReadRecord(p.deep_view()),
            Request::Apply(ops) => RequestView::Apply(ops.deep_view()),
            Request::Warn(text) => RequestView::Warn(text@),
            Request::ProcessRunning(name) => RequestView::ProcessRunning(name@),
            Request::Launch(p) => RequestView::Launch(p.deep_view()),
            Request::Megabytes(n) => RequestView::Megabytes(*n),
            Request::CurrentExe => RequestView::CurrentExe,
            Request::RegistryRead { key, name } => RequestView::RegistryRead {
                key: key@,
                name: name@,
            },
            Request::RegistryOpen { key } => RequestView::RegistryOpen { key: key@ },
            Request::RegistryWrite { key, name, value } => RequestView::RegistryWrite {
                key: key@,
                name: name@,
                value: value@,
            },
            Request::RegistryDelete { key, name } => RequestView::RegistryDelete {
                key: key@,
                name: name@,
            },
        }
    }
}

/// What the host answers.
#[derive(Debug, PartialEq, Eq)]
pub enum Reply {
    /// A text, where there is one: a variable's value, a name, a number
    /// written out.
    Text(Option<String>),
    /// The time, in seconds since the epoch.
    Time(u64),
    /// What was found of the install.
    Install(InstallProbe),
    /// What was found at the path the user named.
    Custom(CustomProbe),
    /// What there is at a place; `None` where nothing can be seen there.
    Meta(Option<FileMeta>),
    /// The entries of a directory or a tree.
    Entries(Listing),
    /// The text of a file, or the host's message why it could not be read.
    Content(Result<String, String>),
    /// The record in a file, or why it could not be had.
    Record(Result<BackupMetadata, MetadataFault>),
    /// Whether what was asked was done; the host's message where it was not.
    Outcome(Result<(), String>),
    /// Yes or no.
    Flag(bool),
}

/// A `Reply` as plain sequences.
pub enum ReplyView {
    Text(Option<Seq<char>>),
    Time(u64),
    Install(InstallProbeView),
    Custom(CustomProbeView),
    Meta(Option<FileMeta>),
    Entries(Seq<EntryView>),
    Content(Result<Seq<char>, Seq<char>>),
    Record(Result<BackupRecord, FaultView>),
    Outcome(Result<(), Seq<char>>),
    Flag(bool),
}

impl DeepView for Reply {
    type V = ReplyView;

    open spec fn deep_view(&self) -> ReplyView {
        match self {
            Reply::Text(t) => ReplyView::Text(t.deep_view()),
            Reply::Time(n) => ReplyView::Time(*n),
            Reply::Install(p) => ReplyView::Install(p.deep_view()),
            Reply::Custom(p) => ReplyView::Custom(p.deep_view()),
            Reply::Meta(m) => ReplyView::Meta(*m),
            Reply::Entries(l) => ReplyView::Entries(l.deep_view()),
            Reply::Content(r) => ReplyView::Content(
                match r {
                    Ok(text) => Ok(text@),
                    Err(e) => Err(e@),
                },
            ),
            Reply::Record(r) => ReplyView::Record(
                match r {
                    Ok(record) => Ok(record.deep_view()),
                    Err(fault) => Err(fault.deep_view()),
                },
            ),
            Reply::Outcome(r) => ReplyView::Outcome(
                match r {
                    Ok(_) => Ok(()),
                    Err(e) => Err(e@),
                },
            ),
            Reply::Flag(b) => ReplyView::Flag(*b),
        }
    }
}

/// The message that stands for a reply of a kind that was not asked for.
pub open spec fn unexpected() -> Seq<char> {
    "unexpected reply"@
}

impl ReplyView {
    /// The text in the reply; none in a reply of another kind.
    pub open spec fn text(self) -> Option<Seq<char>> {
        match self {
            ReplyView::Text(t) => t,
            _ => None,
        }
    }

    /// The time in the reply; zero in a reply of another kind.
    pub open spec fn time(self) -> u64 {
        match self {
            ReplyView::Time(n) => n,
            _ => 0,
        }
    }

    /// What was found of the install; nothing in a reply of another kind.
    pub open spec fn install(self) -> InstallProbeView {
        match self {
            ReplyView::Install(p) => p,
            _ => InstallProbeView { registry: Seq::empty(), default_root: None },
        }
    }

    /// What was found at the user's path; nothing in a reply of another kind.
    pub open spec fn custom(self) -> CustomProbeView {
        match self {
            ReplyView::Custom(p) => p,
            _ => CustomProbeView { exists: false, apps_exists: false, leaf: None, parent: None },
        }
    }

    /// What there is at the place; nothing in a reply of another kind.
    pub open spec fn meta(self) -> Option<FileMeta> {
        match self {
            ReplyView::Meta(m) => m,
            _ => None,
        }
    }

    /// The entries in the reply; none in a reply of another kind.
    pub open spec fn entries(self) -> Seq<EntryView> {
        match self {
            ReplyView::Entries(l) => l,
            _ => Seq::empty(),
        }
    }

    /// The text of the file; a reply of another kind counts as unreadable.
    pub open spec fn content(self) -> Result<Seq<char>, Seq<char>> {
        match self {
            ReplyView::Content(r) => r,
            _ => Err(unexpected()),
        }
    }

    /// The record in the file; a reply of another kind counts as unreadable.
    pub open spec fn record(self) -> Result<BackupRecord, FaultView> {
        match self {
            ReplyView::Record(r) => r,
            _ => Err(FaultView::Unreadable(unexpected())),
        }
    }

    /// Whether the request was carried out; a reply of another kind counts as
    /// a failure.
    pub open spec fn outcome(self) -> Result<(), Seq<char>> {
        match self {
            ReplyView::Outcome(r) => r,
            _ => Err(unexpected()),
        }
    }

    /// The answer; no in a reply of another kind.
    pub open spec fn flag(self) -> bool {
        match self {
            ReplyView::Flag(b) => b,
            _ => false,
        }
    }
}

impl Reply {
    /// The text in the reply; none in a reply of another kind.
    pub fn text(&self) -> (out: Option<&String>)
        ensures
            out.deep_view() == self.deep_view().text(),
    {
        match self {
            Reply::Text(Some(t)) => Some(t),
            _ => None,
        }
    }

    /// The time in the reply; zero in a reply of another kind.
    pub fn time(&self) -> (out: u64)
        ensures
            out == self.deep_view().time(),
    {
        match self {
            Reply::Time(n) => *n,
            _ => 0,
        }
    }

    /// What was found of the install; `None` in a reply of another kind.
    pub fn install(&self) -> (out: Option<&InstallProbe>)
        ensures
            match out {
                Some(p) => p.deep_view() == self.deep_view().install(),
                None => self.deep_view() !is Install,
            },
    {
        match self {
            Reply::Install(p) => Some(p),
            _ => None,
        }
    }

    /// What was found at the user's path; `None` in a reply of another kind.
    pub fn custom(&self) -> (out: Option<&CustomProbe>)
        ensures
            match out {
                Some(p) => p.deep_view() == self.deep_view().custom(),
                None => self.deep_view() !is Custom,
            },
    {
        match self {
            Reply::Custom(p) => Some(p),
            _ => None,
        }
    }

    /// What there is at the place; nothing in a reply of another kind.
    pub fn meta(&self) -> (out: Option<FileMeta>)
        ensures
            out == self.deep_view().meta(),
    {
        match self {
            Reply::Meta(m) => *m,
            _ => None,
        }
    }

    /// The entries in the reply; `None` in a reply of another kind.
    pub fn entries(&self) -> (out: Option<&Listing>)
        ensures
            match out {
                Some(l) => l.deep_view() == self.deep_view().entries(),
                None => self.deep_view().entries() == Seq::<EntryView>::empty(),
            },
    {
        match self {
            Reply::Entries(l) => Some(l),
            _ => None,
        }
    }

    /// The text of the file; a reply of another kind counts as unreadable.
    pub fn content(&self) -> (out: Result<&String, String>)
        ensures
            match out {
                Ok(text) => self.deep_view().content() == Ok::<Seq<char>, Seq<char>>(text@),
                Err(e) => self.deep_view().content() == Err::<Seq<char>, Seq<char>>(e@),
            },
    {
        match self {
            Reply::Content(Ok(text)) => Ok(text),
            Reply::Content(Err(e)) => Err(e.clone()),
            _ => Err(String::from_str("unexpected reply")),
        }
    }

    /// The record in the file; a reply of another kind counts as unreadable.
    pub fn record(&self) -> (out: Result<&BackupMetadata, MetadataFault>)
        ensures
            match out {
                Ok(r) => self.deep_view().record() == Ok::<BackupRecord, FaultView>(r.deep_view()),
                Err(f) => self.deep_view().record() == Err::<BackupRecord, FaultView>(
                    f.deep_view(),
                ),
            },
    {
        match self {
            Reply::Record(Ok(r)) => Ok(r),
            Reply::Record(Err(f)) => Err(f.duplicate()),
            _ => Err(MetadataFault::Unreadable(String::from_str("unexpected reply"))),
        }
    }

    /// Whether the request was carried out; a reply of another kind counts as
    /// a failure.
    pub fn outcome(&self) -> (out: Result<(), String>)
        ensures
            match out {
                Ok(_) => self.deep_view().outcome() == Ok::<(), Seq<char>>(()),
                Err(e) => self.deep_view().outcome() == Err::<(), Seq<char>>(e@),
            },
    {
        match self {
            Reply::Outcome(Ok(_)) => Ok(()),
            Reply::Outcome(Err(e)) => Err(e.clone()),
            _ => Err(String::from_str("unexpected reply")),
        }
    }

    /// The answer; no in a reply of another kind.
    pub fn flag(&self) -> (out: bool)
        ensures
            out == self.deep_view().flag(),
    {
        match self {
            Reply::Flag(b) => *b,
            _ => false,
        }
    }
}

/// A request for a single change.
pub fn apply_one(op: FsOp) -> (out: Request)
    ensures
        out.deep_view() == RequestView::Apply(seq![op.deep_view()]),
{
    let mut ops: Vec<FsOp> = Vec::new();
    let ghost before = ops;
    ops.push(op);
    proof {
        lemma_deep_view_push(before, ops, op);
        assert(ops.deep_view() =~= seq![op.deep_view()]);
    }
    Request::Apply(ops)
}

/// A request for two changes in a row.
pub fn apply_two(first: FsOp, second: FsOp) -> (out: Request)
    ensures
        out.deep_view() == RequestView::Apply(seq![first.deep_view(), second.deep_view()]),
{
    let mut ops: Vec<FsOp> = Vec::new();
    let ghost before = ops;
    ops.push(first);
    let ghost middle = ops;
    ops.push(second);
    proof {
        lemma_deep_view_push(before, middle, first);
        lemma_deep_view_push(middle, ops, second);
        assert(ops.deep_view() =~= seq![first.deep_view(), second.deep_view()]);
    }
    Request::Apply(ops)
}

/// Where an operation stands: it needs a request answered, or it is done.
#[derive(Debug, Clone, PartialEq, Eq)]
pub enum Step<T> {
    Ask(Request),
    Done(T),
}

/// A `Step` as plain values.
pub enum StepView<V> {
    Ask(RequestView),
    Done(V),
}

impl<T: DeepView> DeepView for Step<T> {
    type V = StepView<T::V>;

    open spec fn deep_view(&self) -> StepView<T::V> {
        match self {
            Step::Ask(q) => StepView::Ask(q.deep_view()),
            Step::Done(v) => StepView::Done(v.deep_view()),
        }
    }
}

/// Where a part of an operation stands after reading the history from some
/// position on: it needs a request answered that the history does not hold,
/// or it is done and the history has been read up to `next`.
pub enum Flow<V> {
    Ask(RequestView),
    Done { value: V, next: int },
}

impl<V> Flow<V> {
    /// The step that an operation reports when this is the whole of it.
    pub open spec fn step(self) -> StepView<V> {
        match self {
            Flow::Ask(q) => StepView::Ask(q),
            Flow::Done { value, next } => StepView::Done(value),
        }
    }
}

/// The reply at position `at` of the history, where it holds one.
pub open spec fn reply_at(history: Seq<ReplyView>, at: int) -> Option<ReplyView> {
    if 0 <= at < history.len() {
        Some(history[at])
    } else {
        None
    }
}

/// A reader of the history: the replies, and how many of them have been read.
pub struct Cursor<'a> {
    pub history: &'a Vec<Reply>,
    pub at: usize,
}

impl<'a> Cursor<'a> {
    /// A reader at the start of `history`.
    pub fn start(history: &'a Vec<Reply>) -> (out: Cursor<'a>)
        ensures
            out.history == history,
            out.at == 0,
    {
        Cursor { history, at: 0 }
    }

    /// The reply to `request`: the next one of the history, which is then
    /// read; or, where the history has ended, the request itself, for the host
    /// to answer.
    pub fn ask(&mut self, request: Request) -> (out: Result<&'a Reply, Request>)
        ensures
            final(self).history == old(self).history,
            match reply_at(old(self).history.deep_view(), old(self).at as int) {
                Some(reply) => out is Ok && out->Ok_0.deep_view() == reply && final(self).at
                    == old(self).at + 1,
                None => out == Err::<&'a Reply, Request>(request) && final(self).at == old(self).at,
            },
    {
        if self.at < self.history.len() {
            let reply = &self.history[self.at];
            self.at = self.at + 1;
            Ok(reply)
        } else {
            Err(request)
        }
    }
}

/// Whether what a part of an operation returned, and where it left the
/// reader, is what `flow` says.
pub open spec fn agrees<T: DeepView>(out: Result<T, Request>, at: usize, flow: Flow<T::V>) -> bool {
    match flow {
        Flow::Ask(q) => out is Err && out->Err_0.deep_view() == q,
        Flow::Done { value, next } => out is Ok && out->Ok_0.deep_view() == value && at == next,
    }
}

/// The step that a finished or waiting operation reports to the host.
pub fn report<T: DeepView>(out: Result<T, Request>) -> (step: Step<T>)
    ensures
        match out {
            Ok(v) => step.deep_view() == StepView::<T::V>::Done(v.deep_view()),
            Err(q) => step.deep_view() == StepView::<T::V>::Ask(q.deep_view()),
        },
{
    match out {
        Ok(v) => Step::Done(v),
        Err(q) => Step::Ask(q),
    }
}

} // verus!
