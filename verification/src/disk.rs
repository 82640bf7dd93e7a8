//! A disk as the guard's requests take it to be: what each change does to
//! it, and what a faithful host answers from it. Nothing here runs; it is the
//! ground on which statements about whole operations stand.

use crate::host::{is_plain, EntryView, FileMeta, Place};
use crate::paths::InstallProbeView;
use crate::protocol::{OpView, ReplyView, RequestView, StepView};
use crate::records::BackupRecord;
use vstd::prelude::*;

verus! {

/// A regular file: its length, whether it is read-only, its content as
/// text, and the record it holds if it is the metadata file of a backup.
pub struct FileState {
    pub len: u64,
    pub readonly: bool,
    pub text: Seq<char>,
    pub record: Option<BackupRecord>,
}

/// What there is at a place.
pub enum Node {
    Dir,
    File(FileState),
}

/// A disk: the places that hold something, and the two encodings that decide
/// how long a written text is and how a record is written out.
pub struct Disk {
    pub nodes: Map<Place, Node>,
    pub measure: spec_fn(Seq<char>) -> u64,
    pub render: spec_fn(BackupRecord) -> Seq<char>,
}

impl Place {
    /// The place one name up, for a place that has a name below its base.
    pub open spec fn parent(self) -> Place {
        Place { base: self.base, parts: self.parts.drop_last() }
    }
}

impl Disk {
    /// An empty text takes no bytes.
    pub open spec fn well_formed(self) -> bool {
        (self.measure)(Seq::empty()) == 0
    }

    /// Whether there is something at `p`.
    pub open spec fn holds(self, p: Place) -> bool {
        self.nodes.dom().contains(p)
    }

    /// The file at `p`, if there is one.
    pub open spec fn file(self, p: Place) -> Option<FileState> {
        if self.holds(p) && self.nodes[p] is File {
            Some(self.nodes[p]->File_0)
        } else {
            None
        }
    }

    /// What a host sees at `p`.
    pub open spec fn seen(self, p: Place) -> Option<FileMeta> {
        if !self.holds(p) {
            None
        } else {
            match self.nodes[p] {
                Node::Dir => Some(FileMeta { is_dir: true, len: 0, readonly: false }),
                Node::File(f) => Some(FileMeta { is_dir: false, len: f.len, readonly: f.readonly }),
            }
        }
    }

    /// The same disk with other contents.
    pub open spec fn with(self, nodes: Map<Place, Node>) -> Disk {
        Disk { nodes, measure: self.measure, render: self.render }
    }

    /// The file that writing `text` leaves.
    pub open spec fn written(self, text: Seq<char>) -> Node {
        Node::File(FileState { len: (self.measure)(text), readonly: false, text, record: None })
    }

    /// The disk after the directory `p` and every directory above it has been
    /// created: what was there stays, what was missing is a directory.
    pub open spec fn with_dirs(self, p: Place) -> Disk {
        self.with(
            Map::new(
                |q: Place| self.holds(q) || p.within(q),
                |q: Place|
                    if self.holds(q) {
                        self.nodes[q]
                    } else {
                        Node::Dir
                    },
            ),
        )
    }

    /// The disk after one change that went through.
    pub open spec fn effect(self, op: OpView) -> Disk {
        match op {
            OpView::CreateDirAll(p) => self.with_dirs(p),
            OpView::CreateParentDirs(p) => if p.parts.len() > 0 {
                self.with_dirs(p.parent())
            } else {
                self
            },
            OpView::CopyFile { from, to } => match self.file(from) {
                Some(f) => self.with(self.nodes.insert(to, Node::File(f))),
                None => self,
            },
            OpView::WriteText { to, text } => self.with(self.nodes.insert(to, self.written(text))),
            OpView::WriteRecord { to, record } => self.with(
                self.nodes.insert(
                    to,
                    Node::File(
                        FileState {
                            len: (self.measure)((self.render)(record)),
                            readonly: false,
                            text: (self.render)(record),
                            record: Some(record),
                        },
                    ),
                ),
            ),
            OpView::RemoveFile(p) => self.with(self.nodes.remove(p)),
            OpView::RemoveDirAll(p) => self.with(
                Map::new(|q: Place| self.holds(q) && !q.within(p), |q: Place| self.nodes[q]),
            ),
            OpView::ClearReadonly(p) => self.with(
                Map::new(
                    |q: Place| self.holds(q),
                    |q: Place|
                        match self.nodes[q] {
                            Node::File(f) => if q.within(p) {
                                Node::File(
                                    FileState {
                                        len: f.len,
                                        readonly: false,
                                        text: f.text,
                                        record: f.record,
                                    },
                                )
                            } else {
                                Node::File(f)
                            },
                            Node::Dir => Node::Dir,
                        },
                ),
            ),
            OpView::MarkReadonly(p) => match self.file(p) {
                Some(f) => self.with(
                    self.nodes.insert(
                        p,
                        Node::File(
                            FileState { len: f.len, readonly: true, text: f.text, record: f.record },
                        ),
                    ),
                ),
                None => self,
            },
        }
    }

    /// The disk after the changes `ops`, made in order, all went through.
    pub open spec fn effects(self, ops: Seq<OpView>) -> Disk
        decreases ops.len(),
    {
        if ops.len() == 0 {
            self
        } else {
            self.effects(ops.drop_last()).effect(ops.last())
        }
    }

    /// Whether `entry` says what there is at its place under `root`.
    pub open spec fn describes(self, root: Place, entry: EntryView) -> bool {
        let p = root.below(entry.rel);
        self.holds(p) && match self.nodes[p] {
            Node::Dir => entry.is_dir && !entry.is_file,
            Node::File(f) => !entry.is_dir && entry.is_file && entry.len == Some(f.len),
        }
    }

    /// Whether `entries` is a walk of the tree at `root`: each entry says what
    /// there is at its place, and nothing in the tree is missing.
    pub open spec fn is_walk(self, root: Place, entries: Seq<EntryView>) -> bool {
        &&& forall|i: int| 0 <= i < entries.len() ==> self.describes(root, #[trigger] entries[i])
        &&& forall|q: Place| #[trigger]
            self.holds(q) && q.within(root) ==> exists|i: int|
                0 <= i < entries.len() && root.below(#[trigger] entries[i].rel) == q
    }
}

/// Whether `q` holds the same on both disks.
pub open spec fn same_at(a: Disk, b: Disk, q: Place) -> bool {
    a.holds(q) == b.holds(q) && (a.holds(q) ==> a.nodes[q] == b.nodes[q])
}

/// A machine as far as the guard asks about it: the disk, the per-user
/// application data directory, and what probing for the install finds.
pub struct World {
    pub disk: Disk,
    pub app_data: Option<Seq<char>>,
    pub install: InstallProbeView,
}

/// Whether a faithful host on the machine `w` may answer `q` with `r`, leaving
/// the machine as `after`. Asking changes nothing. A request for changes that
/// is answered with success has made them all; of one that is answered with a
/// failure nothing is said. The final name of a path is a single name.
/// Requests that do not concern the disk may be answered in any way.
pub open spec fn answers(w: World, q: RequestView, r: ReplyView, after: World) -> bool {
    &&& after.app_data == w.app_data
    &&& after.install == w.install
    &&& after.disk.measure == w.disk.measure
    &&& after.disk.render == w.disk.render
    &&& match q {
        RequestView::Apply(ops) => r.outcome() is Ok ==> after.disk == w.disk.effects(ops),
        _ => after.disk == w.disk,
    }
    &&& match q {
        RequestView::LocalAppData => r == ReplyView::Text(w.app_data),
        RequestView::LeafName(_) => r.text() is Some ==> is_plain(r.text()->0),
        RequestView::ProbeInstall(_) => r == ReplyView::Install(w.install),
        RequestView::Stat(p) => r == ReplyView::Meta(w.disk.seen(p)),
        RequestView::Walk(p) => r is Entries && w.disk.is_walk(p, r.entries()),
        RequestView::ReadText(p) => match w.disk.file(p) {
            Some(f) => r == ReplyView::Content(Ok(f.text)),
            None => r.content() is Err,
        },
        RequestView::ReadRecord(p) => match w.disk.file(p) {
            Some(f) => match f.record {
                Some(record) => r == ReplyView::Record(Ok(record)),
                None => r.record() is Err,
            },
            None => r.record() is Err,
        },
        _ => true,
    }
}

/// Whether `history` is what a faithful host answered to the operation
/// `steps`, request by request, taking the machine through `worlds`.
pub open spec fn is_run<T>(
    steps: spec_fn(Seq<ReplyView>) -> StepView<T>,
    worlds: Seq<World>,
    history: Seq<ReplyView>,
) -> bool {
    &&& worlds.len() == history.len() + 1
    &&& forall|j: int|
        0 <= j < history.len() ==> steps(history.take(j)) is Ask && answers(
            worlds[j],
            steps(history.take(j))->Ask_0,
            #[trigger] history[j],
            worlds[j + 1],
        )
}

/// Whether every request for changes that the operation `steps` made was
/// answered, in `history`, with success.
pub open spec fn all_changes_made<T>(
    steps: spec_fn(Seq<ReplyView>) -> StepView<T>,
    history: Seq<ReplyView>,
) -> bool {
    forall|j: int|
        0 <= j < history.len() && steps(history.take(j)) is Ask && steps(
            history.take(j),
        )->Ask_0 is Apply ==> (#[trigger] history[j]).outcome() is Ok
}

} // verus!
