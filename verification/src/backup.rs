//! The backup store: whole copies of version directories, one directory per
//! backup under a per-user root, each with a metadata file beside the copy.

use crate::host::{
    is_plain, is_separator, lemma_deep_view_push, total_size, Entry, EntryView, Listing, Location,
    Place,
};
use crate::protocol::{
    agrees, apply_one, apply_two, reply_at, report, Cursor, Flow, FsOp, OpView, Reply, ReplyView,
    Request, RequestView, Step, StepView,
};
use crate::records::{
    identity_key, sidecar_name, BackupMetadata, BackupRecord, BackupResult, BackupResultView,
    FaultView, MetadataFault, RestoreResult, RestoreResultView,
};
use crate::text::{
    concat2, concat3, decimal, decimal_string, is_digit, lemma_decimal_is_digits, same_text,
    to_chars,
};
use vstd::prelude::*;
use vstd::string::*;

verus! {

/// The root of the backup store, for the per-user application data directory
/// `app_data`.
pub open spec fn backup_root(app_data: Seq<char>) -> Place {
    Place::at(app_data).child("CCVersionGuard"@).child("Backups"@)
}

/// The root of the backup store, for the per-user application data directory
/// `app_data`.
pub fn get_backup_dir(app_data: &str) -> (out: Location)
    ensures
        out.deep_view() == backup_root(app_data@),
{
    Location::at(app_data).child("CCVersionGuard").child("Backups")
}

/// Whether a copy leaves `entry` out: it lies directly under the root of the
/// walk and has the name to leave out.
pub open spec fn left_out(entry: EntryView, exclude: Option<Seq<char>>) -> bool {
    exclude is Some && entry.rel == seq![exclude->0]
}

/// The changes that copy one entry of the tree at `src` to its place under
/// `dst`: a directory is created; for a file the directories above it are
/// created and the file is copied.
pub open spec fn entry_ops(entry: EntryView, src: Place, dst: Place) -> Seq<OpView> {
    if entry.is_dir {
        seq![OpView::CreateDirAll(dst.below(entry.rel))]
    } else {
        seq![
            OpView::CreateParentDirs(dst.below(entry.rel)),
            OpView::CopyFile { from: src.below(entry.rel), to: dst.below(entry.rel) },
        ]
    }
}

/// The changes that copy the tree listed in `entries` from `src` to `dst`,
/// entry by entry in the order of the listing, leaving out the entries named
/// `exclude`.
pub open spec fn copy_plan(
    entries: Seq<EntryView>,
    src: Place,
    dst: Place,
    exclude: Option<Seq<char>>,
) -> Seq<OpView>
    decreases entries.len(),
{
    if entries.len() == 0 {
        Seq::empty()
    } else {
        copy_plan(entries.drop_last(), src, dst, exclude) + if left_out(entries.last(), exclude) {
            Seq::empty()
        } else {
            entry_ops(entries.last(), src, dst)
        }
    }
}

/// Plans the copy of the tree listed in `entries` from `src` to `dst`.
pub fn plan_copy(entries: &Vec<Entry>, src: &Location, dst: &Location, exclude: Option<&String>) -> (out:
    Vec<FsOp>)
    ensures
        out.deep_view() == copy_plan(
            entries.deep_view(),
            src.deep_view(),
            dst.deep_view(),
            exclude.deep_view(),
        ),
{
    let ghost all = entries.deep_view();
    let ghost s = src.deep_view();
    let ghost d = dst.deep_view();
    let ghost x = exclude.deep_view();
    let mut out: Vec<FsOp> = Vec::new();
    let mut i: usize = 0;
    proof {
        assert(all.take(0) =~= Seq::<EntryView>::empty());
        assert(out.deep_view() =~= Seq::<OpView>::empty());
    }
    while i < entries.len()
        invariant
            i <= entries.len(),
            all == entries.deep_view(),
            s == src.deep_view(),
            d == dst.deep_view(),
            x == exclude.deep_view(),
            out.deep_view() == copy_plan(all.take(i as int), s, d, x),
        decreases entries.len() - i,
    {
        let entry = &entries[i];
        proof {
            assert(all.take(i + 1).drop_last() =~= all.take(i as int));
            assert(all.take(i + 1).last() == entry.deep_view());
        }
        let skip = match exclude {
            Some(name) => entry.rel.len() == 1 && entry.rel[0] == *name,
            None => false,
        };
        proof {
            let rel = entry.deep_view().rel;
            assert(rel.len() == entry.rel.len());
            if let Some(name) = exclude {
                assert(x == Some(name@));
                assert(seq![name@].len() == 1);
                if entry.rel.len() == 1 {
                    assert(rel[0] == entry.rel@[0]@);
                    assert(seq![name@][0] == name@);
                    if skip {
                        assert(rel =~= seq![name@]);
                    }
                }
            }
            assert(skip == left_out(entry.deep_view(), x));
        }
        if skip {
            proof {
                assert(left_out(entry.deep_view(), x));
                assert(out.deep_view() + Seq::<OpView>::empty() =~= out.deep_view());
            }
        } else if entry.is_dir {
            let ghost before = out;
            let op = FsOp::CreateDirAll(dst.below(&entry.rel));
            out.push(op);
            proof {
                lemma_deep_view_push(before, out, op);
                assert(out.deep_view() =~= before.deep_view() + entry_ops(entry.deep_view(), s, d));
            }
        } else {
            let ghost before = out;
            let first = FsOp::CreateParentDirs(dst.below(&entry.rel));
            out.push(first);
            let ghost middle = out;
            let second = FsOp::CopyFile { from: src.below(&entry.rel), to: dst.below(&entry.rel) };
            out.push(second);
            proof {
                lemma_deep_view_push(before, middle, first);
                lemma_deep_view_push(middle, out, second);
                assert(out.deep_view() =~= before.deep_view() + entry_ops(entry.deep_view(), s, d));
            }
        }
        i += 1;
    }
    proof {
        assert(all.take(entries.len() as int) =~= all);
    }
    out
}

/// How copying the tree at `src` to `dst` goes, read from position `at` of
/// the history. The source is looked at; unless it is a directory the copy
/// fails. Then `dst` is created, the source is walked, and the planned changes
/// are made in one request. The value is the message of the step that failed,
/// if one did.
pub open spec fn copy_flow(
    src: Place,
    dst: Place,
    exclude: Option<Seq<char>>,
    history: Seq<ReplyView>,
    at: int,
) -> Flow<Option<Seq<char>>> {
    match reply_at(history, at) {
        None => Flow::Ask(RequestView::Stat(src)),
        Some(seen) => if !(seen.meta() is Some && seen.meta()->0.is_dir) {
            Flow::Done { value: Some("Source is not a directory"@), next: at + 1 }
        } else {
            match reply_at(history, at + 1) {
                None => Flow::Ask(RequestView::Apply(seq![OpView::CreateDirAll(dst)])),
                Some(made) => match made.outcome() {
                    Err(e) => Flow::Done { value: Some(e), next: at + 2 },
                    Ok(_) => match reply_at(history, at + 2) {
                        None => Flow::Ask(RequestView::Walk(src)),
                        Some(walked) => match reply_at(history, at + 3) {
                            None => Flow::Ask(
                                RequestView::Apply(copy_plan(walked.entries(), src, dst, exclude)),
                            ),
                            Some(copied) => match copied.outcome() {
                                Err(e) => Flow::Done { value: Some(e), next: at + 4 },
                                Ok(_) => Flow::Done { value: None, next: at + 4 },
                            },
                        },
                    },
                },
            }
        },
    }
}

/// Copies the tree at `src` to `dst`, leaving out the entries named `exclude`.
pub fn copy_tree(src: &Location, dst: &Location, exclude: Option<&String>, cursor: &mut Cursor) -> (out:
    Result<Option<String>, Request>)
    ensures
        final(cursor).history == old(cursor).history,
        agrees(
            out,
            final(cursor).at,
            copy_flow(
                src.deep_view(),
                dst.deep_view(),
                exclude.deep_view(),
                old(cursor).history.deep_view(),
                old(cursor).at as int,
            ),
        ),
{
    let seen = cursor.ask(Request::Stat(src.duplicate()))?;
    let is_dir = match seen.meta() {
        Some(meta) => meta.is_dir,
        None => false,
    };
    if !is_dir {
        return Ok(Some(String::from_str("Source is not a directory")));
    }
    let made = cursor.ask(apply_one(FsOp::CreateDirAll(dst.duplicate())))?;
    if let Err(e) = made.outcome() {
        return Ok(Some(e));
    }
    let walked = cursor.ask(Request::Walk(src.duplicate()))?;
    let plan = match walked.entries() {
        Some(listing) => plan_copy(listing.entries(), src, dst, exclude),
        None => {
            let none: Vec<Entry> = Vec::new();
            proof {
                assert(none.deep_view() =~= Seq::<EntryView>::empty());
            }
            plan_copy(&none, src, dst, exclude)
        },
    };
    let copied = cursor.ask(Request::Apply(plan))?;
    match copied.outcome() {
        Err(e) => Ok(Some(e)),
        Ok(_) => Ok(None),
    }
}

/// How copying a whole tree goes as an operation of its own.
pub open spec fn copy_steps(src: Place, dst: Place, history: Seq<ReplyView>) -> Flow<
    Option<Seq<char>>,
> {
    copy_flow(src, dst, None, history, 0)
}

/// Copies the tree at `src` to `dst`. The result is the message of the step
/// that failed, if one did.
pub fn copy_dir_recursive(src: &Location, dst: &Location, history: &Vec<Reply>) -> (step: Step<
    Option<String>,
>)
    ensures
        step.deep_view() == copy_steps(src.deep_view(), dst.deep_view(), history.deep_view()).step(),
{
    let mut cursor = Cursor::start(history);
    report(copy_tree(src, dst, None, &mut cursor))
}

/// Copies the tree at `src` to `dst`, leaving out the entry directly under
/// `src` that is called `exclude_file`. The result is the message of the step
/// that failed, if one did.
pub fn copy_dir_recursive_filtered(
    src: &Location,
    dst: &Location,
    exclude_file: &str,
    history: &Vec<Reply>,
) -> (step: Step<Option<String>>)
    ensures
        step.deep_view() == copy_flow(
            src.deep_view(),
            dst.deep_view(),
            Some(exclude_file@),
            history.deep_view(),
            0,
        ).step(),
{
    let mut cursor = Cursor::start(history);
    let name = String::from_str(exclude_file);
    report(copy_tree(src, dst, Some(&name), &mut cursor))
}

/// A size as it is recorded: the number itself where it fits in `u64`. The
/// sizes of a listing always do.
pub open spec fn recorded_size(bytes: nat) -> u64 {
    if bytes <= u64::MAX {
        bytes as u64
    } else {
        u64::MAX
    }
}

/// The bytes in the regular files of a tree the host has walked.
pub fn calc_dir_size(listing: &Listing) -> (out: u64)
    ensures
        out == total_size(listing.deep_view()),
        out == recorded_size(total_size(listing.deep_view())),
{
    listing.total()
}

/// The size that a reply to a walk stands for.
pub fn walked_size(reply: &Reply) -> (out: u64)
    ensures
        out == recorded_size(total_size(reply.deep_view().entries())),
{
    match reply.entries() {
        Some(listing) => calc_dir_size(listing),
        None => 0,
    }
}

/// The last part of a backup, read from position `at` of the history, once
/// the tree has been copied to `dst`: the copy is walked for its size, and the
/// record is written beside it. The backup has succeeded by then: where the
/// record cannot be written, the operator is warned and nothing else changes.
pub open spec fn backup_record(
    dst: Place,
    version_name: Seq<char>,
    original_path: Seq<char>,
    created_at: u64,
    reason: Seq<char>,
    history: Seq<ReplyView>,
    at: int,
) -> Flow<BackupResultView> {
    let id = identity_key(version_name, created_at);
    match reply_at(history, at) {
        None => Flow::Ask(RequestView::Walk(dst)),
        Some(walked) => {
            let record = BackupRecord {
                version_name,
                original_path,
                created_at,
                size_bytes: recorded_size(total_size(walked.entries())),
                reason,
            };
            match reply_at(history, at + 1) {
                None => Flow::Ask(
                    RequestView::Apply(
                        seq![OpView::WriteRecord { to: dst.child(sidecar_name()), record }],
                    ),
                ),
                Some(written) => match written.outcome() {
                    Ok(_) => Flow::Done { value: BackupResultView::done(Some(id)), next: at + 2 },
                    Err(e) => match reply_at(history, at + 2) {
                        None => Flow::Ask(
                            RequestView::Warn("Warning: Could not save metadata: "@ + e),
                        ),
                        Some(_) => Flow::Done {
                            value: BackupResultView::done(Some(id)),
                            next: at + 3,
                        },
                    },
                },
            }
        },
    }
}

/// The middle part of a backup, read from position `at` of the history, once
/// the name of the backup is known: the tree at `version_path` is copied to a
/// directory of that name under `root`; the backup fails where the copy does.
pub open spec fn backup_copy(
    root: Place,
    version_path: Seq<char>,
    version_name: Seq<char>,
    created_at: u64,
    reason: Seq<char>,
    history: Seq<ReplyView>,
    at: int,
) -> Flow<BackupResultView> {
    let dst = root.child(identity_key(version_name, created_at));
    match copy_flow(Place::at(version_path), dst, None, history, at) {
        Flow::Ask(q) => Flow::Ask(q),
        Flow::Done { value: Some(e), next } => Flow::Done {
            value: BackupResultView::failed("Failed to copy directory: "@ + e),
            next,
        },
        Flow::Done { value: None, next } => backup_record(
            dst,
            version_name,
            version_path,
            created_at,
            reason,
            history,
            next,
        ),
    }
}

/// The name a backup takes from the final name of the path it copies: that
/// name, or the empty text where the path has none.
pub open spec fn version_name_of(leaf: Option<Seq<char>>) -> Seq<char> {
    match leaf {
        Some(name) => name,
        None => Seq::empty(),
    }
}

/// How backing up the directory at `version_path` goes, read from position
/// `at` of the history. It fails where the application data directory is
/// unknown and where the root of the store cannot be created. Then the time
/// and the final name of the path give the backup its name, and the copy
/// follows.
pub open spec fn backup_flow(
    version_path: Seq<char>,
    reason: Seq<char>,
    history: Seq<ReplyView>,
    at: int,
) -> Flow<BackupResultView> {
    match reply_at(history, at) {
        None => Flow::Ask(RequestView::LocalAppData),
        Some(env) => match env.text() {
            None => Flow::Done {
                value: BackupResultView::failed("Could not determine backup directory"@),
                next: at + 1,
            },
            Some(app_data) => {
                let root = backup_root(app_data);
                match reply_at(history, at + 1) {
                    None => Flow::Ask(RequestView::Apply(seq![OpView::CreateDirAll(root)])),
                    Some(made) => match made.outcome() {
                        Err(e) => Flow::Done {
                            value: BackupResultView::failed(
                                "Failed to create backup directory: "@ + e,
                            ),
                            next: at + 2,
                        },
                        Ok(_) => match reply_at(history, at + 2) {
                            None => Flow::Ask(RequestView::Clock),
                            Some(now) => match reply_at(history, at + 3) {
                                None => Flow::Ask(RequestView::LeafName(Place::at(version_path))),
                                Some(leaf) => backup_copy(
                                    root,
                                    version_path,
                                    version_name_of(leaf.text()),
                                    now.time(),
                                    reason,
                                    history,
                                    at + 4,
                                ),
                            },
                        },
                    },
                }
            },
        },
    }
}

/// Backs up the directory at `version_path`, reading the history from the
/// cursor on.
pub fn backup_from(version_path: &str, reason: &str, cursor: &mut Cursor) -> (out: Result<
    BackupResult,
    Request,
>)
    ensures
        final(cursor).history == old(cursor).history,
        agrees(
            out,
            final(cursor).at,
            backup_flow(
                version_path@,
                reason@,
                old(cursor).history.deep_view(),
                old(cursor).at as int,
            ),
        ),
{
    let env = cursor.ask(Request::LocalAppData)?;
    let app_data = match env.text() {
        Some(text) => text,
        None => {
            return Ok(
                BackupResult::failed(String::from_str("Could not determine backup directory")),
            );
        },
    };
    let root = get_backup_dir(app_data.as_str());
    let made = cursor.ask(apply_one(FsOp::CreateDirAll(root.duplicate())))?;
    if let Err(e) = made.outcome() {
        return Ok(BackupResult::failed(concat2("Failed to create backup directory: ", e.as_str())));
    }
    let now = cursor.ask(Request::Clock)?;
    let created_at = now.time();
    let src = Location::at(version_path);
    let leaf = cursor.ask(Request::LeafName(src.duplicate()))?;
    let version_name = match leaf.text() {
        Some(name) => name.clone(),
        None => String::new(),
    };
    let stamp = decimal_string(created_at);
    let backup_id = concat3(version_name.as_str(), "_", stamp.as_str());
    let dst = root.child(backup_id.as_str());
    if let Some(e) = copy_tree(&src, &dst, None, cursor)? {
        return Ok(BackupResult::failed(concat2("Failed to copy directory: ", e.as_str())));
    }
    let walked = cursor.ask(Request::Walk(dst.duplicate()))?;
    let record = BackupMetadata {
        version_name,
        original_path: String::from_str(version_path),
        created_at,
        size_bytes: walked_size(walked),
        reason: String::from_str(reason),
    };
    let written = cursor.ask(
        apply_one(FsOp::WriteRecord { to: dst.child("_backup_metadata.json"), record }),
    )?;
    if let Err(e) = written.outcome() {
        let _ = cursor.ask(
            Request::Warn(concat2("Warning: Could not save metadata: ", e.as_str())),
        )?;
    }
    Ok(BackupResult::done(Some(backup_id)))
}

/// Backs up the directory at `version_path` before it is deleted: the next
/// request for the host, or how the backup ended.
pub fn create_backup(version_path: &str, reason: &str, history: &Vec<Reply>) -> (step: Step<
    BackupResult,
>)
    ensures
        step.deep_view() == backup_flow(version_path@, reason@, history.deep_view(), 0).step(),
{
    let mut cursor = Cursor::start(history);
    report(backup_from(version_path, reason, &mut cursor))
}

/// The directory of the backup `backup_id`, for the per-user application data
/// directory `app_data`.
pub open spec fn backup_place(app_data: Seq<char>, backup_id: Seq<char>) -> Place {
    backup_root(app_data).child(backup_id)
}

/// The last part of a restore, read from position `at` of the history: the
/// backup at `dir` is copied, without its metadata file, to `home`, and the
/// restore ends well where the copy does.
pub open spec fn restore_copy(
    dir: Place,
    home: Place,
    original_path: Seq<char>,
    history: Seq<ReplyView>,
    at: int,
) -> Flow<RestoreResultView> {
    match copy_flow(dir, home, Some(sidecar_name()), history, at) {
        Flow::Ask(q) => Flow::Ask(q),
        Flow::Done { value: Some(e), next } => Flow::Done {
            value: RestoreResultView::failed("Failed to restore: "@ + e),
            next,
        },
        Flow::Done { value: None, next } => Flow::Done {
            value: RestoreResultView::done(original_path),
            next,
        },
    }
}

/// The middle part of a restore, read from position `at` of the history, once
/// the metadata of the backup at `dir` has given `original_path`: the
/// directories above that path are created; what lies at the path is removed,
/// read-only or not; then the copy follows.
pub open spec fn restore_onto(
    dir: Place,
    original_path: Seq<char>,
    history: Seq<ReplyView>,
    at: int,
) -> Flow<RestoreResultView> {
    let home = Place::at(original_path);
    match reply_at(history, at) {
        None => Flow::Ask(RequestView::Apply(seq![OpView::CreateParentDirs(home)])),
        Some(made) => match made.outcome() {
            Err(e) => Flow::Done {
                value: RestoreResultView::failed("Could not create parent directory: "@ + e),
                next: at + 1,
            },
            Ok(_) => match reply_at(history, at + 1) {
                None => Flow::Ask(RequestView::Stat(home)),
                Some(seen) => if seen.meta() is Some {
                    match reply_at(history, at + 2) {
                        None => Flow::Ask(
                            RequestView::Apply(
                                seq![OpView::ClearReadonly(home), OpView::RemoveDirAll(home)],
                            ),
                        ),
                        Some(removed) => match removed.outcome() {
                            Err(e) => Flow::Done {
                                value: RestoreResultView::failed(
                                    "Could not remove existing directory: "@ + e,
                                ),
                                next: at + 3,
                            },
                            Ok(_) => restore_copy(dir, home, original_path, history, at + 3),
                        },
                    }
                } else {
                    restore_copy(dir, home, original_path, history, at + 2)
                },
            },
        },
    }
}

/// Whether `id` can be the name of one backup directory: a single name that
/// is not empty and does not stand for the directory itself or the one above.
pub open spec fn names_one_backup(id: Seq<char>) -> bool {
    id.len() > 0 && id != "."@ && id != ".."@ && is_plain(id)
}

/// Whether `id` can be the name of one backup directory.
pub fn is_backup_name(id: &str) -> (out: bool)
    ensures
        out == names_one_backup(id@),
{
    let chars = to_chars(id);
    if chars.len() == 0 || same_text(id, ".") || same_text(id, "..") {
        return false;
    }
    let mut i: usize = 0;
    while i < chars.len()
        invariant
            i <= chars.len(),
            chars@ == id@,
            forall|j: int| 0 <= j < i ==> !is_separator(#[trigger] chars@[j]),
        decreases chars.len() - i,
    {
        let c = chars[i];
        if c == '/' || c == '\\' || c == ':' {
            return false;
        }
        i += 1;
    }
    true
}

/// A backup gets a name that one backup directory can have: the final name
/// of a path, whatever it is, followed by an underscore and the time is a
/// single name, not empty, and neither `.` nor `..`.
pub proof fn lemma_identity_key_names_one_backup(version_name: Seq<char>, created_at: u64)
    requires
        is_plain(version_name),
    ensures
        names_one_backup(identity_key(version_name, created_at)),
{
    reveal_strlit("_");
    reveal_strlit(".");
    reveal_strlit("..");
    let digits = decimal(created_at as nat);
    lemma_decimal_is_digits(created_at as nat);
    let id = identity_key(version_name, created_at);
    let n = version_name.len() as int;
    assert(id.len() == n + 1 + digits.len());
    assert(id[n] == '_');
    assert forall|i: int| 0 <= i < id.len() implies !is_separator(#[trigger] id[i]) by {
        if i < n {
            assert(id[i] == version_name[i]);
        } else if i > n {
            assert(id[i] == digits[i - n - 1]);
            assert(is_digit(digits[i - n - 1]));
        }
    }
    if id == ".."@ {
        assert(n == 0);
        assert(id[0] == '_');
    }
}

/// How restoring the backup `backup_id` goes, read from position `at` of the
/// history. A name that cannot be that of one backup directory is the name of
/// no backup, and nothing is asked. Else the restore goes on as
/// `restore_known` says.
pub open spec fn restore_flow(backup_id: Seq<char>, history: Seq<ReplyView>, at: int) -> Flow<
    RestoreResultView,
> {
    if names_one_backup(backup_id) {
        restore_known(backup_id, history, at)
    } else {
        Flow::Done { value: RestoreResultView::failed("Backup not found: "@ + backup_id), next: at }
    }
}

/// How restoring the backup directory called `backup_id` goes, read from
/// position `at` of the history. It fails where the application data
/// directory is unknown, where there is no such backup, and where its metadata
/// cannot be read or does not hold a record; else it goes on as `restore_onto`
/// says.
pub open spec fn restore_known(backup_id: Seq<char>, history: Seq<ReplyView>, at: int) -> Flow<
    RestoreResultView,
> {
    match reply_at(history, at) {
        None => Flow::Ask(RequestView::LocalAppData),
        Some(env) => match env.text() {
            None => Flow::Done {
                value: RestoreResultView::failed("Could not determine backup directory"@),
                next: at + 1,
            },
            Some(app_data) => {
                let dir = backup_place(app_data, backup_id);
                match reply_at(history, at + 1) {
                    None => Flow::Ask(RequestView::Stat(dir)),
                    Some(seen) => if seen.meta() is None {
                        Flow::Done {
                            value: RestoreResultView::failed("Backup not found: "@ + backup_id),
                            next: at + 2,
                        }
                    } else {
                        match reply_at(history, at + 2) {
                            None => Flow::Ask(RequestView::ReadRecord(dir.child(sidecar_name()))),
                            Some(read) => match read.record() {
                                Err(FaultView::Unreadable(e)) => Flow::Done {
                                    value: RestoreResultView::failed(
                                        "Could not read metadata: "@ + e,
                                    ),
                                    next: at + 3,
                                },
                                Err(FaultView::Invalid(e)) => Flow::Done {
                                    value: RestoreResultView::failed("Invalid metadata: "@ + e),
                                    next: at + 3,
                                },
                                Ok(record) => restore_onto(
                                    dir,
                                    record.original_path,
                                    history,
                                    at + 3,
                                ),
                            },
                        }
                    },
                }
            },
        },
    }
}

/// Restores the backup `backup_id`, reading the history from the cursor on.
pub fn restore_from(backup_id: &str, cursor: &mut Cursor) -> (out: Result<RestoreResult, Request>)
    ensures
        final(cursor).history == old(cursor).history,
        agrees(
            out,
            final(cursor).at,
            restore_flow(backup_id@, old(cursor).history.deep_view(), old(cursor).at as int),
        ),
{
    if !is_backup_name(backup_id) {
        return Ok(RestoreResult::failed(concat2("Backup not found: ", backup_id)));
    }
    let env = cursor.ask(Request::LocalAppData)?;
    let app_data = match env.text() {
        Some(text) => text,
        None => {
            return Ok(
                RestoreResult::failed(String::from_str("Could not determine backup directory")),
            );
        },
    };
    let dir = get_backup_dir(app_data.as_str()).child(backup_id);
    let seen = cursor.ask(Request::Stat(dir.duplicate()))?;
    if seen.meta().is_none() {
        return Ok(RestoreResult::failed(concat2("Backup not found: ", backup_id)));
    }
    let read = cursor.ask(Request::ReadRecord(dir.child("_backup_metadata.json")))?;
    let record = match read.record() {
        Ok(record) => record,
        Err(MetadataFault::Unreadable(e)) => {
            return Ok(RestoreResult::failed(concat2("Could not read metadata: ", e.as_str())));
        },
        Err(MetadataFault::Invalid(e)) => {
            return Ok(RestoreResult::failed(concat2("Invalid metadata: ", e.as_str())));
        },
    };
    let home = Location::at(record.original_path.as_str());
    let made = cursor.ask(apply_one(FsOp::CreateParentDirs(home.duplicate())))?;
    if let Err(e) = made.outcome() {
        return Ok(
            RestoreResult::failed(concat2("Could not create parent directory: ", e.as_str())),
        );
    }
    let occupied = cursor.ask(Request::Stat(home.duplicate()))?;
    if occupied.meta().is_some() {
        let removed = cursor.ask(
            apply_two(FsOp::ClearReadonly(home.duplicate()), FsOp::RemoveDirAll(home.duplicate())),
        )?;
        if let Err(e) = removed.outcome() {
            return Ok(
                RestoreResult::failed(concat2("Could not remove existing directory: ", e.as_str())),
            );
        }
    }
    let sidecar = String::from_str("_backup_metadata.json");
    match copy_tree(&dir, &home, Some(&sidecar), cursor)? {
        Some(e) => Ok(RestoreResult::failed(concat2("Failed to restore: ", e.as_str()))),
        None => Ok(RestoreResult::done(record.original_path.clone())),
    }
}

/// Restores the backup `backup_id` to the place it was taken from: the next
/// request for the host, or how the restore ended.
pub fn restore_backup(backup_id: &str, history: &Vec<Reply>) -> (step: Step<RestoreResult>)
    ensures
        step.deep_view() == restore_flow(backup_id@, history.deep_view(), 0).step(),
{
    let mut cursor = Cursor::start(history);
    report(restore_from(backup_id, &mut cursor))
}

/// `sorted` with `record` put in behind every record that is as new or newer.
pub open spec fn insert_newest(sorted: Seq<BackupRecord>, record: BackupRecord) -> Seq<BackupRecord>
    decreases sorted.len(),
{
    if sorted.len() == 0 {
        seq![record]
    } else if sorted.last().created_at >= record.created_at {
        sorted.push(record)
    } else {
        insert_newest(sorted.drop_last(), record).push(sorted.last())
    }
}

/// The records ordered by the time they were made, newest first; records of
/// the same time keep the order they came in.
pub open spec fn newest_first(records: Seq<BackupRecord>) -> Seq<BackupRecord>
    decreases records.len(),
{
    if records.len() == 0 {
        Seq::empty()
    } else {
        insert_newest(newest_first(records.drop_last()), records.last())
    }
}

/// Whether no record of `records` is newer than one before it.
pub open spec fn is_newest_first(records: Seq<BackupRecord>) -> bool {
    forall|i: int, j: int|
        0 <= i < j < records.len() ==> records[i].created_at >= records[j].created_at
}

/// Putting a record in means inserting it at `k`, where every record from `k`
/// on is older than it and the one before `k`, if there is one, is not.
pub proof fn lemma_insert_newest_at(sorted: Seq<BackupRecord>, record: BackupRecord, k: int)
    requires
        0 <= k <= sorted.len(),
        forall|j: int| k <= j < sorted.len() ==> sorted[j].created_at < record.created_at,
        k > 0 ==> sorted[k - 1].created_at >= record.created_at,
    ensures
        insert_newest(sorted, record) == sorted.insert(k, record),
    decreases sorted.len(),
{
    if sorted.len() == 0 {
        assert(sorted.insert(k, record) =~= seq![record]);
    } else if k == sorted.len() {
        assert(sorted.insert(k, record) =~= sorted.push(record));
    } else {
        lemma_insert_newest_at(sorted.drop_last(), record, k);
        assert(sorted.insert(k, record) =~= sorted.drop_last().insert(k, record).push(
            sorted.last(),
        ));
    }
}

/// Putting a record into an ordered sequence leaves it ordered, one longer,
/// and holding what it held and the record.
pub proof fn lemma_insert_newest(sorted: Seq<BackupRecord>, record: BackupRecord)
    requires
        is_newest_first(sorted),
    ensures
        is_newest_first(insert_newest(sorted, record)),
        insert_newest(sorted, record).to_multiset() == sorted.to_multiset().insert(record),
        insert_newest(sorted, record).len() == sorted.len() + 1,
    decreases sorted.len(),
{
    broadcast use vstd::seq_lib::group_to_multiset_ensures;

    if sorted.len() == 0 {
    } else if sorted.last().created_at >= record.created_at {
    } else {
        let front = sorted.drop_last();
        lemma_insert_newest(front, record);
        let inner = insert_newest(front, record);
        let out = inner.push(sorted.last());
        assert(sorted =~= front.push(sorted.last()));
        assert(is_newest_first(out)) by {
            assert forall|i: int, j: int| 0 <= i < j < out.len() implies out[i].created_at
                >= out[j].created_at by {
                if j == out.len() - 1 {
                    // out[i] is a record of `inner`: the new one, or one of `front`.
                    assert(inner.to_multiset().count(inner[i]) > 0);
                    if inner[i] != record {
                        assert(front.to_multiset().count(inner[i]) > 0);
                        let w = choose|w: int| 0 <= w < front.len() && front[w] == inner[i];
                        assert(sorted[w].created_at >= sorted[sorted.len() - 1].created_at);
                    }
                }
            }
        }
        assert(out.to_multiset() =~= sorted.to_multiset().insert(record));
    }
}

/// `newest_first` orders the records, newest first, and neither loses nor
/// invents one.
pub proof fn lemma_newest_first(records: Seq<BackupRecord>)
    ensures
        is_newest_first(newest_first(records)),
        newest_first(records).to_multiset() == records.to_multiset(),
        newest_first(records).len() == records.len(),
    decreases records.len(),
{
    broadcast use vstd::seq_lib::group_to_multiset_ensures;

    if records.len() > 0 {
        lemma_newest_first(records.drop_last());
        lemma_insert_newest(newest_first(records.drop_last()), records.last());
        assert(records =~= records.drop_last().push(records.last()));
    }
}

/// Orders the records by the time they were made, newest first.
pub fn sort_newest_first(records: Vec<BackupMetadata>) -> (out: Vec<BackupMetadata>)
    ensures
        out.deep_view() == newest_first(records.deep_view()),
{
    let ghost all = records.deep_view();
    let mut out: Vec<BackupMetadata> = Vec::new();
    let mut i: usize = 0;
    proof {
        assert(all.take(0) =~= Seq::<BackupRecord>::empty());
        assert(out.deep_view() =~= Seq::<BackupRecord>::empty());
    }
    while i < records.len()
        invariant
            i <= records.len(),
            all == records.deep_view(),
            out.deep_view() == newest_first(all.take(i as int)),
        decreases records.len() - i,
    {
        let record = records[i].duplicate();
        let mut k: usize = out.len();
        while k > 0 && out[k - 1].created_at < record.created_at
            invariant
                k <= out.len(),
                forall|j: int| k <= j < out.len() ==> out[j].created_at < record.created_at,
            decreases k,
        {
            k -= 1;
        }
        let ghost before = out;
        out.insert(k, record);
        proof {
            let b = before.deep_view();
            assert(b.len() == before@.len());
            assert forall|j: int| k <= j < b.len() implies b[j].created_at
                < record.deep_view().created_at by {
                assert(b[j] == before@[j].deep_view());
            }
            if k > 0 {
                assert(b[k - 1] == before@[k - 1].deep_view());
            }
            lemma_insert_newest_at(b, record.deep_view(), k as int);
            assert(out.deep_view() =~= b.insert(k as int, record.deep_view())) by {
                assert forall|j: int| 0 <= j < out@.len() implies out.deep_view()[j] == b.insert(
                    k as int,
                    record.deep_view(),
                )[j] by {
                    if j < k {
                        assert(out@[j] == before@[j]);
                        assert(b[j] == before@[j].deep_view());
                    } else if j > k {
                        assert(out@[j] == before@[j - 1]);
                        assert(b[j - 1] == before@[j - 1].deep_view());
                    }
                }
            }
            assert(all.take(i + 1).drop_last() =~= all.take(i as int));
            assert(all.take(i + 1).last() == record.deep_view());
        }
        i += 1;
    }
    proof {
        assert(all.take(records.len() as int) =~= all);
    }
    out
}

/// The last part of listing the backups, read from position `at` of the
/// history: for each directory among `entries`, from the `i`-th on, the
/// metadata file in it is read; what holds a record is kept, the rest is
/// passed over. The records found are ordered newest first.
pub open spec fn read_records(
    root: Place,
    entries: Seq<EntryView>,
    i: int,
    found: Seq<BackupRecord>,
    history: Seq<ReplyView>,
    at: int,
) -> Flow<Seq<BackupRecord>>
    decreases entries.len() - i,
{
    if i < 0 || i >= entries.len() {
        Flow::Done { value: newest_first(found), next: at }
    } else if !entries[i].is_dir {
        read_records(root, entries, i + 1, found, history, at)
    } else {
        match reply_at(history, at) {
            None => Flow::Ask(
                RequestView::ReadRecord(root.below(entries[i].rel).child(sidecar_name())),
            ),
            Some(read) => match read.record() {
                Ok(record) => read_records(
                    root,
                    entries,
                    i + 1,
                    found.push(record),
                    history,
                    at + 1,
                ),
                Err(_) => read_records(root, entries, i + 1, found, history, at + 1),
            },
        }
    }
}

/// How listing the backups goes, read from position `at` of the history.
/// There are none where the application data directory is unknown or the
/// store has no root yet; else the root is listed and the records are read.
pub open spec fn list_flow(history: Seq<ReplyView>, at: int) -> Flow<Seq<BackupRecord>> {
    match reply_at(history, at) {
        None => Flow::Ask(RequestView::LocalAppData),
        Some(env) => match env.text() {
            None => Flow::Done { value: Seq::empty(), next: at + 1 },
            Some(app_data) => {
                let root = backup_root(app_data);
                match reply_at(history, at + 1) {
                    None => Flow::Ask(RequestView::Stat(root)),
                    Some(seen) => if seen.meta() is None {
                        Flow::Done { value: Seq::empty(), next: at + 2 }
                    } else {
                        match reply_at(history, at + 2) {
                            None => Flow::Ask(RequestView::ListDir(root)),
                            Some(listed) => read_records(
                                root,
                                listed.entries(),
                                0,
                                Seq::empty(),
                                history,
                                at + 3,
                            ),
                        }
                    },
                }
            },
        },
    }
}

proof fn lemma_read_records_in_order(
    root: Place,
    entries: Seq<EntryView>,
    i: int,
    found: Seq<BackupRecord>,
    history: Seq<ReplyView>,
    at: int,
)
    requires
        read_records(root, entries, i, found, history, at) is Done,
    ensures
        is_newest_first(read_records(root, entries, i, found, history, at)->value),
    decreases entries.len() - i,
{
    if i < 0 || i >= entries.len() {
        lemma_newest_first(found);
    } else if !entries[i].is_dir {
        lemma_read_records_in_order(root, entries, i + 1, found, history, at);
    } else {
        let read = reply_at(history, at)->0;
        match read.record() {
            Ok(record) => {
                lemma_read_records_in_order(
                    root,
                    entries,
                    i + 1,
                    found.push(record),
                    history,
                    at + 1,
                );
            },
            Err(_) => {
                lemma_read_records_in_order(root, entries, i + 1, found, history, at + 1);
            },
        }
    }
}

/// Whatever the host answers, the backups are listed newest first: no record
/// of the list is newer than one before it.
pub proof fn lemma_list_is_newest_first(history: Seq<ReplyView>)
    requires
        list_flow(history, 0) is Done,
    ensures
        is_newest_first(list_flow(history, 0)->value),
{
    let env = reply_at(history, 0)->0;
    if env.text() is Some {
        let root = backup_root(env.text()->0);
        let seen = reply_at(history, 1)->0;
        if seen.meta() is Some {
            let listed = reply_at(history, 2)->0;
            lemma_read_records_in_order(root, listed.entries(), 0, Seq::empty(), history, 3);
        }
    }
}

/// Lists the backups, reading the history from the cursor on.
pub fn list_from(cursor: &mut Cursor) -> (out: Result<Vec<BackupMetadata>, Request>)
    ensures
        final(cursor).history == old(cursor).history,
        agrees(
            out,
            final(cursor).at,
            list_flow(old(cursor).history.deep_view(), old(cursor).at as int),
        ),
{
    let ghost history = cursor.history.deep_view();
    let ghost goal = list_flow(history, cursor.at as int);
    let env = cursor.ask(Request::LocalAppData)?;
    let app_data = match env.text() {
        Some(text) => text,
        None => {
            let none: Vec<BackupMetadata> = Vec::new();
            proof {
                assert(none.deep_view() =~= Seq::<BackupRecord>::empty());
            }
            return Ok(none);
        },
    };
    let root = get_backup_dir(app_data.as_str());
    let seen = cursor.ask(Request::Stat(root.duplicate()))?;
    if seen.meta().is_none() {
        let none: Vec<BackupMetadata> = Vec::new();
        proof {
            assert(none.deep_view() =~= Seq::<BackupRecord>::empty());
        }
        return Ok(none);
    }
    let listed = cursor.ask(Request::ListDir(root.duplicate()))?;
    let mut found: Vec<BackupMetadata> = Vec::new();
    proof {
        assert(found.deep_view() =~= Seq::<BackupRecord>::empty());
    }
    if let Some(listing) = listed.entries() {
        let entries = listing.entries();
        let ghost es = entries.deep_view();
        let mut i: usize = 0;
        while i < entries.len()
            invariant
                i <= entries.len(),
                es == entries.deep_view(),
                history == cursor.history.deep_view(),
                cursor.history == old(cursor).history,
                goal == list_flow(old(cursor).history.deep_view(), old(cursor).at as int),
                goal == read_records(
                    root.deep_view(),
                    es,
                    i as int,
                    found.deep_view(),
                    history,
                    cursor.at as int,
                ),
            decreases entries.len() - i,
        {
            let entry = &entries[i];
            assert(es[i as int] == entry.deep_view());
            if entry.is_dir {
                let read = cursor.ask(
                    Request::ReadRecord(root.below(&entry.rel).child("_backup_metadata.json")),
                )?;
                if let Ok(record) = read.record() {
                    let ghost before = found;
                    let copy = record.duplicate();
                    found.push(copy);
                    proof {
                        lemma_deep_view_push(before, found, copy);
                    }
                }
            }
            i += 1;
        }
    }
    Ok(sort_newest_first(found))
}

/// Lists the backups there are, newest first: the next request for the host,
/// or the list.
pub fn list_backups(history: &Vec<Reply>) -> (step: Step<Vec<BackupMetadata>>)
    ensures
        step.deep_view() == list_flow(history.deep_view(), 0).step(),
{
    let mut cursor = Cursor::start(history);
    report(list_from(&mut cursor))
}

/// How deleting the backup `backup_id` goes. A name that cannot be that of
/// one backup directory is the name of no backup, and nothing is asked: only
/// a directory that lies directly in the store is ever removed. Else the
/// deletion goes on as `delete_known` says.
pub open spec fn delete_flow(backup_id: Seq<char>, history: Seq<ReplyView>, at: int) -> Flow<
    BackupResultView,
> {
    if names_one_backup(backup_id) {
        delete_known(backup_id, history, at)
    } else {
        Flow::Done { value: BackupResultView::failed("Backup not found: "@ + backup_id), next: at }
    }
}

/// How deleting the backup directory called `backup_id` goes. It fails where
/// the application data directory is unknown, where there is no such backup,
/// and where its directory cannot be removed.
pub open spec fn delete_known(backup_id: Seq<char>, history: Seq<ReplyView>, at: int) -> Flow<
    BackupResultView,
> {
    match reply_at(history, at) {
        None => Flow::Ask(RequestView::LocalAppData),
        Some(env) => match env.text() {
            None => Flow::Done {
                value: BackupResultView::failed("Could not determine backup directory"@),
                next: at + 1,
            },
            Some(app_data) => {
                let dir = backup_place(app_data, backup_id);
                match reply_at(history, at + 1) {
                    None => Flow::Ask(RequestView::Stat(dir)),
                    Some(seen) => if seen.meta() is None {
                        Flow::Done {
                            value: BackupResultView::failed("Backup not found: "@ + backup_id),
                            next: at + 2,
                        }
                    } else {
                        match reply_at(history, at + 2) {
                            None => Flow::Ask(RequestView::Apply(seq![OpView::RemoveDirAll(dir)])),
                            Some(removed) => match removed.outcome() {
                                Err(e) => Flow::Done {
                                    value: BackupResultView::failed(
                                        "Failed to delete backup: "@ + e,
                                    ),
                                    next: at + 3,
                                },
                                Ok(_) => Flow::Done {
                                    value: BackupResultView::done(Some(backup_id)),
                                    next: at + 3,
                                },
                            },
                        }
                    },
                }
            },
        },
    }
}

/// Deleting removes one backup directory or nothing. A name that cannot be
/// that of one backup directory is refused before anything is asked; and the
/// only change a deletion ever asks for is the removal of the directory of
/// that name directly in the store.
pub proof fn lemma_delete_removes_one_directory(backup_id: Seq<char>, history: Seq<ReplyView>)
    ensures
        !names_one_backup(backup_id) ==> delete_flow(backup_id, history, 0).step()
            == StepView::Done(BackupResultView::failed("Backup not found: "@ + backup_id)),
        delete_flow(backup_id, history, 0) is Ask && delete_flow(backup_id, history, 0)->Ask_0
            is Apply ==> names_one_backup(backup_id) && history.len() > 0 && history[0].text()
            is Some && delete_flow(backup_id, history, 0)->Ask_0 == RequestView::Apply(
            seq![OpView::RemoveDirAll(backup_root(history[0].text()->0).child(backup_id))],
        ),
{
}

/// Deletes the backup `backup_id`: the next request for the host, or how the
/// deletion ended.
pub fn delete_backup(backup_id: String, history: &Vec<Reply>) -> (step: Step<BackupResult>)
    ensures
        step.deep_view() == delete_flow(backup_id@, history.deep_view(), 0).step(),
{
    let mut cursor = Cursor::start(history);
    report(delete_from(backup_id, &mut cursor))
}

fn delete_from(backup_id: String, cursor: &mut Cursor) -> (out: Result<BackupResult, Request>)
    ensures
        agrees(
            out,
            final(cursor).at,
            delete_flow(backup_id@, old(cursor).history.deep_view(), old(cursor).at as int),
        ),
{
    if !is_backup_name(backup_id.as_str()) {
        return Ok(BackupResult::failed(concat2("Backup not found: ", backup_id.as_str())));
    }
    let env = cursor.ask(Request::LocalAppData)?;
    let app_data = match env.text() {
        Some(text) => text,
        None => {
            return Ok(
                BackupResult::failed(String::from_str("Could not determine backup directory")),
            );
        },
    };
    let dir = get_backup_dir(app_data.as_str()).child(backup_id.as_str());
    let seen = cursor.ask(Request::Stat(dir.duplicate()))?;
    if seen.meta().is_none() {
        return Ok(BackupResult::failed(concat2("Backup not found: ", backup_id.as_str())));
    }
    let removed = cursor.ask(apply_one(FsOp::RemoveDirAll(dir)))?;
    match removed.outcome() {
        Err(e) => Ok(BackupResult::failed(concat2("Failed to delete backup: ", e.as_str()))),
        Ok(_) => Ok(BackupResult::done(Some(backup_id))),
    }
}

/// How measuring the store goes: nothing where the application data directory
/// is unknown or the store has no root yet; else the bytes in the regular
/// files under the root.
pub open spec fn size_flow(history: Seq<ReplyView>, at: int) -> Flow<u64> {
    match reply_at(history, at) {
        None => Flow::Ask(RequestView::LocalAppData),
        Some(env) => match env.text() {
            None => Flow::Done { value: 0, next: at + 1 },
            Some(app_data) => {
                let root = backup_root(app_data);
                match reply_at(history, at + 1) {
                    None => Flow::Ask(RequestView::Stat(root)),
                    Some(seen) => if seen.meta() is None {
                        Flow::Done { value: 0, next: at + 2 }
                    } else {
                        match reply_at(history, at + 2) {
                            None => Flow::Ask(RequestView::Walk(root)),
                            Some(walked) => Flow::Done {
                                value: recorded_size(total_size(walked.entries())),
                                next: at + 3,
                            },
                        }
                    },
                }
            },
        },
    }
}

/// The bytes all backups take together: the next request for the host, or
/// the number.
pub fn get_backup_size(history: &Vec<Reply>) -> (step: Step<u64>)
    ensures
        step.deep_view() == size_flow(history.deep_view(), 0).step(),
{
    let mut cursor = Cursor::start(history);
    report(size_from(&mut cursor))
}

fn size_from(cursor: &mut Cursor) -> (out: Result<u64, Request>)
    ensures
        agrees(out, final(cursor).at, size_flow(old(cursor).history.deep_view(), old(cursor).at as int)),
{
    let env = cursor.ask(Request::LocalAppData)?;
    let app_data = match env.text() {
        Some(text) => text,
        None => {
            return Ok(0);
        },
    };
    let root = get_backup_dir(app_data.as_str());
    let seen = cursor.ask(Request::Stat(root.duplicate()))?;
    if seen.meta().is_none() {
        return Ok(0);
    }
    let walked = cursor.ask(Request::Walk(root))?;
    Ok(walked_size(walked))
}

/// How clearing the store goes. It fails where the application data directory
/// is unknown and where the root cannot be removed; a store without a root is
/// clear already.
pub open spec fn clear_flow(history: Seq<ReplyView>, at: int) -> Flow<BackupResultView> {
    match reply_at(history, at) {
        None => Flow::Ask(RequestView::LocalAppData),
        Some(env) => match env.text() {
            None => Flow::Done {
                value: BackupResultView::failed("Could not determine backup directory"@),
                next: at + 1,
            },
            Some(app_data) => {
                let root = backup_root(app_data);
                match reply_at(history, at + 1) {
                    None => Flow::Ask(RequestView::Stat(root)),
                    Some(seen) => if seen.meta() is None {
                        Flow::Done { value: BackupResultView::done(None), next: at + 2 }
                    } else {
                        match reply_at(history, at + 2) {
                            None => Flow::Ask(RequestView::Apply(seq![OpView::RemoveDirAll(root)])),
                            Some(removed) => match removed.outcome() {
                                Err(e) => Flow::Done {
                                    value: BackupResultView::failed(
                                        "Failed to clear backups: "@ + e,
                                    ),
                                    next: at + 3,
                                },
                                Ok(_) => Flow::Done {
                                    value: BackupResultView::done(None),
                                    next: at + 3,
                                },
                            },
                        }
                    },
                }
            },
        },
    }
}

/// Removes every backup: the next request for the host, or how it ended.
pub fn clear_all_backups(history: &Vec<Reply>) -> (step: Step<BackupResult>)
    ensures
        step.deep_view() == clear_flow(history.deep_view(), 0).step(),
{
    let mut cursor = Cursor::start(history);
    report(clear_from(&mut cursor))
}

fn clear_from(cursor: &mut Cursor) -> (out: Result<BackupResult, Request>)
    ensures
        agrees(
            out,
            final(cursor).at,
            clear_flow(old(cursor).history.deep_view(), old(cursor).at as int),
        ),
{
    let env = cursor.ask(Request::LocalAppData)?;
    let app_data = match env.text() {
        Some(text) => text,
        None => {
            return Ok(
                BackupResult::failed(String::from_str("Could not determine backup directory")),
            );
        },
    };
    let root = get_backup_dir(app_data.as_str());
    let seen = cursor.ask(Request::Stat(root.duplicate()))?;
    if seen.meta().is_none() {
        return Ok(BackupResult::done(None));
    }
    let removed = cursor.ask(apply_one(FsOp::RemoveDirAll(root)))?;
    match removed.outcome() {
        Err(e) => Ok(BackupResult::failed(concat2("Failed to clear backups: ", e.as_str()))),
        Ok(_) => Ok(BackupResult::done(None)),
    }
}

/// Restores the backup `backup_id`; the same as `restore_backup`.
pub fn restore_version_backup(backup_id: String, history: &Vec<Reply>) -> (step: Step<RestoreResult>)
    ensures
        step.deep_view() == restore_flow(backup_id@, history.deep_view(), 0).step(),
{
    restore_backup(backup_id.as_str(), history)
}

} // verus!
