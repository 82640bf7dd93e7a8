//! The records a backup leaves behind and the results the backup store
//! reports.

use crate::text::decimal;
use vstd::prelude::*;
use vstd::string::*;

verus! {

/// The name of the metadata file that lies inside each backup directory.
pub open spec fn sidecar_name() -> Seq<char> {
    "_backup_metadata.json"@
}

/// What is recorded about a backup, beside the copied tree.
#[derive(Debug, Clone, PartialEq, Eq)]
pub struct BackupMetadata {
    /// The name of the version directory that was copied.
    pub version_name: String,
    /// Where the directory stood before the backup.
    pub original_path: String,
    /// When the backup was made, in seconds since the epoch.
    pub created_at: u64,
    /// The bytes in the regular files of the copy.
    pub size_bytes: u64,
    /// Why the backup was made.
    pub reason: String,
}

/// A `BackupMetadata` as plain sequences.
pub struct BackupRecord {
    pub version_name: Seq<char>,
    pub original_path: Seq<char>,
    pub created_at: u64,
    pub size_bytes: u64,
    pub reason: Seq<char>,
}

impl DeepView for BackupMetadata {
    type V = BackupRecord;

    open spec fn deep_view(&self) -> BackupRecord {
        BackupRecord {
            version_name: self.version_name@,
            original_path: self.original_path@,
            created_at: self.created_at,
            size_bytes: self.size_bytes,
            reason: self.reason@,
        }
    }
}

impl BackupMetadata {
    /// A copy of this record.
    pub fn duplicate(&self) -> (out: BackupMetadata)
        ensures
            out.deep_view() == self.deep_view(),
    {
        BackupMetadata {
            version_name: self.version_name.clone(),
            original_path: self.original_path.clone(),
            created_at: self.created_at,
            size_bytes: self.size_bytes,
            reason: self.reason.clone(),
        }
    }
}

/// The name of the directory that holds the backup of `version_name` made at
/// `created_at`: the name, an underscore, and the time in decimal.
pub open spec fn identity_key(version_name: Seq<char>, created_at: u64) -> Seq<char> {
    version_name + "_"@ + decimal(created_at as nat)
}

impl BackupRecord {
    /// The name of the directory that holds this backup.
    pub open spec fn key(self) -> Seq<char> {
        identity_key(self.version_name, self.created_at)
    }
}

/// Why the metadata of a backup could not be had.
#[derive(Debug, Clone, PartialEq, Eq)]
pub enum MetadataFault {
    /// The file could not be read; the host's message.
    Unreadable(String),
    /// The file was read and does not hold a record; the parser's message.
    Invalid(String),
}

/// A `MetadataFault` as plain sequences.
pub enum FaultView {
    Unreadable(Seq<char>),
    Invalid(Seq<char>),
}

impl DeepView for MetadataFault {
    type V = FaultView;

    open spec fn deep_view(&self) -> FaultView {
        match self {
            MetadataFault::Unreadable(e) => FaultView::Unreadable(e@),
            MetadataFault::Invalid(e) => FaultView::Invalid(e@),
        }
    }
}

impl MetadataFault {
    /// A copy of this fault.
    pub fn duplicate(&self) -> (out: MetadataFault)
        ensures
            out.deep_view() == self.deep_view(),
    {
        match self {
            MetadataFault::Unreadable(e) => MetadataFault::Unreadable(e.clone()),
            MetadataFault::Invalid(e) => MetadataFault::Invalid(e.clone()),
        }
    }
}

/// How creating or deleting a backup ended.
#[derive(Debug, Clone, PartialEq, Eq)]
pub struct BackupResult {
    pub success: bool,
    pub backup_id: Option<String>,
    pub error: Option<String>,
}

/// A `BackupResult` as plain sequences.
pub struct BackupResultView {
    pub success: bool,
    pub backup_id: Option<Seq<char>>,
    pub error: Option<Seq<char>>,
}

impl DeepView for BackupResult {
    type V = BackupResultView;

    open spec fn deep_view(&self) -> BackupResultView {
        BackupResultView {
            success: self.success,
            backup_id: self.backup_id.deep_view(),
            error: self.error.deep_view(),
        }
    }
}

impl BackupResultView {
    /// The result of a step that failed with `message`.
    pub open spec fn failed(message: Seq<char>) -> BackupResultView {
        BackupResultView { success: false, backup_id: None, error: Some(message) }
    }

    /// The result of an operation that went through, on the backup `id` where
    /// there is one.
    pub open spec fn done(id: Option<Seq<char>>) -> BackupResultView {
        BackupResultView { success: true, backup_id: id, error: None }
    }
}

impl BackupResult {
    /// The result of a step that failed with `message`.
    pub fn failed(message: String) -> (out: BackupResult)
        ensures
            out.deep_view() == BackupResultView::failed(message@),
    {
        BackupResult { success: false, backup_id: None, error: Some(message) }
    }

    /// The result of an operation that went through.
    pub fn done(id: Option<String>) -> (out: BackupResult)
        ensures
            out.deep_view() == BackupResultView::done(id.deep_view()),
    {
        BackupResult { success: true, backup_id: id, error: None }
    }
}

/// How restoring a backup ended.
#[derive(Debug, Clone, PartialEq, Eq)]
pub struct RestoreResult {
    pub success: bool,
    pub restored_path: Option<String>,
    pub error: Option<String>,
}

/// A `RestoreResult` as plain sequences.
pub struct RestoreResultView {
    pub success: bool,
    pub restored_path: Option<Seq<char>>,
    pub error: Option<Seq<char>>,
}

impl DeepView for RestoreResult {
    type V = RestoreResultView;

    open spec fn deep_view(&self) -> RestoreResultView {
        RestoreResultView {
            success: self.success,
            restored_path: self.restored_path.deep_view(),
            error: self.error.deep_view(),
        }
    }
}

impl RestoreResultView {
    /// The result of a step that failed with `message`.
    pub open spec fn failed(message: Seq<char>) -> RestoreResultView {
        RestoreResultView { success: false, restored_path: None, error: Some(message) }
    }

    /// The result of a restore that put the tree back at `path`.
    pub open spec fn done(path: Seq<char>) -> RestoreResultView {
        RestoreResultView { success: true, restored_path: Some(path), error: None }
    }
}

impl RestoreResult {
    /// The result of a step that failed with `message`.
    pub fn failed(message: String) -> (out: RestoreResult)
        ensures
            out.deep_view() == RestoreResultView::failed(message@),
    {
        RestoreResult { success: false, restored_path: None, error: Some(message) }
    }

    /// The result of a restore that put the tree back at `path`.
    pub fn done(path: String) -> (out: RestoreResult)
        ensures
            out.deep_view() == RestoreResultView::done(path@),
    {
        RestoreResult { success: true, restored_path: Some(path), error: None }
    }
}

} // verus!
