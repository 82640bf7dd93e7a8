//! The operations driven against a disk held in memory: a host that answers
//! every request from a map of places.

use cc_version_guard::backup::{
    create_backup, delete_backup, get_backup_size, list_backups, restore_backup,
};
use cc_version_guard::host::{Entry, FileMeta, Listing, Location};
use cc_version_guard::paths::{InstallProbe, RootProbe};
use cc_version_guard::protector::{
    apply_protection, apply_protection_with_options, check_protection_status, delete_versions,
    remove_protection, run_full_protection, ProtectionParams,
};
use cc_version_guard::protocol::{FsOp, Reply, Request, Step};
use cc_version_guard::records::{BackupMetadata, MetadataFault};
use std::collections::BTreeMap;

type Key = (String, Vec<String>);

#[derive(Debug, Clone, PartialEq)]
enum Node {
    Dir,
    File { text: String, readonly: bool, record: Option<BackupMetadata> },
}

struct Disk {
    nodes: BTreeMap<Key, Node>,
    app_data: Option<String>,
    now: u64,
    registry: Vec<String>,
    denied: Vec<Key>,
    running: bool,
    warnings: Vec<String>,
}

fn key(place: &Location) -> Key {
    (place.base.clone(), place.parts.clone())
}

fn within(k: &Key, root: &Key) -> bool {
    k.0 == root.0 && k.1.len() >= root.1.len() && k.1[..root.1.len()] == root.1[..]
}

impl Disk {
    fn new(app_data: &str) -> Disk {
        Disk {
            nodes: BTreeMap::new(),
            app_data: Some(app_data.to_string()),
            now: 1_700_000_000,
            registry: Vec::new(),
            denied: Vec::new(),
            running: false,
            warnings: Vec::new(),
        }
    }

    fn dir(&mut self, base: &str, parts: &[&str]) {
        let parts: Vec<String> = parts.iter().map(|p| p.to_string()).collect();
        for n in 0..=parts.len() {
            self.nodes.entry((base.to_string(), parts[..n].to_vec())).or_insert(Node::Dir);
        }
    }

    fn file(&mut self, base: &str, parts: &[&str], text: &str) {
        self.dir(base, &parts[..parts.len() - 1]);
        let parts: Vec<String> = parts.iter().map(|p| p.to_string()).collect();
        self.nodes.insert(
            (base.to_string(), parts),
            Node::File { text: text.to_string(), readonly: false, record: None },
        );
    }

    fn text_at(&self, base: &str, parts: &[&str]) -> Option<String> {
        let parts: Vec<String> = parts.iter().map(|p| p.to_string()).collect();
        match self.nodes.get(&(base.to_string(), parts)) {
            Some(Node::File { text, .. }) => Some(text.clone()),
            _ => None,
        }
    }

    fn files_under(&self, base: &str, parts: &[&str]) -> Vec<(Vec<String>, String)> {
        let root: Key = (base.to_string(), parts.iter().map(|p| p.to_string()).collect());
        let mut out = Vec::new();
        for (k, node) in self.nodes.iter() {
            if within(k, &root) {
                if let Node::File { text, .. } = node {
                    out.push((k.1[root.1.len()..].to_vec(), text.clone()));
                }
            }
        }
        out
    }

    fn meta(&self, k: &Key) -> Option<FileMeta> {
        match self.nodes.get(k) {
            None => None,
            Some(Node::Dir) => Some(FileMeta { is_dir: true, len: 0, readonly: false }),
            Some(Node::File { text, readonly, .. }) => {
                Some(FileMeta { is_dir: false, len: text.len() as u64, readonly: *readonly })
            }
        }
    }

    fn make_dirs(&mut self, k: &Key) -> Result<(), String> {
        for n in 0..=k.1.len() {
            let above: Key = (k.0.clone(), k.1[..n].to_vec());
            if self.denied.contains(&above) {
                return Err("Access is denied.".to_string());
            }
            match self.nodes.get(&above) {
                Some(Node::File { .. }) => return Err("Not a directory".to_string()),
                Some(Node::Dir) => {}
                None => {
                    self.nodes.insert(above, Node::Dir);
                }
            }
        }
        Ok(())
    }

    fn change(&mut self, op: &FsOp) -> Result<(), String> {
        match op {
            FsOp::CreateDirAll(p) => self.make_dirs(&key(p)),
            FsOp::CreateParentDirs(p) => {
                let k = key(p);
                if k.1.is_empty() {
                    Ok(())
                } else {
                    self.make_dirs(&(k.0.clone(), k.1[..k.1.len() - 1].to_vec()))
                }
            }
            FsOp::CopyFile { from, to } => match self.nodes.get(&key(from)).cloned() {
                Some(Node::File { text, readonly, record }) => {
                    self.nodes.insert(key(to), Node::File { text, readonly, record });
                    Ok(())
                }
                _ => Err("The system cannot find the file specified.".to_string()),
            },
            FsOp::WriteText { to, text } => {
                let k = key(to);
                if self.denied.contains(&k) {
                    return Err("Access is denied.".to_string());
                }
                match self.nodes.get(&k) {
                    Some(Node::Dir) => Err("Is a directory".to_string()),
                    Some(Node::File { readonly: true, .. }) => Err("Access is denied.".to_string()),
                    _ => {
                        self.nodes.insert(
                            k,
                            Node::File { text: text.clone(), readonly: false, record: None },
                        );
                        Ok(())
                    }
                }
            }
            FsOp::WriteRecord { to, record } => {
                let k = key(to);
                if self.denied.contains(&k) {
                    return Err("Access is denied.".to_string());
                }
                self.nodes.insert(
                    k,
                    Node::File {
                        text: format!("{:?}", record),
                        readonly: false,
                        record: Some(record.clone()),
                    },
                );
                Ok(())
            }
            FsOp::RemoveFile(p) => match self.nodes.get(&key(p)) {
                Some(Node::File { readonly: false, .. }) => {
                    self.nodes.remove(&key(p));
                    Ok(())
                }
                Some(Node::File { .. }) => Err("Access is denied.".to_string()),
                _ => Err("The system cannot find the file specified.".to_string()),
            },
            FsOp::RemoveDirAll(p) => {
                let root = key(p);
                if self.denied.contains(&root) {
                    return Err("Access is denied.".to_string());
                }
                match self.nodes.get(&root) {
                    Some(Node::Dir) => {}
                    _ => return Err("The system cannot find the path specified.".to_string()),
                }
                let gone: Vec<Key> =
                    self.nodes.keys().filter(|k| within(k, &root)).cloned().collect();
                for k in gone {
                    self.nodes.remove(&k);
                }
                Ok(())
            }
            FsOp::ClearReadonly(p) => {
                let root = key(p);
                for (k, node) in self.nodes.iter_mut() {
                    if within(k, &root) {
                        if let Node::File { readonly, .. } = node {
                            *readonly = false;
                        }
                    }
                }
                Ok(())
            }
            FsOp::MarkReadonly(p) => {
                if let Some(Node::File { readonly, .. }) = self.nodes.get_mut(&key(p)) {
                    *readonly = true;
                }
                Ok(())
            }
        }
    }

    fn entries(&self, root: &Key, deep: bool) -> Listing {
        let mut out = Vec::new();
        for (k, node) in self.nodes.iter() {
            if !within(k, root) {
                continue;
            }
            let rel = k.1[root.1.len()..].to_vec();
            if !deep && rel.len() != 1 {
                continue;
            }
            out.push(match node {
                Node::Dir => Entry { rel, is_dir: true, is_file: false, len: Some(0) },
                Node::File { text, .. } => {
                    Entry { rel, is_dir: false, is_file: true, len: Some(text.len() as u64) }
                }
            });
        }
        Listing::new(out).unwrap()
    }

    fn probe(&self, root: Location, payload_dir: &str) -> RootProbe {
        let mut apps = key(&root);
        apps.1.push(payload_dir.to_string());
        RootProbe {
            exists: self.nodes.contains_key(&key(&root)),
            apps_exists: self.nodes.contains_key(&apps),
            root,
        }
    }

    fn perform(&mut self, request: Request) -> Reply {
        match request {
            Request::LocalAppData => Reply::Text(self.app_data.clone()),
            Request::Clock => Reply::Time(self.now),
            Request::LeafName(p) => Reply::Text(match p.parts.last() {
                Some(name) => Some(name.clone()),
                None => p.base.rsplit('\\').next().map(|s| s.to_string()),
            }),
            Request::ProbeInstall(plan) => {
                let registry = self
                    .registry
                    .iter()
                    .map(|path| {
                        self.probe(
                            Location { base: path.clone(), parts: Vec::new() },
                            &plan.payload_dir,
                        )
                    })
                    .collect();
                let default_root = self.app_data.clone().map(|base| {
                    self.probe(
                        Location { base, parts: vec![plan.root_dir.clone()] },
                        &plan.payload_dir,
                    )
                });
                Reply::Install(InstallProbe { registry, default_root })
            }
            Request::Stat(p) => Reply::Meta(self.meta(&key(&p))),
            Request::Walk(p) => Reply::Entries(self.entries(&key(&p), true)),
            Request::ListDir(p) => Reply::Entries(self.entries(&key(&p), false)),
            Request::ReadText(p) => Reply::Content(match self.nodes.get(&key(&p)) {
                Some(Node::File { text, .. }) => Ok(text.clone()),
                _ => Err("The system cannot find the file specified.".to_string()),
            }),
            Request::ReadRecord(p) => Reply::Record(match self.nodes.get(&key(&p)) {
                Some(Node::File { record: Some(r), .. }) => Ok(r.clone()),
                Some(Node::File { .. }) => {
                    Err(MetadataFault::Invalid("expected value at line 1 column 1".to_string()))
                }
                _ => Err(MetadataFault::Unreadable(
                    "The system cannot find the file specified.".to_string(),
                )),
            }),
            Request::Apply(ops) => {
                for op in ops.iter() {
                    if let Err(e) = self.change(op) {
                        return Reply::Outcome(Err(e));
                    }
                }
                Reply::Outcome(Ok(()))
            }
            Request::Warn(text) => {
                self.warnings.push(text);
                Reply::Outcome(Ok(()))
            }
            Request::ProcessRunning(_) => Reply::Flag(self.running),
            Request::Megabytes(bytes) => {
                Reply::Text(Some(format!("{}.{}", bytes / 1_048_576, bytes % 1_048_576 * 10 / 1_048_576)))
            }
            _ => Reply::Outcome(Err("not available here".to_string())),
        }
    }

    fn run<T>(&mut self, operation: impl Fn(&Vec<Reply>) -> Step<T>) -> T {
        let mut history: Vec<Reply> = Vec::new();
        loop {
            match operation(&history) {
                Step::Done(value) => return value,
                Step::Ask(request) => {
                    assert!(history.len() < 10_000, "the operation does not end");
                    let reply = self.perform(request);
                    history.push(reply);
                }
            }
        }
    }
}

const LOCAL: &str = "C:\\Users\\me\\AppData\\Local";
const VERSION: &str = "D:\\CapCut\\Apps\\4.5.0.1234";

fn installed() -> Disk {
    let mut disk = Disk::new(LOCAL);
    disk.dir(LOCAL, &["CapCut", "Apps"]);
    disk.file(LOCAL, &["CapCut", "Apps", "configure.ini"], "lang=en\nlast_version=5.1.0.99\ntheme=dark");
    disk.file(LOCAL, &["CapCut", "Apps", "ProductInfo.xml"], "<product/>");
    disk
}

#[test]
fn backup_then_restore_brings_every_file_back() {
    let mut disk = Disk::new(LOCAL);
    disk.file(VERSION, &["CapCut.exe"], "program");
    disk.file(VERSION, &["Resources", "a.dat"], "aaaa");
    disk.file(VERSION, &["Resources", "deep", "b.dat"], "bb");
    disk.dir(VERSION, &["Empty"]);
    let before = disk.files_under(VERSION, &[]);
    assert_eq!(before.len(), 3);

    let made = disk.run(|h| create_backup(VERSION, "pre-delete snapshot", h));
    assert!(made.success);
    assert_eq!(made.error, None);
    let id = made.backup_id.unwrap();
    assert_eq!(id, "4.5.0.1234_1700000000");

    let gone = disk.change(&FsOp::RemoveDirAll(Location { base: VERSION.to_string(), parts: vec![] }));
    assert_eq!(gone, Ok(()));
    assert_eq!(disk.files_under(VERSION, &[]).len(), 0);

    let restored = disk.run(|h| restore_backup(&id, h));
    assert!(restored.success);
    assert_eq!(restored.restored_path, Some(VERSION.to_string()));
    assert_eq!(disk.files_under(VERSION, &[]), before);
}

#[test]
fn restore_leaves_out_only_the_metadata_file_of_the_backup() {
    let mut disk = Disk::new(LOCAL);
    disk.file(VERSION, &["CapCut.exe"], "program");
    disk.file(VERSION, &["sub", "_backup_metadata.json"], "not ours");
    let made = disk.run(|h| create_backup(VERSION, "pre-delete snapshot", h));
    let id = made.backup_id.unwrap();
    assert!(disk
        .text_at(LOCAL, &["CCVersionGuard", "Backups", &id, "_backup_metadata.json"])
        .is_some());
    disk.change(&FsOp::RemoveDirAll(Location { base: VERSION.to_string(), parts: vec![] })).unwrap();
    let restored = disk.run(|h| restore_backup(&id, h));
    assert!(restored.success);
    let files = disk.files_under(VERSION, &[]);
    assert_eq!(
        files,
        vec![
            (vec!["CapCut.exe".to_string()], "program".to_string()),
            (vec!["sub".to_string(), "_backup_metadata.json".to_string()], "not ours".to_string()),
        ]
    );
    assert_eq!(disk.text_at(VERSION, &["_backup_metadata.json"]), None);
}

#[test]
fn deleting_a_version_records_why_it_was_backed_up() {
    let mut disk = installed();
    disk.file(VERSION, &["CapCut.exe"], "program");
    let result = disk.run(|h| delete_versions(vec![VERSION.to_string()], h));
    assert!(result.success);
    let list = disk.run(|h| list_backups(h));
    assert_eq!(list.len(), 1);
    assert_eq!(list[0].reason, "pre-delete snapshot");
    assert_eq!(list[0].version_name, "4.5.0.1234");
    assert_eq!(list[0].original_path, VERSION);
}

#[test]
fn deleting_a_backup_never_reaches_outside_the_store() {
    let mut disk = Disk::new(LOCAL);
    disk.file(VERSION, &["CapCut.exe"], "program");
    disk.file(LOCAL, &["keep.txt"], "mine");
    let made = disk.run(|h| create_backup(VERSION, "pre-delete snapshot", h));
    let id = made.backup_id.unwrap();
    let before = disk.nodes.clone();
    for bad in ["", ".", "..", "..\\..", "a/b", "C:\\Users", VERSION] {
        let result = disk.run(|h| delete_backup(bad.to_string(), h));
        assert!(!result.success);
        assert_eq!(result.backup_id, None);
        assert_eq!(result.error, Some(format!("Backup not found: {}", bad)));
        assert_eq!(disk.nodes, before);
    }
    let result = disk.run(|h| delete_backup(id.clone(), h));
    assert!(result.success);
    assert_eq!(result.backup_id, Some(id));
    assert_eq!(disk.text_at(LOCAL, &["keep.txt"]), Some("mine".to_string()));
    assert_eq!(disk.files_under(LOCAL, &["CCVersionGuard", "Backups"]).len(), 0);
}

#[test]
fn backup_records_name_path_time_size_and_reason() {
    let mut disk = Disk::new(LOCAL);
    disk.file(VERSION, &["CapCut.exe"], "program");
    disk.file(VERSION, &["Resources", "a.dat"], "aaaa");
    disk.now = 42;
    let made = disk.run(|h| create_backup(VERSION, "why not", h));
    assert_eq!(made.backup_id, Some("4.5.0.1234_42".to_string()));
    let list = disk.run(|h| list_backups(h));
    assert_eq!(
        list,
        vec![BackupMetadata {
            version_name: "4.5.0.1234".to_string(),
            original_path: VERSION.to_string(),
            created_at: 42,
            size_bytes: 11,
            reason: "why not".to_string(),
        }]
    );
    assert!(disk.run(|h| get_backup_size(h)) >= 11);
}

#[test]
fn backup_succeeds_though_the_metadata_cannot_be_written() {
    let mut disk = Disk::new(LOCAL);
    disk.file(VERSION, &["CapCut.exe"], "program");
    disk.now = 7;
    disk.denied.push((
        LOCAL.to_string(),
        vec![
            "CCVersionGuard".to_string(),
            "Backups".to_string(),
            "4.5.0.1234_7".to_string(),
            "_backup_metadata.json".to_string(),
        ],
    ));
    let made = disk.run(|h| create_backup(VERSION, "pre-delete snapshot", h));
    assert!(made.success);
    assert_eq!(made.backup_id, Some("4.5.0.1234_7".to_string()));
    assert_eq!(disk.warnings, vec!["Warning: Could not save metadata: Access is denied.".to_string()]);
    assert_eq!(disk.run(|h| list_backups(h)), vec![]);
}

#[test]
fn backup_of_a_missing_directory_fails() {
    let mut disk = Disk::new(LOCAL);
    let made = disk.run(|h| create_backup(VERSION, "pre-delete snapshot", h));
    assert!(!made.success);
    assert_eq!(made.backup_id, None);
    assert_eq!(made.error, Some("Failed to copy directory: Source is not a directory".to_string()));
}

#[test]
fn status_follows_the_blocker_file() {
    let mut disk = installed();
    let applied = disk.run(|h| apply_protection_with_options(false, true, h));
    assert!(applied.success);
    let first = disk.run(|h| check_protection_status(h));
    assert!(first.blockers_exist);
    assert!(first.is_protected);
    assert!(!first.config_locked);
    assert_eq!(disk.run(|h| check_protection_status(h)), first);

    let apps = vec!["CapCut".to_string(), "Apps".to_string()];
    let mut marker = apps.clone();
    marker.push("ProductInfo.xml".to_string());
    disk.nodes.remove(&(LOCAL.to_string(), marker));
    let updater = vec![
        "CapCut".to_string(),
        "User Data".to_string(),
        "Download".to_string(),
        "update.exe".to_string(),
    ];
    disk.nodes.remove(&(LOCAL.to_string(), updater));

    let second = disk.run(|h| check_protection_status(h));
    assert!(!second.blockers_exist);
    assert_eq!(second.config_locked, first.config_locked);
    assert!(!second.is_protected);
}

#[test]
fn apply_then_remove_leaves_nothing_protected() {
    let mut disk = installed();
    let applied = disk.run(|h| apply_protection(h));
    assert!(applied.success);
    assert_eq!(
        applied.logs,
        vec![
            "Modifying config...".to_string(),
            "[OK] Configuration locked".to_string(),
            "Creating blockers...".to_string(),
            "[OK] Update blockers created".to_string(),
        ]
    );
    assert_eq!(
        disk.text_at(LOCAL, &["CapCut", "Apps", "configure.ini"]),
        Some("lang=en\nlast_version=1.0.0.0\ntheme=dark".to_string())
    );
    assert_eq!(disk.text_at(LOCAL, &["CapCut", "Apps", "ProductInfo.xml"]), Some(String::new()));
    let status = disk.run(|h| check_protection_status(h));
    assert!(status.is_protected && status.config_locked && status.blockers_exist);

    let removed = disk.run(|h| remove_protection(h));
    assert!(removed.success);
    assert_eq!(
        removed.logs,
        vec![
            "Removing ProductInfo.xml blocker...".to_string(),
            "[OK] ProductInfo.xml blocker removed".to_string(),
            "Removing update.exe blocker...".to_string(),
            "[OK] update.exe blocker removed".to_string(),
            "Resetting configure.ini...".to_string(),
            "[OK] configure.ini reset".to_string(),
            "[OK] Protection removed - CapCut can now auto-update".to_string(),
        ]
    );
    let after = disk.run(|h| check_protection_status(h));
    assert!(!after.is_protected);
    assert!(!after.config_locked);
    assert!(!after.blockers_exist);
    assert_eq!(
        disk.text_at(LOCAL, &["CapCut", "Apps", "configure.ini"]),
        Some("lang=en\ntheme=dark".to_string())
    );
}

#[test]
fn blocker_replaces_a_directory_in_its_way() {
    let mut disk = installed();
    disk.dir(LOCAL, &["CapCut", "User Data", "Download", "update.exe", "junk"]);
    let applied = disk.run(|h| apply_protection_with_options(false, true, h));
    assert!(applied.success);
    assert_eq!(
        disk.meta(&(
            LOCAL.to_string(),
            vec![
                "CapCut".to_string(),
                "User Data".to_string(),
                "Download".to_string(),
                "update.exe".to_string()
            ]
        )),
        Some(FileMeta { is_dir: false, len: 0, readonly: true })
    );
}

#[test]
fn deletion_goes_on_when_the_backup_root_is_denied() {
    let mut disk = installed();
    disk.file(VERSION, &["CapCut.exe"], "program");
    disk.denied.push((LOCAL.to_string(), vec!["CCVersionGuard".to_string()]));
    let result = disk.run(|h| delete_versions(vec![VERSION.to_string()], h));
    assert!(result.success);
    assert_eq!(result.error, None);
    assert_eq!(
        result.logs,
        vec![
            "Backing up: 4.5.0.1234".to_string(),
            "[!] Backup failed: Failed to create backup directory: Access is denied.".to_string(),
            "[!] Proceeding with deletion (backup unavailable)".to_string(),
            "Deleting: 4.5.0.1234".to_string(),
            "[OK] Deleted 1 version(s)".to_string(),
            "[OK] Backups available for recovery".to_string(),
        ]
    );
    assert_eq!(disk.files_under(VERSION, &[]).len(), 0);
}

#[test]
fn deletion_goes_on_when_the_application_data_directory_is_unknown() {
    let other = "D:\\CapCut\\Apps\\5.0.0.1";
    let mut disk = installed();
    disk.file(VERSION, &["CapCut.exe"], "program");
    disk.file(VERSION, &["Resources", "a.dat"], "data");
    disk.file(other, &["CapCut.exe"], "program");
    disk.app_data = None;
    let result = disk.run(|h| delete_versions(vec![VERSION.to_string(), other.to_string()], h));
    assert!(result.success);
    assert_eq!(result.error, None);
    assert_eq!(
        result.logs,
        vec![
            "Backing up: 4.5.0.1234".to_string(),
            "[!] Backup failed: Could not determine backup directory".to_string(),
            "[!] Proceeding with deletion (backup unavailable)".to_string(),
            "Deleting: 4.5.0.1234".to_string(),
            "Backing up: 5.0.0.1".to_string(),
            "[!] Backup failed: Could not determine backup directory".to_string(),
            "[!] Proceeding with deletion (backup unavailable)".to_string(),
            "Deleting: 5.0.0.1".to_string(),
            "[OK] Deleted 2 version(s)".to_string(),
            "[OK] Backups available for recovery".to_string(),
        ]
    );
    assert!(result.logs.iter().all(|line| !line.starts_with("[OK] Backup created")));
    assert_eq!(disk.meta(&(VERSION.to_string(), Vec::new())), None);
    assert_eq!(disk.meta(&(other.to_string(), Vec::new())), None);
    assert_eq!(disk.files_under(VERSION, &[]).len(), 0);
    assert_eq!(disk.files_under(other, &[]).len(), 0);
}

#[test]
fn deletion_stops_at_the_directory_that_cannot_be_removed() {
    let mut disk = installed();
    disk.file(VERSION, &["CapCut.exe"], "program");
    disk.file("D:\\CapCut\\Apps\\5.0.0.1", &["CapCut.exe"], "program");
    disk.denied.push((VERSION.to_string(), vec![]));
    let result = disk.run(|h| {
        delete_versions(vec![VERSION.to_string(), "D:\\CapCut\\Apps\\5.0.0.1".to_string()], h)
    });
    assert!(!result.success);
    assert_eq!(result.error, Some("Failed to delete 4.5.0.1234: Access is denied.".to_string()));
    assert_eq!(
        result.logs,
        vec![
            "Backing up: 4.5.0.1234".to_string(),
            "[OK] Backup created: 4.5.0.1234_1700000000".to_string(),
            "Deleting: 4.5.0.1234".to_string(),
        ]
    );
    assert_eq!(disk.files_under("D:\\CapCut\\Apps\\5.0.0.1", &[]).len(), 1);
}

#[test]
fn full_run_deletes_cleans_and_locks() {
    let mut disk = installed();
    disk.file(VERSION, &["CapCut.exe"], "program");
    disk.file(LOCAL, &["CapCut", "User Data", "Cache", "x.bin"], "0123456789");
    let result = disk.run(|h| {
        run_full_protection(
            ProtectionParams {
                versions_to_delete: vec![VERSION.to_string()],
                clean_cache: true,
                lock_config: true,
                create_blockers: true,
            },
            h,
        )
    });
    assert!(result.success);
    assert_eq!(
        result.logs,
        vec![
            "Checking system state...".to_string(),
            "[OK] No running instances".to_string(),
            "Backing up: 4.5.0.1234".to_string(),
            "[OK] Backup created: 4.5.0.1234_1700000000".to_string(),
            "Deleting: 4.5.0.1234".to_string(),
            "[OK] Deleted 1 version(s)".to_string(),
            "[OK] Backups available for recovery".to_string(),
            "Cleaning cache directories...".to_string(),
            "Cleaning: Cache (0.0 MB)".to_string(),
            "[OK] Cleaned 0.0 MB of cache".to_string(),
            "Modifying config...".to_string(),
            "[OK] Configuration locked".to_string(),
            "Creating blockers...".to_string(),
            "[OK] Update blockers created".to_string(),
        ]
    );
    assert!(disk.run(|h| check_protection_status(h)).is_protected);
    assert_eq!(disk.files_under(LOCAL, &["CapCut", "User Data", "Cache"]).len(), 0);
}

#[test]
fn full_run_refuses_while_the_application_runs() {
    let mut disk = installed();
    disk.running = true;
    disk.file(VERSION, &["CapCut.exe"], "program");
    let result = disk.run(|h| {
        run_full_protection(
            ProtectionParams {
                versions_to_delete: vec![VERSION.to_string()],
                clean_cache: false,
                lock_config: true,
                create_blockers: true,
            },
            h,
        )
    });
    assert!(!result.success);
    assert_eq!(result.error, Some("CapCut is still running. Please close it.".to_string()));
    assert_eq!(result.logs, vec!["Checking system state...".to_string()]);
    assert_eq!(disk.files_under(VERSION, &[]).len(), 1);
}

#[test]
fn without_an_install_every_operation_reports_it() {
    let mut disk = Disk::new(LOCAL);
    let applied = disk.run(|h| apply_protection(h));
    assert!(!applied.success);
    assert_eq!(applied.error, Some("Could not find CapCut installation".to_string()));
    assert_eq!(applied.logs, Vec::<String>::new());
    let removed = disk.run(|h| remove_protection(h));
    assert!(!removed.success);
    assert_eq!(removed.error, Some("Could not find CapCut installation".to_string()));
    let status = disk.run(|h| check_protection_status(h));
    assert!(!status.is_protected && !status.config_locked && !status.blockers_exist);
}

#[test]
fn registry_install_is_protected_rather_than_the_default_one() {
    let mut disk = installed();
    disk.dir("E:\\Video\\CapCut", &["Apps"]);
    disk.registry.push("E:\\Video\\CapCut".to_string());
    let applied = disk.run(|h| apply_protection(h));
    assert!(applied.success);
    assert_eq!(
        disk.text_at("E:\\Video\\CapCut", &["Apps", "configure.ini"]),
        Some("last_version=1.0.0.0".to_string())
    );
    assert_eq!(
        disk.text_at(LOCAL, &["CapCut", "Apps", "configure.ini"]),
        Some("lang=en\nlast_version=5.1.0.99\ntheme=dark".to_string())
    );
}
