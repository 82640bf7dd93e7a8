use cc_version_guard::backup::{
    calc_dir_size, clear_all_backups, copy_dir_recursive, copy_dir_recursive_filtered, create_backup,
    delete_backup, get_backup_dir, get_backup_size, is_backup_name, list_backups, plan_copy,
    restore_backup, restore_version_backup, sort_newest_first,
};
use cc_version_guard::host::{Entry, FileMeta, Listing, Location};
use cc_version_guard::protocol::{FsOp, Reply, Request, Step};
use cc_version_guard::records::{BackupMetadata, BackupResult, MetadataFault, RestoreResult};

const LOCAL: &str = "C:\\Local";

fn under(base: &str, parts: &[&str]) -> Location {
    Location { base: base.to_string(), parts: parts.iter().map(|p| p.to_string()).collect() }
}

fn store(parts: &[&str]) -> Location {
    let mut all = vec!["CCVersionGuard", "Backups"];
    all.extend_from_slice(parts);
    under(LOCAL, &all)
}

fn record(name: &str, created_at: u64) -> BackupMetadata {
    BackupMetadata {
        version_name: name.to_string(),
        original_path: format!("D:\\Apps\\{}", name),
        created_at,
        size_bytes: 10,
        reason: "test".to_string(),
    }
}

fn dir(rel: &[&str]) -> Entry {
    Entry { rel: rel.iter().map(|p| p.to_string()).collect(), is_dir: true, is_file: false, len: None }
}

fn file(rel: &[&str], len: u64) -> Entry {
    Entry {
        rel: rel.iter().map(|p| p.to_string()).collect(),
        is_dir: false,
        is_file: true,
        len: Some(len),
    }
}

fn app_data() -> Reply {
    Reply::Text(Some(LOCAL.to_string()))
}

fn is_dir() -> Reply {
    Reply::Meta(Some(FileMeta { is_dir: true, len: 0, readonly: false }))
}

fn is_file() -> Reply {
    Reply::Meta(Some(FileMeta { is_dir: false, len: 3, readonly: false }))
}

fn absent() -> Reply {
    Reply::Meta(None)
}

fn ok() -> Reply {
    Reply::Outcome(Ok(()))
}

fn err(message: &str) -> Reply {
    Reply::Outcome(Err(message.to_string()))
}

fn listing(entries: Vec<Entry>) -> Reply {
    Reply::Entries(Listing::new(entries).unwrap())
}

fn backup_failed(message: &str) -> Step<BackupResult> {
    Step::Done(BackupResult { success: false, backup_id: None, error: Some(message.to_string()) })
}

fn restore_failed(message: &str) -> Step<RestoreResult> {
    Step::Done(RestoreResult { success: false, restored_path: None, error: Some(message.to_string()) })
}

#[test]
fn store_lies_under_the_application_data() {
    assert_eq!(get_backup_dir(LOCAL), store(&[]));
}

#[test]
fn list_returns_newest_first() {
    let history = vec![
        app_data(),
        is_dir(),
        listing(vec![dir(&["a_100"]), dir(&["b_200"]), dir(&["c_150"])]),
        Reply::Record(Ok(record("a", 100))),
        Reply::Record(Ok(record("b", 200))),
        Reply::Record(Ok(record("c", 150))),
    ];
    match list_backups(&history) {
        Step::Done(list) => {
            let times: Vec<u64> = list.iter().map(|r| r.created_at).collect();
            assert_eq!(times, vec![200, 150, 100]);
        }
        Step::Ask(_) => panic!("the history answers every request"),
    }
}

#[test]
fn list_passes_over_files_and_directories_without_a_record() {
    let entries = vec![dir(&["a_1"]), file(&["notes.txt"], 5), dir(&["broken"]), dir(&["b_2"])];
    let mut history = vec![app_data(), is_dir(), listing(entries)];
    assert_eq!(
        list_backups(&history),
        Step::Ask(Request::ReadRecord(store(&["a_1", "_backup_metadata.json"])))
    );
    history.push(Reply::Record(Ok(record("a", 1))));
    assert_eq!(
        list_backups(&history),
        Step::Ask(Request::ReadRecord(store(&["broken", "_backup_metadata.json"])))
    );
    history.push(Reply::Record(Err(MetadataFault::Unreadable("no such file".to_string()))));
    assert_eq!(
        list_backups(&history),
        Step::Ask(Request::ReadRecord(store(&["b_2", "_backup_metadata.json"])))
    );
    history.push(Reply::Record(Err(MetadataFault::Invalid("EOF".to_string()))));
    assert_eq!(list_backups(&history), Step::Done(vec![record("a", 1)]));
}

#[test]
fn list_is_empty_without_a_store() {
    assert_eq!(list_backups(&Vec::new()), Step::Ask(Request::LocalAppData));
    assert_eq!(list_backups(&vec![Reply::Text(None)]), Step::Done(Vec::new()));
    assert_eq!(list_backups(&vec![app_data()]), Step::Ask(Request::Stat(store(&[]))));
    assert_eq!(list_backups(&vec![app_data(), absent()]), Step::Done(Vec::new()));
    assert_eq!(list_backups(&vec![app_data(), is_dir()]), Step::Ask(Request::ListDir(store(&[]))));
    assert_eq!(list_backups(&vec![app_data(), is_dir(), err("denied")]), Step::Done(Vec::new()));
}

#[test]
fn records_of_the_same_time_keep_their_order() {
    let sorted = sort_newest_first(vec![record("a", 5), record("b", 7), record("c", 5), record("d", 7)]);
    let names: Vec<&str> = sorted.iter().map(|r| r.version_name.as_str()).collect();
    assert_eq!(names, vec!["b", "d", "a", "c"]);
    assert_eq!(sort_newest_first(Vec::new()), Vec::new());
}

#[test]
fn copy_plan_creates_directories_and_copies_files() {
    let src = Location::at("D:\\Apps\\4.5");
    let dst = store(&["4.5_9"]);
    let entries =
        vec![dir(&[]), file(&["a.exe"], 3), dir(&["res"]), file(&["res", "_backup_metadata.json"], 1)];
    let plan = plan_copy(&entries, &src, &dst, None);
    assert_eq!(
        plan,
        vec![
            FsOp::CreateDirAll(store(&["4.5_9"])),
            FsOp::CreateParentDirs(store(&["4.5_9", "a.exe"])),
            FsOp::CopyFile { from: under("D:\\Apps\\4.5", &["a.exe"]), to: store(&["4.5_9", "a.exe"]) },
            FsOp::CreateDirAll(store(&["4.5_9", "res"])),
            FsOp::CreateParentDirs(store(&["4.5_9", "res", "_backup_metadata.json"])),
            FsOp::CopyFile {
                from: under("D:\\Apps\\4.5", &["res", "_backup_metadata.json"]),
                to: store(&["4.5_9", "res", "_backup_metadata.json"])
            },
        ]
    );
    let name = "_backup_metadata.json".to_string();
    assert_eq!(plan_copy(&entries, &src, &dst, Some(&name)), plan);
    let mut with_sidecar = entries.clone();
    with_sidecar.insert(1, file(&["_backup_metadata.json"], 90));
    with_sidecar.push(dir(&["_backup_metadata.json", "x"]));
    let filtered = plan_copy(&with_sidecar, &src, &dst, Some(&name));
    let mut expected = plan.clone();
    expected.push(FsOp::CreateDirAll(store(&["4.5_9", "_backup_metadata.json", "x"])));
    assert_eq!(filtered, expected);
    assert_eq!(plan_copy(&with_sidecar, &src, &dst, None).len(), expected.len() + 2);
    assert_eq!(plan_copy(&Vec::new(), &src, &dst, None), Vec::new());
}

#[test]
fn names_that_are_no_backup_directory_are_refused_unasked() {
    for bad in ["", ".", "..", "a/b", "a\\b", "C:", "..\\x", "/"] {
        assert_eq!(
            delete_backup(bad.to_string(), &Vec::new()),
            backup_failed(&format!("Backup not found: {}", bad))
        );
        assert_eq!(
            restore_backup(bad, &Vec::new()),
            restore_failed(&format!("Backup not found: {}", bad))
        );
        assert!(!is_backup_name(bad));
    }
    for good in ["4.5.0_1234", "_7", "...", "a b", ".x"] {
        assert!(is_backup_name(good));
        assert_eq!(delete_backup(good.to_string(), &Vec::new()), Step::Ask(Request::LocalAppData));
        assert_eq!(restore_backup(good, &Vec::new()), Step::Ask(Request::LocalAppData));
    }
}

#[test]
fn copy_goes_through_four_requests() {
    let src = Location::at("D:\\Apps\\4.5");
    let dst = Location::at("E:\\copy");
    let mut history = Vec::new();
    assert_eq!(copy_dir_recursive(&src, &dst, &history), Step::Ask(Request::Stat(src.clone())));
    history.push(is_dir());
    assert_eq!(
        copy_dir_recursive(&src, &dst, &history),
        Step::Ask(Request::Apply(vec![FsOp::CreateDirAll(dst.clone())]))
    );
    history.push(ok());
    assert_eq!(copy_dir_recursive(&src, &dst, &history), Step::Ask(Request::Walk(src.clone())));
    history.push(listing(vec![dir(&[]), file(&["a"], 1)]));
    assert_eq!(
        copy_dir_recursive(&src, &dst, &history),
        Step::Ask(Request::Apply(vec![
            FsOp::CreateDirAll(dst.clone()),
            FsOp::CreateParentDirs(under("E:\\copy", &["a"])),
            FsOp::CopyFile { from: under("D:\\Apps\\4.5", &["a"]), to: under("E:\\copy", &["a"]) },
        ]))
    );
    history.push(ok());
    assert_eq!(copy_dir_recursive(&src, &dst, &history), Step::Done(None));
}

#[test]
fn copy_reports_the_step_that_failed() {
    let src = Location::at("D:\\Apps\\4.5");
    let dst = Location::at("E:\\copy");
    let not_a_dir = Step::Done(Some("Source is not a directory".to_string()));
    assert_eq!(copy_dir_recursive(&src, &dst, &vec![absent()]), not_a_dir);
    assert_eq!(copy_dir_recursive(&src, &dst, &vec![is_file()]), not_a_dir);
    assert_eq!(
        copy_dir_recursive(&src, &dst, &vec![is_dir(), err("denied")]),
        Step::Done(Some("denied".to_string()))
    );
    assert_eq!(
        copy_dir_recursive(&src, &dst, &vec![is_dir(), ok(), listing(vec![]), err("disk full")]),
        Step::Done(Some("disk full".to_string()))
    );
    let history = vec![is_dir(), ok(), listing(vec![file(&["skip.me"], 1), file(&["keep"], 1)])];
    assert_eq!(
        copy_dir_recursive_filtered(&src, &dst, "skip.me", &history),
        Step::Ask(Request::Apply(vec![
            FsOp::CreateParentDirs(under("E:\\copy", &["keep"])),
            FsOp::CopyFile { from: under("D:\\Apps\\4.5", &["keep"]), to: under("E:\\copy", &["keep"]) },
        ]))
    );
}

#[test]
fn create_asks_in_order_and_records_the_walked_size() {
    let path = "D:\\Apps\\4.5.0";
    let src = Location::at(path);
    let dst = store(&["4.5.0_1234"]);
    let mut history = Vec::new();
    assert_eq!(create_backup(path, "why", &history), Step::Ask(Request::LocalAppData));
    history.push(app_data());
    assert_eq!(
        create_backup(path, "why", &history),
        Step::Ask(Request::Apply(vec![FsOp::CreateDirAll(store(&[]))]))
    );
    history.push(ok());
    assert_eq!(create_backup(path, "why", &history), Step::Ask(Request::Clock));
    history.push(Reply::Time(1234));
    assert_eq!(create_backup(path, "why", &history), Step::Ask(Request::LeafName(src.clone())));
    history.push(Reply::Text(Some("4.5.0".to_string())));
    assert_eq!(create_backup(path, "why", &history), Step::Ask(Request::Stat(src.clone())));
    history.push(is_dir());
    assert_eq!(
        create_backup(path, "why", &history),
        Step::Ask(Request::Apply(vec![FsOp::CreateDirAll(dst.clone())]))
    );
    history.push(ok());
    assert_eq!(create_backup(path, "why", &history), Step::Ask(Request::Walk(src.clone())));
    history.push(listing(vec![dir(&[]), file(&["a"], 5)]));
    match create_backup(path, "why", &history) {
        Step::Ask(Request::Apply(ops)) => assert_eq!(ops.len(), 3),
        _ => panic!("expected the copy"),
    }
    history.push(ok());
    assert_eq!(create_backup(path, "why", &history), Step::Ask(Request::Walk(dst.clone())));
    history.push(listing(vec![dir(&[]), file(&["a"], 5), file(&["old"], 7), dir(&["d"])]));
    assert_eq!(
        create_backup(path, "why", &history),
        Step::Ask(Request::Apply(vec![FsOp::WriteRecord {
            to: store(&["4.5.0_1234", "_backup_metadata.json"]),
            record: BackupMetadata {
                version_name: "4.5.0".to_string(),
                original_path: path.to_string(),
                created_at: 1234,
                size_bytes: 12,
                reason: "why".to_string(),
            },
        }]))
    );
    history.push(err("read-only medium"));
    assert_eq!(
        create_backup(path, "why", &history),
        Step::Ask(Request::Warn("Warning: Could not save metadata: read-only medium".to_string()))
    );
    history.push(ok());
    assert_eq!(
        create_backup(path, "why", &history),
        Step::Done(BackupResult {
            success: true,
            backup_id: Some("4.5.0_1234".to_string()),
            error: None
        })
    );
}

#[test]
fn create_fails_with_the_message_of_the_step() {
    let path = "D:\\Apps\\4.5.0";
    assert_eq!(
        create_backup(path, "why", &vec![Reply::Text(None)]),
        backup_failed("Could not determine backup directory")
    );
    assert_eq!(
        create_backup(path, "why", &vec![app_data(), err("Access is denied.")]),
        backup_failed("Failed to create backup directory: Access is denied.")
    );
    let start = || vec![app_data(), ok(), Reply::Time(1), Reply::Text(None)];
    let mut history = start();
    history.push(is_file());
    assert_eq!(
        create_backup(path, "why", &history),
        backup_failed("Failed to copy directory: Source is not a directory")
    );
    let mut history = start();
    history.extend(vec![is_dir(), err("no space")]);
    assert_eq!(create_backup(path, "why", &history), backup_failed("Failed to copy directory: no space"));
    let mut history = start();
    history.extend(vec![is_dir(), ok(), listing(vec![]), err("sharing violation")]);
    assert_eq!(
        create_backup(path, "why", &history),
        backup_failed("Failed to copy directory: sharing violation")
    );
}

#[test]
fn a_path_without_a_name_gives_a_backup_named_by_the_time_alone() {
    let history = vec![app_data(), ok(), Reply::Time(99), Reply::Text(None), is_dir()];
    assert_eq!(
        create_backup("D:\\", "why", &history),
        Step::Ask(Request::Apply(vec![FsOp::CreateDirAll(store(&["_99"]))]))
    );
}

#[test]
fn restore_asks_in_order_and_clears_what_is_in_the_way() {
    let id = "4.5.0_1234";
    let dir_of = store(&[id]);
    let home = Location::at("D:\\Apps\\4.5.0");
    let mut history = Vec::new();
    assert_eq!(restore_backup(id, &history), Step::Ask(Request::LocalAppData));
    history.push(app_data());
    assert_eq!(restore_backup(id, &history), Step::Ask(Request::Stat(dir_of.clone())));
    history.push(is_dir());
    assert_eq!(
        restore_backup(id, &history),
        Step::Ask(Request::ReadRecord(store(&[id, "_backup_metadata.json"])))
    );
    history.push(Reply::Record(Ok(record("4.5.0", 1234))));
    assert_eq!(
        restore_backup(id, &history),
        Step::Ask(Request::Apply(vec![FsOp::CreateParentDirs(home.clone())]))
    );
    history.push(ok());
    assert_eq!(restore_backup(id, &history), Step::Ask(Request::Stat(home.clone())));
    history.push(is_dir());
    assert_eq!(
        restore_backup(id, &history),
        Step::Ask(Request::Apply(vec![
            FsOp::ClearReadonly(home.clone()),
            FsOp::RemoveDirAll(home.clone())
        ]))
    );
    history.push(ok());
    assert_eq!(restore_backup(id, &history), Step::Ask(Request::Stat(dir_of.clone())));
    history.push(is_dir());
    assert_eq!(
        restore_backup(id, &history),
        Step::Ask(Request::Apply(vec![FsOp::CreateDirAll(home.clone())]))
    );
    history.push(ok());
    assert_eq!(restore_backup(id, &history), Step::Ask(Request::Walk(dir_of.clone())));
    history.push(listing(vec![dir(&[]), file(&["_backup_metadata.json"], 90), file(&["a"], 5)]));
    assert_eq!(
        restore_backup(id, &history),
        Step::Ask(Request::Apply(vec![
            FsOp::CreateDirAll(home.clone()),
            FsOp::CreateParentDirs(under("D:\\Apps\\4.5.0", &["a"])),
            FsOp::CopyFile { from: store(&[id, "a"]), to: under("D:\\Apps\\4.5.0", &["a"]) },
        ]))
    );
    history.push(ok());
    let done = Step::Done(RestoreResult {
        success: true,
        restored_path: Some("D:\\Apps\\4.5.0".to_string()),
        error: None,
    });
    assert_eq!(restore_backup(id, &history), done);
    assert_eq!(restore_version_backup(id.to_string(), &history), done);
}

#[test]
fn restore_skips_the_removal_where_nothing_is_in_the_way() {
    let id = "4.5.0_1234";
    let history =
        vec![app_data(), is_dir(), Reply::Record(Ok(record("4.5.0", 1234))), ok(), absent()];
    assert_eq!(restore_backup(id, &history), Step::Ask(Request::Stat(store(&[id]))));
}

#[test]
fn restore_fails_with_the_message_of_the_step() {
    let id = "4.5.0_1234";
    assert_eq!(
        restore_backup(id, &vec![Reply::Text(None)]),
        restore_failed("Could not determine backup directory")
    );
    assert_eq!(
        restore_backup(id, &vec![app_data(), absent()]),
        restore_failed("Backup not found: 4.5.0_1234")
    );
    let unreadable = Reply::Record(Err(MetadataFault::Unreadable("gone".to_string())));
    assert_eq!(
        restore_backup(id, &vec![app_data(), is_dir(), unreadable]),
        restore_failed("Could not read metadata: gone")
    );
    let invalid = Reply::Record(Err(MetadataFault::Invalid("expected value".to_string())));
    assert_eq!(
        restore_backup(id, &vec![app_data(), is_dir(), invalid]),
        restore_failed("Invalid metadata: expected value")
    );
    let start = || vec![app_data(), is_dir(), Reply::Record(Ok(record("4.5.0", 1234)))];
    let mut history = start();
    history.push(err("denied"));
    assert_eq!(
        restore_backup(id, &history),
        restore_failed("Could not create parent directory: denied")
    );
    let mut history = start();
    history.extend(vec![ok(), is_dir(), err("in use")]);
    assert_eq!(
        restore_backup(id, &history),
        restore_failed("Could not remove existing directory: in use")
    );
    let mut history = start();
    history.extend(vec![ok(), absent(), is_file()]);
    assert_eq!(
        restore_backup(id, &history),
        restore_failed("Failed to restore: Source is not a directory")
    );
    let mut history = start();
    history.extend(vec![ok(), absent(), is_dir(), ok(), listing(vec![]), err("disk full")]);
    assert_eq!(restore_backup(id, &history), restore_failed("Failed to restore: disk full"));
}

#[test]
fn delete_removes_the_directory_of_the_backup() {
    let id = "4.5.0_1234".to_string();
    assert_eq!(delete_backup(id.clone(), &Vec::new()), Step::Ask(Request::LocalAppData));
    assert_eq!(
        delete_backup(id.clone(), &vec![Reply::Text(None)]),
        backup_failed("Could not determine backup directory")
    );
    assert_eq!(
        delete_backup(id.clone(), &vec![app_data()]),
        Step::Ask(Request::Stat(store(&["4.5.0_1234"])))
    );
    assert_eq!(
        delete_backup(id.clone(), &vec![app_data(), absent()]),
        backup_failed("Backup not found: 4.5.0_1234")
    );
    assert_eq!(
        delete_backup(id.clone(), &vec![app_data(), is_dir()]),
        Step::Ask(Request::Apply(vec![FsOp::RemoveDirAll(store(&["4.5.0_1234"]))]))
    );
    assert_eq!(
        delete_backup(id.clone(), &vec![app_data(), is_dir(), err("in use")]),
        backup_failed("Failed to delete backup: in use")
    );
    assert_eq!(
        delete_backup(id.clone(), &vec![app_data(), is_dir(), ok()]),
        Step::Done(BackupResult { success: true, backup_id: Some(id), error: None })
    );
}

#[test]
fn clearing_removes_the_root_of_the_store() {
    assert_eq!(
        clear_all_backups(&vec![Reply::Text(None)]),
        backup_failed("Could not determine backup directory")
    );
    let cleared = Step::Done(BackupResult { success: true, backup_id: None, error: None });
    assert_eq!(clear_all_backups(&vec![app_data(), absent()]), cleared);
    assert_eq!(
        clear_all_backups(&vec![app_data(), is_dir()]),
        Step::Ask(Request::Apply(vec![FsOp::RemoveDirAll(store(&[]))]))
    );
    assert_eq!(
        clear_all_backups(&vec![app_data(), is_dir(), err("in use")]),
        backup_failed("Failed to clear backups: in use")
    );
    assert_eq!(clear_all_backups(&vec![app_data(), is_dir(), ok()]), cleared);
}

#[test]
fn size_is_the_sum_of_the_regular_files() {
    assert_eq!(get_backup_size(&vec![Reply::Text(None)]), Step::Done(0));
    assert_eq!(get_backup_size(&vec![app_data(), absent()]), Step::Done(0));
    assert_eq!(get_backup_size(&vec![app_data(), is_dir()]), Step::Ask(Request::Walk(store(&[]))));
    let unknown = Entry { rel: vec!["x".to_string()], is_dir: false, is_file: true, len: None };
    let link = Entry { rel: vec!["l".to_string()], is_dir: false, is_file: false, len: Some(1000) };
    let entries = vec![dir(&[]), file(&["a"], 5), unknown, link, file(&["b", "c"], 7)];
    assert_eq!(calc_dir_size(&Listing::new(entries.clone()).unwrap()), 12);
    assert_eq!(get_backup_size(&vec![app_data(), is_dir(), listing(entries)]), Step::Done(12));
}

#[test]
fn listing_refuses_sizes_that_do_not_fit() {
    assert!(Listing::new(vec![file(&["a"], u64::MAX), file(&["b"], 1)]).is_none());
    let most = Listing::new(vec![file(&["a"], u64::MAX - 1), file(&["b"], 1)]).unwrap();
    assert_eq!(most.total(), u64::MAX);
    assert_eq!(most.entries().len(), 2);
    assert_eq!(Listing::empty().total(), 0);
    let huge_dir = Entry { rel: vec![], is_dir: true, is_file: false, len: Some(u64::MAX) };
    assert!(Listing::new(vec![huge_dir, file(&["b"], 1)]).is_some());
}
