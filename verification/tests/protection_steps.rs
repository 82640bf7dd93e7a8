use cc_version_guard::host::{FileMeta, Location};
use cc_version_guard::paths::{make_probe_plan, InstallProbe, RootProbe};
use cc_version_guard::protector::{
    apply_protection, apply_protection_with_options, check_protection_status, compute_status,
    create_readonly, delete_versions, log, log_all, log_line, remove_protection,
    run_full_protection, ProtectionParams, ProtectionResult, ProtectionStatus,
};
use cc_version_guard::protocol::{FsOp, Reply, Request, Step};

const ROOT: &str = "E:\\CapCut";

fn under(parts: &[&str]) -> Location {
    Location { base: ROOT.to_string(), parts: parts.iter().map(|p| p.to_string()).collect() }
}

fn config() -> Location {
    under(&["Apps", "configure.ini"])
}

fn marker() -> Location {
    under(&["Apps", "ProductInfo.xml"])
}

fn updater() -> Location {
    under(&["User Data", "Download", "update.exe"])
}

fn install() -> Reply {
    Reply::Install(InstallProbe {
        registry: vec![RootProbe { root: under(&[]), exists: true, apps_exists: true }],
        default_root: None,
    })
}

fn no_install() -> Reply {
    Reply::Install(InstallProbe { registry: Vec::new(), default_root: None })
}

fn seen(is_dir: bool, len: u64, readonly: bool) -> Reply {
    Reply::Meta(Some(FileMeta { is_dir, len, readonly }))
}

fn absent() -> Reply {
    Reply::Meta(None)
}

fn ok() -> Reply {
    Reply::Outcome(Ok(()))
}

fn err(message: &str) -> Reply {
    Reply::Outcome(Err(message.to_string()))
}

fn content(text: &str) -> Reply {
    Reply::Content(Ok(text.to_string()))
}

fn lines(all: &[&str]) -> Vec<String> {
    all.iter().map(|l| l.to_string()).collect()
}

fn failed(message: &str, logs: &[&str]) -> Step<ProtectionResult> {
    Step::Done(ProtectionResult { success: false, error: Some(message.to_string()), logs: lines(logs) })
}

fn passed(logs: &[&str]) -> Step<ProtectionResult> {
    Step::Done(ProtectionResult { success: true, error: None, logs: lines(logs) })
}

fn blocker(path: Location) -> Vec<FsOp> {
    vec![FsOp::WriteText { to: path.clone(), text: String::new() }, FsOp::MarkReadonly(path)]
}

#[test]
fn status_is_derived_from_three_observations() {
    let block = Some(FileMeta { is_dir: false, len: 0, readonly: true });
    let writable = Some(FileMeta { is_dir: false, len: 0, readonly: false });
    let full = Some(FileMeta { is_dir: false, len: 12, readonly: true });
    let locked = "a=1\nlast_version=1.0.0.0".to_string();
    let free = "a=1\nlast_version=5.0".to_string();
    let status = |p, c, b| ProtectionStatus { is_protected: p, config_locked: c, blockers_exist: b };
    assert_eq!(compute_status(None, None, None), status(false, false, false));
    assert_eq!(compute_status(block, None, None), status(true, false, true));
    assert_eq!(compute_status(None, block, None), status(true, false, true));
    assert_eq!(compute_status(writable, full, None), status(false, false, false));
    assert_eq!(compute_status(None, None, Some(&locked)), status(true, true, false));
    assert_eq!(compute_status(None, None, Some(&free)), status(false, false, false));
    assert_eq!(compute_status(block, block, Some(&locked)), status(true, true, true));
}

#[test]
fn status_asks_for_the_blockers_and_the_configuration() {
    let mut history = Vec::new();
    assert_eq!(
        check_protection_status(&history),
        Step::Ask(Request::ProbeInstall(make_probe_plan()))
    );
    history.push(install());
    assert_eq!(check_protection_status(&history), Step::Ask(Request::Stat(marker())));
    history.push(seen(false, 0, true));
    assert_eq!(check_protection_status(&history), Step::Ask(Request::Stat(updater())));
    history.push(absent());
    assert_eq!(check_protection_status(&history), Step::Ask(Request::Stat(config())));
    history.push(seen(false, 30, false));
    assert_eq!(check_protection_status(&history), Step::Ask(Request::ReadText(config())));
    history.push(content("x=1"));
    assert_eq!(
        check_protection_status(&history),
        Step::Done(ProtectionStatus { is_protected: true, config_locked: false, blockers_exist: true })
    );
}

#[test]
fn status_without_install_or_readable_configuration() {
    let nothing = ProtectionStatus { is_protected: false, config_locked: false, blockers_exist: false };
    assert_eq!(check_protection_status(&vec![no_install()]), Step::Done(nothing));
    assert_eq!(
        check_protection_status(&vec![install(), absent(), absent(), absent()]),
        Step::Done(nothing)
    );
    let unreadable = Reply::Content(Err("denied".to_string()));
    assert_eq!(
        check_protection_status(&vec![install(), absent(), absent(), seen(false, 9, false), unreadable]),
        Step::Done(nothing)
    );
}

#[test]
fn blocker_plan_depends_on_what_is_in_the_way() {
    let path = marker();
    assert_eq!(create_readonly(&path, None), blocker(path.clone()));
    let mut over_file = vec![FsOp::ClearReadonly(path.clone()), FsOp::RemoveFile(path.clone())];
    over_file.extend(blocker(path.clone()));
    assert_eq!(
        create_readonly(&path, Some(FileMeta { is_dir: false, len: 4, readonly: true })),
        over_file
    );
    let mut over_dir = vec![FsOp::ClearReadonly(path.clone()), FsOp::RemoveDirAll(path.clone())];
    over_dir.extend(blocker(path.clone()));
    assert_eq!(
        create_readonly(&path, Some(FileMeta { is_dir: true, len: 0, readonly: false })),
        over_dir
    );
}

#[test]
fn apply_locks_then_blocks() {
    let mut history = Vec::new();
    assert_eq!(apply_protection(&history), Step::Ask(Request::ProbeInstall(make_probe_plan())));
    history.push(install());
    assert_eq!(apply_protection(&history), Step::Ask(Request::Stat(config())));
    history.push(seen(false, 20, false));
    assert_eq!(apply_protection(&history), Step::Ask(Request::ReadText(config())));
    history.push(content("a=1\nlast_version=5.2.0.7"));
    assert_eq!(
        apply_protection(&history),
        Step::Ask(Request::Apply(vec![FsOp::WriteText {
            to: config(),
            text: "a=1\nlast_version=1.0.0.0".to_string()
        }]))
    );
    history.push(ok());
    assert_eq!(apply_protection(&history), Step::Ask(Request::Stat(marker())));
    history.push(absent());
    let mut first = blocker(marker());
    first.push(FsOp::CreateDirAll(under(&["User Data", "Download"])));
    assert_eq!(apply_protection(&history), Step::Ask(Request::Apply(first)));
    history.push(ok());
    assert_eq!(apply_protection(&history), Step::Ask(Request::Stat(updater())));
    history.push(seen(false, 5000, false));
    let mut second = vec![FsOp::ClearReadonly(updater()), FsOp::RemoveFile(updater())];
    second.extend(blocker(updater()));
    assert_eq!(apply_protection(&history), Step::Ask(Request::Apply(second)));
    history.push(ok());
    let done = passed(&[
        "Modifying config...",
        "[OK] Configuration locked",
        "Creating blockers...",
        "[OK] Update blockers created",
    ]);
    assert_eq!(apply_protection(&history), done);
    assert_eq!(apply_protection_with_options(true, true, &history), done);
}

#[test]
fn apply_takes_a_missing_or_unreadable_configuration_as_empty() {
    let write = Step::Ask(Request::Apply(vec![FsOp::WriteText {
        to: config(),
        text: "last_version=1.0.0.0".to_string(),
    }]));
    assert_eq!(apply_protection_with_options(true, false, &vec![install(), absent()]), write);
    let unreadable = Reply::Content(Err("denied".to_string()));
    assert_eq!(
        apply_protection_with_options(true, false, &vec![install(), seen(false, 3, false), unreadable]),
        write
    );
}

#[test]
fn apply_does_only_what_is_wanted() {
    assert_eq!(
        apply_protection_with_options(false, false, &vec![install()]),
        passed(&["Skipping config lock (disabled)", "Skipping blocker creation (disabled)"])
    );
    assert_eq!(
        apply_protection_with_options(true, false, &vec![install(), absent(), ok()]),
        passed(&[
            "Modifying config...",
            "[OK] Configuration locked",
            "Skipping blocker creation (disabled)"
        ])
    );
    assert_eq!(
        apply_protection_with_options(false, true, &vec![install()]),
        Step::Ask(Request::Stat(marker()))
    );
    assert_eq!(
        apply_protection_with_options(false, true, &vec![install(), absent(), ok(), absent(), ok()]),
        passed(&[
            "Skipping config lock (disabled)",
            "Creating blockers...",
            "[OK] Update blockers created"
        ])
    );
}

#[test]
fn apply_stops_at_the_first_change_that_fails() {
    assert_eq!(
        apply_protection(&vec![no_install()]),
        failed("Could not find CapCut installation", &[])
    );
    assert_eq!(
        apply_protection(&vec![install(), absent(), err("Access is denied.")]),
        failed("Access is denied.", &["Modifying config..."])
    );
    let locked = &["Modifying config...", "[OK] Configuration locked", "Creating blockers..."];
    assert_eq!(
        apply_protection(&vec![install(), absent(), ok(), absent(), err("first")]),
        failed("first", locked)
    );
    assert_eq!(
        apply_protection(&vec![install(), absent(), ok(), absent(), ok(), absent(), err("second")]),
        failed("second", locked)
    );
}

#[test]
fn remove_takes_each_signal_away() {
    let mut history = Vec::new();
    assert_eq!(remove_protection(&history), Step::Ask(Request::ProbeInstall(make_probe_plan())));
    history.push(install());
    assert_eq!(remove_protection(&history), Step::Ask(Request::Stat(marker())));
    history.push(seen(false, 0, true));
    assert_eq!(
        remove_protection(&history),
        Step::Ask(Request::Apply(vec![FsOp::ClearReadonly(marker()), FsOp::RemoveFile(marker())]))
    );
    history.push(ok());
    assert_eq!(remove_protection(&history), Step::Ask(Request::Stat(updater())));
    history.push(seen(false, 0, true));
    assert_eq!(
        remove_protection(&history),
        Step::Ask(Request::Apply(vec![FsOp::ClearReadonly(updater()), FsOp::RemoveFile(updater())]))
    );
    history.push(ok());
    assert_eq!(remove_protection(&history), Step::Ask(Request::Stat(config())));
    history.push(seen(false, 40, false));
    assert_eq!(remove_protection(&history), Step::Ask(Request::ReadText(config())));
    history.push(content("a=1\r\nlast_version=1.0.0.0\r\nb=2\r\n"));
    assert_eq!(
        remove_protection(&history),
        Step::Ask(Request::Apply(vec![FsOp::WriteText { to: config(), text: "a=1\nb=2".to_string() }]))
    );
    history.push(ok());
    assert_eq!(
        remove_protection(&history),
        passed(&[
            "Removing ProductInfo.xml blocker...",
            "[OK] ProductInfo.xml blocker removed",
            "Removing update.exe blocker...",
            "[OK] update.exe blocker removed",
            "Resetting configure.ini...",
            "[OK] configure.ini reset",
            "[OK] Protection removed - CapCut can now auto-update",
        ])
    );
}

#[test]
fn remove_goes_on_after_a_step_that_fails() {
    let history = vec![
        install(),
        seen(false, 0, true),
        err("in use"),
        seen(false, 0, true),
        err("locked"),
        seen(false, 40, false),
        content("last_version=1.0.0.0"),
        err("denied"),
    ];
    assert_eq!(
        remove_protection(&history),
        passed(&[
            "Removing ProductInfo.xml blocker...",
            "[!] Could not remove ProductInfo.xml: in use",
            "Removing update.exe blocker...",
            "[!] Could not remove update.exe: locked",
            "Resetting configure.ini...",
            "[!] Could not reset configure.ini: denied",
            "[OK] Protection removed - CapCut can now auto-update",
        ])
    );
}

#[test]
fn remove_with_nothing_to_take_away() {
    assert_eq!(
        remove_protection(&vec![no_install()]),
        failed("Could not find CapCut installation", &[])
    );
    assert_eq!(
        remove_protection(&vec![install(), absent(), absent(), absent()]),
        passed(&["[OK] Protection removed - CapCut can now auto-update"])
    );
    let unreadable = Reply::Content(Err("denied".to_string()));
    assert_eq!(
        remove_protection(&vec![install(), absent(), absent(), seen(false, 1, false), unreadable]),
        passed(&["Resetting configure.ini...", "[OK] Protection removed - CapCut can now auto-update"])
    );
}

#[test]
fn deleting_nothing_says_so() {
    assert_eq!(delete_versions(Vec::new(), &Vec::new()), passed(&["[OK] No versions to delete"]));
}

#[test]
fn deleting_counts_the_versions() {
    let paths = vec!["D:\\Apps\\1".to_string(), "D:\\Apps\\2".to_string()];
    let round = |name: &str| {
        vec![Reply::Text(Some(name.to_string())), Reply::Text(None), ok()]
    };
    let mut history = round("1");
    assert_eq!(
        delete_versions(paths.clone(), &history),
        Step::Ask(Request::LeafName(Location::at("D:\\Apps\\2")))
    );
    history.extend(round("2"));
    assert_eq!(
        delete_versions(paths.clone(), &history),
        passed(&[
            "Backing up: 1",
            "[!] Backup failed: Could not determine backup directory",
            "[!] Proceeding with deletion (backup unavailable)",
            "Deleting: 1",
            "Backing up: 2",
            "[!] Backup failed: Could not determine backup directory",
            "[!] Proceeding with deletion (backup unavailable)",
            "Deleting: 2",
            "[OK] Deleted 2 version(s)",
            "[OK] Backups available for recovery",
        ])
    );
}

#[test]
fn deleting_asks_to_remove_after_the_backup_failed() {
    let paths = vec!["D:\\Apps\\1".to_string()];
    let history = vec![
        Reply::Text(Some("1".to_string())),
        Reply::Text(Some("C:\\Local".to_string())),
        err("Access is denied."),
    ];
    let here = Location::at("D:\\Apps\\1");
    assert_eq!(
        delete_versions(paths.clone(), &history),
        Step::Ask(Request::Apply(vec![FsOp::ClearReadonly(here.clone()), FsOp::RemoveDirAll(here)]))
    );
    let mut history = history;
    history.push(err("in use"));
    assert_eq!(
        delete_versions(paths, &history),
        failed(
            "Failed to delete 1: in use",
            &[
                "Backing up: 1",
                "[!] Backup failed: Failed to create backup directory: Access is denied.",
                "[!] Proceeding with deletion (backup unavailable)",
                "Deleting: 1",
            ]
        )
    );
}

#[test]
fn full_run_with_everything_switched_off() {
    let params = || ProtectionParams {
        versions_to_delete: Vec::new(),
        clean_cache: false,
        lock_config: false,
        create_blockers: false,
    };
    assert_eq!(
        run_full_protection(params(), &Vec::new()),
        Step::Ask(Request::ProcessRunning("CapCut".to_string()))
    );
    assert_eq!(
        run_full_protection(params(), &vec![Reply::Flag(false)]),
        Step::Ask(Request::ProcessRunning("CapCut.exe".to_string()))
    );
    assert_eq!(
        run_full_protection(params(), &vec![Reply::Flag(false), Reply::Flag(true)]),
        failed("CapCut is still running. Please close it.", &["Checking system state..."])
    );
    assert_eq!(
        run_full_protection(params(), &vec![Reply::Flag(false), Reply::Flag(false)]),
        passed(&[
            "Checking system state...",
            "[OK] No running instances",
            "[OK] No versions to delete",
            "Skipping cache cleaning (disabled)",
            "Skipping protection (all options disabled)",
        ])
    );
}

#[test]
fn full_run_fails_with_what_the_lockdown_reports() {
    let params = ProtectionParams {
        versions_to_delete: Vec::new(),
        clean_cache: false,
        lock_config: true,
        create_blockers: false,
    };
    assert_eq!(
        run_full_protection(params, &vec![Reply::Flag(false), Reply::Flag(false), no_install()]),
        failed(
            "Could not find CapCut installation",
            &[
                "Checking system state...",
                "[OK] No running instances",
                "[OK] No versions to delete",
                "Skipping cache cleaning (disabled)",
            ]
        )
    );
}

#[test]
fn full_run_adds_the_log_of_the_cache_cleaning() {
    let params = ProtectionParams {
        versions_to_delete: Vec::new(),
        clean_cache: true,
        lock_config: false,
        create_blockers: false,
    };
    let history = vec![Reply::Flag(false), Reply::Flag(false), Reply::Text(None)];
    assert_eq!(
        run_full_protection(params, &history),
        passed(&[
            "Checking system state...",
            "[OK] No running instances",
            "[OK] No versions to delete",
            "Cleaning cache directories...",
            "Failed to get LOCALAPPDATA",
            "Skipping protection (all options disabled)",
        ])
    );
}

#[test]
fn logs_grow_line_by_line() {
    let mut logs = Vec::new();
    log(&mut logs, "one");
    log_line(&mut logs, "two".to_string());
    log_all(&mut logs, lines(&["three", "four"]));
    assert_eq!(logs, lines(&["one", "two", "three", "four"]));
}
