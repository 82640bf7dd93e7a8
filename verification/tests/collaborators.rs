use cc_version_guard::autostart::{get_autostart_enabled, set_autostart_enabled};
use cc_version_guard::cleaner::{
    calculate_cache_size, clean_cache, get_cache_dirs, CacheCleanResult,
};
use cc_version_guard::host::{Entry, FileMeta, Listing, Location};
use cc_version_guard::paths::{make_probe_plan, InstallProbe, RootProbe};
use cc_version_guard::process::{
    directories, is_capcut_running, launch_capcut, perform_precheck, LaunchResult, PreCheckResult,
};
use cc_version_guard::protocol::{FsOp, Reply, Request, Step};
use cc_version_guard::scanner::{get_capcut_paths, scan_versions, VersionInfo};

const LOCAL: &str = "C:\\Local";
const RUN_KEY: &str = "SOFTWARE\\Microsoft\\Windows\\CurrentVersion\\Run";

fn under(base: &str, parts: &[&str]) -> Location {
    Location { base: base.to_string(), parts: parts.iter().map(|p| p.to_string()).collect() }
}

fn cache(name: &str) -> Location {
    under(LOCAL, &["CapCut", "User Data", name])
}

fn app_data() -> Reply {
    Reply::Text(Some(LOCAL.to_string()))
}

fn present() -> Reply {
    Reply::Meta(Some(FileMeta { is_dir: true, len: 0, readonly: false }))
}

fn absent() -> Reply {
    Reply::Meta(None)
}

fn ok() -> Reply {
    Reply::Outcome(Ok(()))
}

fn err(message: &str) -> Reply {
    Reply::Outcome(Err(message.to_string()))
}

fn sized(len: u64) -> Reply {
    Reply::Entries(
        Listing::new(vec![Entry {
            rel: vec!["f".to_string()],
            is_dir: false,
            is_file: true,
            len: Some(len),
        }])
        .unwrap(),
    )
}

fn written(text: &str) -> Reply {
    Reply::Text(Some(text.to_string()))
}

fn install() -> Reply {
    Reply::Install(InstallProbe {
        registry: vec![RootProbe { root: Location::at("E:\\CapCut"), exists: true, apps_exists: true }],
        default_root: None,
    })
}

fn no_install() -> Reply {
    Reply::Install(InstallProbe { registry: Vec::new(), default_root: None })
}

fn entry(name: &str, is_dir: bool) -> Entry {
    Entry { rel: vec![name.to_string()], is_dir, is_file: !is_dir, len: Some(1) }
}

fn listed(entries: Vec<Entry>) -> Reply {
    Reply::Entries(Listing::new(entries).unwrap())
}

#[test]
fn caches_lie_under_the_user_data() {
    assert_eq!(
        get_cache_dirs(&under(LOCAL, &["CapCut"])),
        vec![cache("Cache"), cache("Shadow_Cache"), cache("Smart_Crop")]
    );
}

#[test]
fn cache_size_adds_up_the_directories_that_exist() {
    assert_eq!(calculate_cache_size(&Vec::new()), Step::Ask(Request::LocalAppData));
    assert_eq!(calculate_cache_size(&vec![Reply::Text(None)]), Step::Done(0));
    let mut history = vec![app_data()];
    assert_eq!(calculate_cache_size(&history), Step::Ask(Request::Stat(cache("Cache"))));
    history.push(present());
    assert_eq!(calculate_cache_size(&history), Step::Ask(Request::Walk(cache("Cache"))));
    history.push(sized(u64::MAX));
    assert_eq!(calculate_cache_size(&history), Step::Ask(Request::Stat(cache("Shadow_Cache"))));
    history.push(absent());
    assert_eq!(calculate_cache_size(&history), Step::Ask(Request::Stat(cache("Smart_Crop"))));
    history.push(present());
    history.push(sized(5));
    assert_eq!(calculate_cache_size(&history), Step::Done(u64::MAX as u128 + 5));
}

#[test]
fn cleaning_removes_each_cache_and_counts_what_went() {
    let mut history = vec![app_data(), present(), sized(3_145_728)];
    assert_eq!(clean_cache(&history), Step::Ask(Request::Megabytes(3_145_728)));
    history.push(written("3.0"));
    assert_eq!(
        clean_cache(&history),
        Step::Ask(Request::Apply(vec![
            FsOp::ClearReadonly(cache("Cache")),
            FsOp::RemoveDirAll(cache("Cache"))
        ]))
    );
    history.push(ok());
    history.push(absent());
    history.push(present());
    history.push(sized(1_048_576));
    history.push(written("1.0"));
    history.push(err("in use"));
    assert_eq!(clean_cache(&history), Step::Ask(Request::Megabytes(3_145_728)));
    history.push(written("3.0"));
    assert_eq!(
        clean_cache(&history),
        Step::Done(CacheCleanResult {
            success: true,
            cleaned_bytes: 3_145_728,
            logs: vec![
                "Cleaning: Cache (3.0 MB)".to_string(),
                "Cleaning: Smart_Crop (1.0 MB)".to_string(),
                "[!] Failed to clean Smart_Crop: in use".to_string(),
                "[OK] Cleaned 3.0 MB of cache".to_string(),
            ],
        })
    );
}

#[test]
fn cleaning_fails_without_the_application_data() {
    assert_eq!(
        clean_cache(&vec![Reply::Text(None)]),
        Step::Done(CacheCleanResult {
            success: false,
            cleaned_bytes: 0,
            logs: vec!["Failed to get LOCALAPPDATA".to_string()],
        })
    );
}

#[test]
fn running_is_asked_under_both_names() {
    assert_eq!(is_capcut_running(&Vec::new()), Step::Ask(Request::ProcessRunning("CapCut".to_string())));
    assert_eq!(is_capcut_running(&vec![Reply::Flag(true)]), Step::Done(true));
    assert_eq!(
        is_capcut_running(&vec![Reply::Flag(false)]),
        Step::Ask(Request::ProcessRunning("CapCut.exe".to_string()))
    );
    assert_eq!(is_capcut_running(&vec![Reply::Flag(false), Reply::Flag(true)]), Step::Done(true));
    assert_eq!(is_capcut_running(&vec![Reply::Flag(false), Reply::Flag(false)]), Step::Done(false));
}

#[test]
fn precheck_looks_for_the_default_install() {
    let apps = under(LOCAL, &["CapCut", "Apps"]);
    assert_eq!(perform_precheck(&Vec::new()), Step::Ask(Request::LocalAppData));
    assert_eq!(perform_precheck(&vec![app_data()]), Step::Ask(Request::Stat(apps.clone())));
    assert_eq!(
        perform_precheck(&vec![app_data(), present(), Reply::Flag(true)]),
        Step::Done(PreCheckResult { capcut_found: true, capcut_running: true, apps_path: Some(apps.clone()) })
    );
    assert_eq!(
        perform_precheck(&vec![app_data(), absent(), Reply::Flag(false), Reply::Flag(false)]),
        Step::Done(PreCheckResult { capcut_found: false, capcut_running: false, apps_path: Some(apps) })
    );
    assert_eq!(
        perform_precheck(&vec![Reply::Text(None), Reply::Flag(true)]),
        Step::Done(PreCheckResult { capcut_found: false, capcut_running: true, apps_path: None })
    );
}

#[test]
fn directories_are_picked_from_a_listing() {
    let entries = vec![entry("4.5.0", true), entry("configure.ini", false), entry("5.0.0", true)];
    assert_eq!(directories(&entries), vec!["4.5.0".to_string(), "5.0.0".to_string()]);
}

#[test]
fn launch_starts_the_highest_version_that_has_the_program() {
    let apps = under("E:\\CapCut", &["Apps"]);
    let program = |v: &str| under("E:\\CapCut", &["Apps", v, "CapCut.exe"]);
    let mut history = Vec::new();
    assert_eq!(launch_capcut(&history), Step::Ask(Request::ProbeInstall(make_probe_plan())));
    history.push(install());
    assert_eq!(launch_capcut(&history), Step::Ask(Request::Stat(apps.clone())));
    history.push(present());
    assert_eq!(launch_capcut(&history), Step::Ask(Request::ListDir(apps.clone())));
    history.push(listed(vec![entry("4.5.0", true), entry("5.1.0", true), entry("x.ini", false), entry("4.9.0", true)]));
    assert_eq!(launch_capcut(&history), Step::Ask(Request::Stat(program("5.1.0"))));
    history.push(absent());
    assert_eq!(launch_capcut(&history), Step::Ask(Request::Stat(program("4.9.0"))));
    history.push(present());
    assert_eq!(launch_capcut(&history), Step::Ask(Request::Launch(program("4.9.0"))));
    history.push(ok());
    assert_eq!(launch_capcut(&history), Step::Done(LaunchResult { success: true, error: None }));
}

#[test]
fn launch_fails_with_the_reason() {
    let failed = |m: &str| Step::Done(LaunchResult { success: false, error: Some(m.to_string()) });
    assert_eq!(launch_capcut(&vec![no_install()]), failed("CapCut installation not found"));
    assert_eq!(launch_capcut(&vec![install(), absent()]), failed("CapCut installation not found"));
    assert_eq!(
        launch_capcut(&vec![install(), present(), listed(vec![entry("4.5.0", true)]), absent()]),
        failed("CapCut.exe not found in any version")
    );
    assert_eq!(
        launch_capcut(&vec![install(), present(), listed(vec![])]),
        failed("CapCut.exe not found in any version")
    );
    assert_eq!(
        launch_capcut(&vec![
            install(),
            present(),
            listed(vec![entry("4.5.0", true), entry("4.4.0", true)]),
            present(),
            err("bad image")
        ]),
        failed("Failed to launch: bad image")
    );
}

#[test]
fn scan_reports_the_versions_by_name() {
    let apps = under("E:\\CapCut", &["Apps"]);
    let mut history = vec![install(), present()];
    assert_eq!(scan_versions(&history), Step::Ask(Request::ListDir(apps.clone())));
    history.push(listed(vec![entry("5.0.0", true), entry("a.txt", false), entry("4.5.0", true)]));
    assert_eq!(scan_versions(&history), Step::Ask(Request::Walk(under("E:\\CapCut", &["Apps", "4.5.0"]))));
    history.push(sized(100));
    assert_eq!(scan_versions(&history), Step::Ask(Request::Walk(under("E:\\CapCut", &["Apps", "5.0.0"]))));
    history.push(sized(7));
    assert_eq!(
        scan_versions(&history),
        Step::Done(vec![
            VersionInfo {
                name: "4.5.0".to_string(),
                path: under("E:\\CapCut", &["Apps", "4.5.0"]),
                size_bytes: 100
            },
            VersionInfo {
                name: "5.0.0".to_string(),
                path: under("E:\\CapCut", &["Apps", "5.0.0"]),
                size_bytes: 7
            },
        ])
    );
    assert_eq!(scan_versions(&vec![no_install()]), Step::Done(Vec::new()));
    assert_eq!(scan_versions(&vec![install(), absent()]), Step::Done(Vec::new()));
}

#[test]
fn install_directories_need_the_payload_directory() {
    let apps = under("E:\\CapCut", &["Apps"]);
    assert_eq!(get_capcut_paths(&Vec::new()), Step::Ask(Request::ProbeInstall(make_probe_plan())));
    assert_eq!(get_capcut_paths(&vec![install()]), Step::Ask(Request::ProbeInstall(make_probe_plan())));
    assert_eq!(get_capcut_paths(&vec![install(), install()]), Step::Ask(Request::Stat(apps.clone())));
    assert_eq!(
        get_capcut_paths(&vec![install(), install(), present()]),
        Step::Done(Some((apps, Location::at("E:\\CapCut"))))
    );
    assert_eq!(get_capcut_paths(&vec![install(), install(), absent()]), Step::Done(None));
    assert_eq!(get_capcut_paths(&vec![no_install()]), Step::Done(None));
    assert_eq!(get_capcut_paths(&vec![install(), no_install()]), Step::Done(None));
}

#[test]
fn autostart_is_on_where_the_value_can_be_read() {
    assert_eq!(
        get_autostart_enabled(&Vec::new()),
        Step::Ask(Request::RegistryRead { key: RUN_KEY.to_string(), name: "CCVersionGuard".to_string() })
    );
    assert_eq!(get_autostart_enabled(&vec![written("C:\\guard.exe")]), Step::Done(true));
    assert_eq!(get_autostart_enabled(&vec![Reply::Text(None)]), Step::Done(false));
}

#[test]
fn switching_autostart_on_writes_the_program_path() {
    let mut history = Vec::new();
    assert_eq!(set_autostart_enabled(true, &history), Step::Ask(Request::CurrentExe));
    history.push(Reply::Content(Ok("C:\\guard.exe".to_string())));
    assert_eq!(
        set_autostart_enabled(true, &history),
        Step::Ask(Request::RegistryOpen { key: RUN_KEY.to_string() })
    );
    history.push(ok());
    assert_eq!(
        set_autostart_enabled(true, &history),
        Step::Ask(Request::RegistryWrite {
            key: RUN_KEY.to_string(),
            name: "CCVersionGuard".to_string(),
            value: "C:\\guard.exe".to_string()
        })
    );
    history.push(ok());
    assert_eq!(set_autostart_enabled(true, &history), Step::Done(None));
}

#[test]
fn switching_autostart_reports_the_step_that_failed() {
    let exe = || Reply::Content(Ok("C:\\guard.exe".to_string()));
    assert_eq!(
        set_autostart_enabled(true, &vec![Reply::Content(Err("gone".to_string()))]),
        Step::Done(Some("Failed to get executable path: gone".to_string()))
    );
    assert_eq!(
        set_autostart_enabled(true, &vec![exe(), err("denied")]),
        Step::Done(Some("Failed to open registry key: denied".to_string()))
    );
    assert_eq!(
        set_autostart_enabled(true, &vec![exe(), ok(), err("full")]),
        Step::Done(Some("Failed to set registry value: full".to_string()))
    );
    assert_eq!(
        set_autostart_enabled(false, &Vec::new()),
        Step::Ask(Request::RegistryOpen { key: RUN_KEY.to_string() })
    );
    assert_eq!(
        set_autostart_enabled(false, &vec![err("denied")]),
        Step::Done(Some("Failed to open registry key: denied".to_string()))
    );
    assert_eq!(
        set_autostart_enabled(false, &vec![ok()]),
        Step::Ask(Request::RegistryDelete {
            key: RUN_KEY.to_string(),
            name: "CCVersionGuard".to_string()
        })
    );
    assert_eq!(set_autostart_enabled(false, &vec![ok(), err("no such value")]), Step::Done(None));
}
