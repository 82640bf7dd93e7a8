use cc_version_guard::host::Location;
use cc_version_guard::paths::{
    choose_custom, choose_install, find_from_registry, get_capcut_apps_path, get_capcut_root_path,
    get_path_info, make_probe_plan, resolve_capcut_paths, validate_custom_capcut_path,
    validate_custom_path, CapCutPaths, CustomProbe, Hive, InstallProbe, PathDetectionSource,
    RootProbe,
};
use cc_version_guard::protocol::{Reply, Request, Step};

fn at(base: &str) -> Location {
    Location { base: base.to_string(), parts: Vec::new() }
}

fn under(base: &str, parts: &[&str]) -> Location {
    Location { base: base.to_string(), parts: parts.iter().map(|p| p.to_string()).collect() }
}

fn candidate(path: &str, exists: bool, apps_exists: bool) -> RootProbe {
    RootProbe { root: at(path), exists, apps_exists }
}

fn default_root(exists: bool, apps_exists: bool) -> Option<RootProbe> {
    Some(RootProbe { root: under("C:\\Local", &["CapCut"]), exists, apps_exists })
}

#[test]
fn plan_names_three_keys_in_both_hives_in_order() {
    let plan = make_probe_plan();
    let expected = [
        ("SOFTWARE\\Microsoft\\Windows\\CurrentVersion\\Uninstall\\CapCut", "InstallLocation"),
        (
            "SOFTWARE\\WOW6432Node\\Microsoft\\Windows\\CurrentVersion\\Uninstall\\CapCut",
            "InstallLocation",
        ),
        ("SOFTWARE\\Microsoft\\Windows\\CurrentVersion\\App Paths\\CapCut.exe", "Path"),
    ];
    assert_eq!(plan.keys.len(), 6);
    for (i, (key, value)) in expected.iter().enumerate() {
        assert_eq!(plan.keys[2 * i].hive, Hive::LocalMachine);
        assert_eq!(plan.keys[2 * i].key, *key);
        assert_eq!(plan.keys[2 * i].value, *value);
        assert_eq!(plan.keys[2 * i + 1].hive, Hive::CurrentUser);
        assert_eq!(plan.keys[2 * i + 1].key, *key);
        assert_eq!(plan.keys[2 * i + 1].value, *value);
    }
    assert_eq!(plan.root_dir, "CapCut");
    assert_eq!(plan.payload_dir, "Apps");
}

#[test]
fn first_existing_candidate_is_found() {
    let probes = vec![
        candidate("A", false, false),
        candidate("B", true, false),
        candidate("C", true, true),
    ];
    assert_eq!(find_from_registry(&probes), Some(1));
    assert_eq!(find_from_registry(&vec![candidate("A", false, true)]), None);
    assert_eq!(find_from_registry(&Vec::new()), None);
}

#[test]
fn registry_wins_over_the_default_location() {
    let probe = InstallProbe {
        registry: vec![candidate("E:\\Gone", false, false), candidate("E:\\CapCut", true, true)],
        default_root: default_root(true, true),
    };
    assert_eq!(
        choose_install(&probe),
        Some(CapCutPaths {
            root: at("E:\\CapCut"),
            apps: under("E:\\CapCut", &["Apps"]),
            source: PathDetectionSource::Registry,
        })
    );
}

#[test]
fn flat_registry_install_uses_the_root_as_payload() {
    let probe = InstallProbe {
        registry: vec![candidate("E:\\Flat", true, false)],
        default_root: default_root(false, false),
    };
    assert_eq!(
        choose_install(&probe),
        Some(CapCutPaths {
            root: at("E:\\Flat"),
            apps: at("E:\\Flat"),
            source: PathDetectionSource::Registry,
        })
    );
}

#[test]
fn default_location_is_the_fallback() {
    let probe = InstallProbe {
        registry: vec![candidate("E:\\Gone", false, false)],
        default_root: default_root(true, true),
    };
    assert_eq!(
        choose_install(&probe),
        Some(CapCutPaths {
            root: under("C:\\Local", &["CapCut"]),
            apps: under("C:\\Local", &["CapCut", "Apps"]),
            source: PathDetectionSource::DefaultLocation,
        })
    );
}

#[test]
fn default_root_without_payload_directory_is_its_own_payload() {
    let probe = InstallProbe { registry: Vec::new(), default_root: default_root(true, false) };
    assert_eq!(
        choose_install(&probe),
        Some(CapCutPaths {
            root: under("C:\\Local", &["CapCut"]),
            apps: under("C:\\Local", &["CapCut"]),
            source: PathDetectionSource::DefaultLocation,
        })
    );
}

#[test]
fn nothing_found_is_no_install() {
    let probe = InstallProbe {
        registry: vec![candidate("E:\\Gone", false, false)],
        default_root: default_root(false, false),
    };
    assert_eq!(choose_install(&probe), None);
    assert_eq!(choose_install(&InstallProbe { registry: Vec::new(), default_root: None }), None);
}

#[test]
fn resolving_asks_once_and_then_answers() {
    let history: Vec<Reply> = Vec::new();
    assert_eq!(resolve_capcut_paths(&history), Step::Ask(Request::ProbeInstall(make_probe_plan())));
    let history = vec![Reply::Install(InstallProbe {
        registry: vec![candidate("E:\\CapCut", true, true)],
        default_root: None,
    })];
    let expected = CapCutPaths {
        root: at("E:\\CapCut"),
        apps: under("E:\\CapCut", &["Apps"]),
        source: PathDetectionSource::Registry,
    };
    assert_eq!(resolve_capcut_paths(&history), Step::Done(Some(expected.clone())));
    assert_eq!(get_path_info(&history), Step::Done(Some(expected.clone())));
    assert_eq!(get_capcut_apps_path(&history), Step::Done(Some(expected.apps)));
    assert_eq!(get_capcut_root_path(&history), Step::Done(Some(expected.root)));
    let nothing = vec![Reply::Install(InstallProbe { registry: Vec::new(), default_root: None })];
    assert_eq!(resolve_capcut_paths(&nothing), Step::Done(None));
    assert_eq!(get_capcut_apps_path(&nothing), Step::Done(None));
    assert_eq!(get_capcut_root_path(&nothing), Step::Done(None));
    let wrong_kind = vec![Reply::Flag(true)];
    assert_eq!(resolve_capcut_paths(&wrong_kind), Step::Done(None));
}

#[test]
fn custom_root_with_payload_directory_is_valid() {
    let seen = CustomProbe {
        exists: true,
        apps_exists: true,
        leaf: Some("CapCut".to_string()),
        parent: Some("E:\\".to_string()),
    };
    assert_eq!(
        choose_custom("E:\\CapCut", &seen),
        Some(CapCutPaths {
            root: at("E:\\CapCut"),
            apps: under("E:\\CapCut", &["Apps"]),
            source: PathDetectionSource::Custom("E:\\CapCut".to_string()),
        })
    );
}

#[test]
fn custom_payload_directory_has_its_parent_as_root() {
    let seen = CustomProbe {
        exists: true,
        apps_exists: false,
        leaf: Some("Apps".to_string()),
        parent: Some("E:\\CapCut".to_string()),
    };
    assert_eq!(
        choose_custom("E:\\CapCut\\Apps", &seen),
        Some(CapCutPaths {
            root: at("E:\\CapCut"),
            apps: at("E:\\CapCut\\Apps"),
            source: PathDetectionSource::Custom("E:\\CapCut\\Apps".to_string()),
        })
    );
}

#[test]
fn other_custom_paths_are_rejected() {
    let missing =
        CustomProbe { exists: false, apps_exists: true, leaf: Some("Apps".to_string()), parent: None };
    assert_eq!(choose_custom("E:\\Nowhere", &missing), None);
    let unrelated = CustomProbe {
        exists: true,
        apps_exists: false,
        leaf: Some("Games".to_string()),
        parent: Some("E:\\".to_string()),
    };
    assert_eq!(choose_custom("E:\\Games", &unrelated), None);
    let orphan =
        CustomProbe { exists: true, apps_exists: false, leaf: Some("Apps".to_string()), parent: None };
    assert_eq!(choose_custom("Apps", &orphan), None);
    let nameless = CustomProbe { exists: true, apps_exists: false, leaf: None, parent: None };
    assert_eq!(choose_custom("E:\\", &nameless), None);
}

#[test]
fn validating_a_custom_path_asks_the_host_to_look() {
    let history: Vec<Reply> = Vec::new();
    assert_eq!(
        validate_custom_path("E:\\CapCut", &history),
        Step::Ask(Request::ProbeCustom {
            path: "E:\\CapCut".to_string(),
            payload_dir: "Apps".to_string()
        })
    );
    let history = vec![Reply::Custom(CustomProbe {
        exists: true,
        apps_exists: true,
        leaf: Some("CapCut".to_string()),
        parent: None,
    })];
    let expected = Some(CapCutPaths {
        root: at("E:\\CapCut"),
        apps: under("E:\\CapCut", &["Apps"]),
        source: PathDetectionSource::Custom("E:\\CapCut".to_string()),
    });
    assert_eq!(validate_custom_path("E:\\CapCut", &history), Step::Done(expected.clone()));
    assert_eq!(validate_custom_capcut_path("E:\\CapCut".to_string(), &history), Step::Done(expected));
    assert_eq!(validate_custom_path("E:\\CapCut", &vec![Reply::Flag(true)]), Step::Done(None));
}

#[test]
fn locations_are_built_from_names() {
    let root = Location::at("C:\\Local");
    assert_eq!(root, at("C:\\Local"));
    assert_eq!(root.child("CapCut").child("Apps"), under("C:\\Local", &["CapCut", "Apps"]));
    assert_eq!(
        root.child("a").below(&vec!["b".to_string(), "c".to_string()]),
        under("C:\\Local", &["a", "b", "c"])
    );
    assert_eq!(root.child("a").duplicate(), under("C:\\Local", &["a"]));
}
