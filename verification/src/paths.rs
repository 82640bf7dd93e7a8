//! Where the application is installed: the candidates the host is asked to
//! probe, and the choice among what it found.

use crate::host::{lemma_deep_view_push, Location, Place};
use crate::protocol::{reply_at, Cursor, Reply, ReplyView, Request, RequestView, Step, StepView};
use crate::text::same_text;
use vstd::prelude::*;
use vstd::string::*;

verus! {

/// The directory, under the install root, that holds the installed versions.
pub open spec fn payload_dir() -> Seq<char> {
    "Apps"@
}

/// The directory, under the per-user application data, of a default install.
pub open spec fn default_root_dir() -> Seq<char> {
    "CapCut"@
}

/// A hive of the registry.
#[derive(Debug, Clone, Copy, PartialEq, Eq)]
pub enum Hive {
    /// The machine-wide hive.
    LocalMachine,
    /// The hive of the user.
    CurrentUser,
}

/// A registry value that may name the install root: its hive, the path of
/// its key and the name of the value.
#[derive(Debug, Clone, PartialEq, Eq)]
pub struct RegistryKey {
    pub hive: Hive,
    pub key: String,
    pub value: String,
}

/// A `RegistryKey` as plain sequences.
pub struct RegistryKeyView {
    pub hive: Hive,
    pub key: Seq<char>,
    pub value: Seq<char>,
}

impl DeepView for RegistryKey {
    type V = RegistryKeyView;

    open spec fn deep_view(&self) -> RegistryKeyView {
        RegistryKeyView { hive: self.hive, key: self.key@, value: self.value@ }
    }
}

/// What the host is to probe when asked for the install: the registry values
/// `keys`, one after the other in the order given, and the directory
/// `root_dir` under the per-user application data.
#[derive(Debug, Clone, PartialEq, Eq)]
pub struct ProbePlan {
    pub keys: Vec<RegistryKey>,
    pub root_dir: String,
    pub payload_dir: String,
}

/// A `ProbePlan` as plain sequences.
pub struct ProbePlanView {
    pub keys: Seq<RegistryKeyView>,
    pub root_dir: Seq<char>,
    pub payload_dir: Seq<char>,
}

impl DeepView for ProbePlan {
    type V = ProbePlanView;

    open spec fn deep_view(&self) -> ProbePlanView {
        ProbePlanView {
            keys: self.keys.deep_view(),
            root_dir: self.root_dir@,
            payload_dir: self.payload_dir@,
        }
    }
}

/// The key under which the application is registered for removal.
pub open spec fn uninstall_key() -> Seq<char> {
    "SOFTWARE\\Microsoft\\Windows\\CurrentVersion\\Uninstall\\CapCut"@
}

/// The same key as 32-bit programs see it.
pub open spec fn uninstall_key_32() -> Seq<char> {
    "SOFTWARE\\WOW6432Node\\Microsoft\\Windows\\CurrentVersion\\Uninstall\\CapCut"@
}

/// The key that tells where the program file lies.
pub open spec fn app_paths_key() -> Seq<char> {
    "SOFTWARE\\Microsoft\\Windows\\CurrentVersion\\App Paths\\CapCut.exe"@
}

/// The value `value` under `key`, first in the machine-wide hive and then in
/// that of the user.
pub open spec fn in_both_hives(key: Seq<char>, value: Seq<char>) -> Seq<RegistryKeyView> {
    seq![
        RegistryKeyView { hive: Hive::LocalMachine, key, value },
        RegistryKeyView { hive: Hive::CurrentUser, key, value },
    ]
}

/// The registry values that are probed, most trusted first: each key in the
/// machine-wide hive before the hive of the user.
pub open spec fn registry_keys() -> Seq<RegistryKeyView> {
    in_both_hives(uninstall_key(), "InstallLocation"@) + in_both_hives(
        uninstall_key_32(),
        "InstallLocation"@,
    ) + in_both_hives(app_paths_key(), "Path"@)
}

fn push_in_both_hives(keys: &mut Vec<RegistryKey>, key: &str, value: &str)
    ensures
        final(keys).deep_view() == old(keys).deep_view() + in_both_hives(key@, value@),
{
    let ghost v0 = *keys;
    let machine = RegistryKey {
        hive: Hive::LocalMachine,
        key: String::from_str(key),
        value: String::from_str(value),
    };
    keys.push(machine);
    let ghost v1 = *keys;
    let user = RegistryKey {
        hive: Hive::CurrentUser,
        key: String::from_str(key),
        value: String::from_str(value),
    };
    keys.push(user);
    proof {
        lemma_deep_view_push(v0, v1, machine);
        lemma_deep_view_push(v1, *keys, user);
        assert(keys.deep_view() =~= v0.deep_view() + in_both_hives(key@, value@));
    }
}

/// The plan every resolution hands to the host.
pub open spec fn probe_plan() -> ProbePlanView {
    ProbePlanView { keys: registry_keys(), root_dir: default_root_dir(), payload_dir: payload_dir() }
}

/// Builds the plan every resolution hands to the host.
pub fn make_probe_plan() -> (out: ProbePlan)
    ensures
        out.deep_view() == probe_plan(),
{
    let mut keys: Vec<RegistryKey> = Vec::new();
    proof {
        assert(keys.deep_view() =~= Seq::<RegistryKeyView>::empty());
    }
    push_in_both_hives(
        &mut keys,
        "SOFTWARE\\Microsoft\\Windows\\CurrentVersion\\Uninstall\\CapCut",
        "InstallLocation",
    );
    push_in_both_hives(
        &mut keys,
        "SOFTWARE\\WOW6432Node\\Microsoft\\Windows\\CurrentVersion\\Uninstall\\CapCut",
        "InstallLocation",
    );
    push_in_both_hives(
        &mut keys,
        "SOFTWARE\\Microsoft\\Windows\\CurrentVersion\\App Paths\\CapCut.exe",
        "Path",
    );
    proof {
        assert(keys.deep_view() =~= registry_keys());
    }
    ProbePlan { keys, root_dir: String::from_str("CapCut"), payload_dir: String::from_str("Apps") }
}

/// A candidate install root and what the host saw of it.
#[derive(Debug, Clone, PartialEq, Eq)]
pub struct RootProbe {
    /// The candidate root.
    pub root: Location,
    /// The root exists on disk.
    pub exists: bool,
    /// The payload directory exists directly under the root.
    pub apps_exists: bool,
}

/// A `RootProbe` as plain sequences.
pub struct RootProbeView {
    pub root: Place,
    pub exists: bool,
    pub apps_exists: bool,
}

impl DeepView for RootProbe {
    type V = RootProbeView;

    open spec fn deep_view(&self) -> RootProbeView {
        RootProbeView {
            root: self.root.deep_view(),
            exists: self.exists,
            apps_exists: self.apps_exists,
        }
    }
}

/// What the host found when asked for the install.
#[derive(Debug, Clone, PartialEq, Eq)]
pub struct InstallProbe {
    /// The registry values that could be read, in the order of the plan.
    pub registry: Vec<RootProbe>,
    /// The default root, where the per-user application data is known.
    pub default_root: Option<RootProbe>,
}

/// An `InstallProbe` as plain sequences.
pub struct InstallProbeView {
    pub registry: Seq<RootProbeView>,
    pub default_root: Option<RootProbeView>,
}

impl DeepView for InstallProbe {
    type V = InstallProbeView;

    open spec fn deep_view(&self) -> InstallProbeView {
        InstallProbeView {
            registry: self.registry.deep_view(),
            default_root: self.default_root.deep_view(),
        }
    }
}

/// What the host saw of a path that the user named.
#[derive(Debug, Clone, PartialEq, Eq)]
pub struct CustomProbe {
    /// The path exists on disk.
    pub exists: bool,
    /// The payload directory exists directly under the path.
    pub apps_exists: bool,
    /// The final name of the path, where it has one.
    pub leaf: Option<String>,
    /// The path without its final name, where it has a parent.
    pub parent: Option<String>,
}

/// A `CustomProbe` as plain sequences.
pub struct CustomProbeView {
    pub exists: bool,
    pub apps_exists: bool,
    pub leaf: Option<Seq<char>>,
    pub parent: Option<Seq<char>>,
}

impl DeepView for CustomProbe {
    type V = CustomProbeView;

    open spec fn deep_view(&self) -> CustomProbeView {
        CustomProbeView {
            exists: self.exists,
            apps_exists: self.apps_exists,
            leaf: self.leaf.deep_view(),
            parent: self.parent.deep_view(),
        }
    }
}

/// How an install was found.
#[derive(Debug, Clone, PartialEq, Eq)]
pub enum PathDetectionSource {
    Registry,
    DefaultLocation,
    Custom(String),
}

/// A `PathDetectionSource` as plain sequences.
pub enum SourceView {
    Registry,
    DefaultLocation,
    Custom(Seq<char>),
}

impl DeepView for PathDetectionSource {
    type V = SourceView;

    open spec fn deep_view(&self) -> SourceView {
        match self {
            PathDetectionSource::Registry => SourceView::Registry,
            PathDetectionSource::DefaultLocation => SourceView::DefaultLocation,
            PathDetectionSource::Custom(path) => SourceView::Custom(path@),
        }
    }
}

/// An install: its root, the directory that holds the versions, and how it
/// was found.
#[derive(Debug, Clone, PartialEq, Eq)]
pub struct CapCutPaths {
    pub root: Location,
    pub apps: Location,
    pub source: PathDetectionSource,
}

/// A `CapCutPaths` as plain sequences.
pub struct PathsView {
    pub root: Place,
    pub apps: Place,
    pub source: SourceView,
}

impl DeepView for CapCutPaths {
    type V = PathsView;

    open spec fn deep_view(&self) -> PathsView {
        PathsView {
            root: self.root.deep_view(),
            apps: self.apps.deep_view(),
            source: self.source.deep_view(),
        }
    }
}

/// The index of the first candidate that exists on disk.
pub open spec fn first_existing(probes: Seq<RootProbeView>) -> Option<int>
    decreases probes.len(),
{
    if probes.len() == 0 {
        None
    } else if probes[0].exists {
        Some(0)
    } else {
        match first_existing(probes.drop_first()) {
            Some(i) => Some(i + 1),
            None => None,
        }
    }
}

/// `first_existing` names a candidate that exists and has none before it that
/// does; it names none only where no candidate exists.
pub proof fn lemma_first_existing(probes: Seq<RootProbeView>)
    ensures
        match first_existing(probes) {
            Some(i) => 0 <= i < probes.len() && probes[i].exists && forall|j: int|
                0 <= j < i ==> !(#[trigger] probes[j]).exists,
            None => forall|j: int| 0 <= j < probes.len() ==> !(#[trigger] probes[j]).exists,
        },
    decreases probes.len(),
{
    if probes.len() > 0 && !probes[0].exists {
        let rest = probes.drop_first();
        lemma_first_existing(rest);
        match first_existing(rest) {
            Some(i) => {
                assert forall|j: int| 0 <= j < i + 1 implies !(#[trigger] probes[j]).exists by {
                    if j > 0 {
                        assert(probes[j] == rest[j - 1]);
                    }
                }
            },
            None => {
                assert forall|j: int| 0 <= j < probes.len() implies !(#[trigger] probes[j]).exists by {
                    if j > 0 {
                        assert(probes[j] == rest[j - 1]);
                    }
                }
            },
        }
    }
}

/// The install the probe stands for. A registry candidate that exists wins
/// over the default root, which counts where it or its payload directory
/// exists. Either way the payload directory is the one under the root where
/// that exists, else the root itself.
pub open spec fn chosen_install(probe: InstallProbeView) -> Option<PathsView> {
    match first_existing(probe.registry) {
        Some(i) => {
            let hit = probe.registry[i];
            Some(
                PathsView {
                    root: hit.root,
                    apps: if hit.apps_exists {
                        hit.root.child(payload_dir())
                    } else {
                        hit.root
                    },
                    source: SourceView::Registry,
                },
            )
        },
        None => match probe.default_root {
            Some(d) => if d.exists || d.apps_exists {
                Some(
                    PathsView {
                        root: d.root,
                        apps: if d.apps_exists {
                            d.root.child(payload_dir())
                        } else {
                            d.root
                        },
                        source: SourceView::DefaultLocation,
                    },
                )
            } else {
                None
            },
            None => None,
        },
    }
}

/// The first registry candidate that exists on disk, by its index.
pub fn find_from_registry(probes: &Vec<RootProbe>) -> (out: Option<usize>)
    ensures
        match out {
            Some(i) => first_existing(probes.deep_view()) == Some(i as int),
            None => first_existing(probes.deep_view()) is None,
        },
        match out {
            Some(i) => i < probes.len() && probes[i as int].exists && forall|j: int|
                0 <= j < i ==> !(#[trigger] probes[j]).exists,
            None => forall|j: int| 0 <= j < probes.len() ==> !(#[trigger] probes[j]).exists,
        },
{
    let ghost all = probes.deep_view();
    let mut i: usize = 0;
    while i < probes.len()
        invariant
            i <= probes.len(),
            all == probes.deep_view(),
            forall|j: int| 0 <= j < i ==> !(#[trigger] probes[j]).exists,
        decreases probes.len() - i,
    {
        if probes[i].exists {
            proof {
                lemma_first_existing(all);
                assert(all[i as int].exists);
                assert forall|j: int| 0 <= j < i implies !(#[trigger] all[j]).exists by {
                    assert(!probes[j].exists);
                }
            }
            return Some(i);
        }
        i += 1;
    }
    proof {
        lemma_first_existing(all);
        assert forall|j: int| 0 <= j < all.len() implies !(#[trigger] all[j]).exists by {
            assert(!probes[j].exists);
        }
    }
    None
}

/// Chooses the install from what the host found.
pub fn choose_install(probe: &InstallProbe) -> (out: Option<CapCutPaths>)
    ensures
        out.deep_view() == chosen_install(probe.deep_view()),
{
    match find_from_registry(&probe.registry) {
        Some(i) => {
            let hit = &probe.registry[i];
            let apps = if hit.apps_exists {
                hit.root.child("Apps")
            } else {
                hit.root.duplicate()
            };
            Some(CapCutPaths { root: hit.root.duplicate(), apps, source: PathDetectionSource::Registry })
        },
        None => match &probe.default_root {
            Some(d) => {
                if d.exists || d.apps_exists {
                    let apps = if d.apps_exists {
                        d.root.child("Apps")
                    } else {
                        d.root.duplicate()
                    };
                    Some(
                        CapCutPaths {
                            root: d.root.duplicate(),
                            apps,
                            source: PathDetectionSource::DefaultLocation,
                        },
                    )
                } else {
                    None
                }
            },
            None => None,
        },
    }
}

/// How resolving the install goes: the host probes the candidates, and the
/// install is chosen from what it found.
pub open spec fn resolve_flow(history: Seq<ReplyView>) -> StepView<Option<PathsView>> {
    match reply_at(history, 0) {
        None => StepView::Ask(RequestView::ProbeInstall(probe_plan())),
        Some(probed) => StepView::Done(chosen_install(probed.install())),
    }
}

/// Finds the install: the next request for the host, or the install, if there
/// is one.
pub fn resolve_capcut_paths(history: &Vec<Reply>) -> (step: Step<Option<CapCutPaths>>)
    ensures
        step.deep_view() == resolve_flow(history.deep_view()),
{
    let mut cursor = Cursor::start(history);
    match cursor.ask(Request::ProbeInstall(make_probe_plan())) {
        Err(request) => Step::Ask(request),
        Ok(probed) => match probed.install() {
            Some(probe) => Step::Done(choose_install(probe)),
            None => Step::Done(None),
        },
    }
}

/// Finds the install; the same as `resolve_capcut_paths`.
pub fn get_path_info(history: &Vec<Reply>) -> (step: Step<Option<CapCutPaths>>)
    ensures
        step.deep_view() == resolve_flow(history.deep_view()),
{
    resolve_capcut_paths(history)
}

/// The directory that holds the versions of the install, if there is one.
pub fn get_capcut_apps_path(history: &Vec<Reply>) -> (step: Step<Option<Location>>)
    ensures
        step.deep_view() == match resolve_flow(history.deep_view()) {
            StepView::Ask(q) => StepView::<Option<Place>>::Ask(q),
            StepView::Done(Some(paths)) => StepView::Done(Some(paths.apps)),
            StepView::Done(None) => StepView::Done(None),
        },
{
    match resolve_capcut_paths(history) {
        Step::Ask(request) => Step::Ask(request),
        Step::Done(Some(paths)) => Step::Done(Some(paths.apps)),
        Step::Done(None) => Step::Done(None),
    }
}

/// The root of the install, if there is one.
pub fn get_capcut_root_path(history: &Vec<Reply>) -> (step: Step<Option<Location>>)
    ensures
        step.deep_view() == match resolve_flow(history.deep_view()) {
            StepView::Ask(q) => StepView::<Option<Place>>::Ask(q),
            StepView::Done(Some(paths)) => StepView::Done(Some(paths.root)),
            StepView::Done(None) => StepView::Done(None),
        },
{
    match resolve_capcut_paths(history) {
        Step::Ask(request) => Step::Ask(request),
        Step::Done(Some(paths)) => Step::Done(Some(paths.root)),
        Step::Done(None) => Step::Done(None),
    }
}

/// The install that a path named by the user stands for, given what the host
/// saw of it. The path must exist. Where the payload directory lies under it,
/// the path is the root. Where the path is itself called like the payload
/// directory and has a parent, the path is the payload directory and the
/// parent is the root. Any other path stands for no install.
pub open spec fn custom_install(path: Seq<char>, seen: CustomProbeView) -> Option<PathsView> {
    if !seen.exists {
        None
    } else if seen.apps_exists {
        Some(
            PathsView {
                root: Place::at(path),
                apps: Place::at(path).child(payload_dir()),
                source: SourceView::Custom(path),
            },
        )
    } else if seen.leaf == Some(payload_dir()) && seen.parent is Some {
        Some(
            PathsView {
                root: Place::at(seen.parent->0),
                apps: Place::at(path),
                source: SourceView::Custom(path),
            },
        )
    } else {
        None
    }
}

/// Chooses the install that the user's path stands for.
pub fn choose_custom(custom_path: &str, seen: &CustomProbe) -> (out: Option<CapCutPaths>)
    ensures
        out.deep_view() == custom_install(custom_path@, seen.deep_view()),
{
    if !seen.exists {
        return None;
    }
    let here = Location::at(custom_path);
    if seen.apps_exists {
        return Some(
            CapCutPaths {
                root: here.duplicate(),
                apps: here.child("Apps"),
                source: PathDetectionSource::Custom(String::from_str(custom_path)),
            },
        );
    }
    let named_like_payload = match &seen.leaf {
        Some(name) => same_text(name.as_str(), "Apps"),
        None => false,
    };
    if named_like_payload {
        if let Some(parent) = &seen.parent {
            return Some(
                CapCutPaths {
                    root: Location::at(parent.as_str()),
                    apps: here,
                    source: PathDetectionSource::Custom(String::from_str(custom_path)),
                },
            );
        }
    }
    None
}

/// How checking a path named by the user goes: the host looks at the path,
/// and the install is chosen from what it saw.
pub open spec fn custom_flow(path: Seq<char>, history: Seq<ReplyView>) -> StepView<Option<PathsView>> {
    match reply_at(history, 0) {
        None => StepView::Ask(RequestView::ProbeCustom { path, payload_dir: payload_dir() }),
        Some(probed) => StepView::Done(custom_install(path, probed.custom())),
    }
}

/// Checks whether `custom_path` holds an install: the next request for the
/// host, or the install it stands for, if any.
pub fn validate_custom_path(custom_path: &str, history: &Vec<Reply>) -> (step: Step<
    Option<CapCutPaths>,
>)
    ensures
        step.deep_view() == custom_flow(custom_path@, history.deep_view()),
{
    let mut cursor = Cursor::start(history);
    let request = Request::ProbeCustom {
        path: String::from_str(custom_path),
        payload_dir: String::from_str("Apps"),
    };
    match cursor.ask(request) {
        Err(request) => Step::Ask(request),
        Ok(probed) => match probed.custom() {
            Some(seen) => Step::Done(choose_custom(custom_path, seen)),
            None => Step::Done(None),
        },
    }
}

/// Checks a path named by the user; the same as `validate_custom_path`.
pub fn validate_custom_capcut_path(path: String, history: &Vec<Reply>) -> (step: Step<
    Option<CapCutPaths>,
>)
    ensures
        step.deep_view() == custom_flow(path@, history.deep_view()),
{
    validate_custom_path(path.as_str(), history)
}

/// Where a registry candidate and the default root both exist, the install
/// that is chosen is the registry's: its root is the first registry candidate
/// that exists, whatever the default root holds.
pub proof fn lemma_registry_wins(probe: InstallProbeView, i: int)
    requires
        0 <= i < probe.registry.len(),
        probe.registry[i].exists,
        probe.default_root is Some,
        probe.default_root->0.exists || probe.default_root->0.apps_exists,
    ensures
        chosen_install(probe) is Some,
        chosen_install(probe)->0.source == SourceView::Registry,
        first_existing(probe.registry) is Some,
        first_existing(probe.registry)->0 <= i,
        chosen_install(probe)->0.root == probe.registry[first_existing(probe.registry)->0].root,
{
    lemma_first_existing(probe.registry);
}

/// Resolution prefers the registry. Where the host found a registry
/// candidate that exists and a default root that exists, resolving ends with
/// the install of the first registry candidate that exists.
pub proof fn lemma_resolution_prefers_registry(history: Seq<ReplyView>, i: int)
    requires
        history.len() > 0,
        0 <= i < history[0].install().registry.len(),
        history[0].install().registry[i].exists,
        history[0].install().default_root is Some,
        history[0].install().default_root->0.exists
            || history[0].install().default_root->0.apps_exists,
    ensures
        resolve_flow(history) is Done,
        resolve_flow(history)->Done_0 is Some,
        resolve_flow(history)->Done_0->0.source == SourceView::Registry,
        resolve_flow(history)->Done_0->0.root == history[0].install().registry[first_existing(
            history[0].install().registry,
        )->0].root,
{
    lemma_registry_wins(history[0].install(), i);
}

/// The candidate that an install was chosen from: the first registry
/// candidate that exists, else the default root.
pub open spec fn chosen_candidate(probe: InstallProbeView) -> RootProbeView {
    match first_existing(probe.registry) {
        Some(i) => probe.registry[i],
        None => probe.default_root->0,
    }
}

/// What holds of every install that is chosen. Its root is that of the
/// candidate it was chosen from. Its payload directory is one that the host
/// saw on disk: the directory under the root where that exists, else the root
/// itself, which then exists.
pub proof fn lemma_chosen_install(probe: InstallProbeView)
    requires
        chosen_install(probe) is Some,
    ensures
        first_existing(probe.registry) is None ==> probe.default_root is Some,
        chosen_install(probe)->0.source == if first_existing(probe.registry) is Some {
            SourceView::Registry
        } else {
            SourceView::DefaultLocation
        },
        chosen_install(probe)->0.root == chosen_candidate(probe).root,
        chosen_candidate(probe).apps_exists ==> chosen_install(probe)->0.apps == chosen_candidate(
            probe,
        ).root.child(payload_dir()),
        !chosen_candidate(probe).apps_exists ==> chosen_candidate(probe).exists && chosen_install(
            probe,
        )->0.apps == chosen_candidate(probe).root,
{
    lemma_first_existing(probe.registry);
}

/// Where no registry candidate exists and the default root is unknown or
/// absent from disk, no install is chosen.
pub proof fn lemma_nothing_to_resolve(probe: InstallProbeView)
    requires
        forall|j: int| 0 <= j < probe.registry.len() ==> !(#[trigger] probe.registry[j]).exists,
        probe.default_root is Some ==> !probe.default_root->0.exists
            && !probe.default_root->0.apps_exists,
    ensures
        chosen_install(probe) is None,
{
    lemma_first_existing(probe.registry);
}

} // verus!
