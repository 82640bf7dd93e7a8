//! The versions that are installed, and the catalog of versions that can be
//! had.

use crate::backup::{recorded_size, walked_size};
use crate::catalog::ALL_VERSIONS_DATA;
use crate::host::{lemma_deep_view_push, total_size, Location, Place};
use crate::paths::{chosen_install, probe_plan};
use crate::process::{dir_names, listed_directories};
use crate::protector::resolve_from;
use crate::protocol::{
    agrees, reply_at, report, Cursor, Flow, Reply, ReplyView, Request, RequestView, Step, StepView,
};
use crate::text::{
    contains, fields_of, from_chars, lines, lines_of, occurs_in, sort_names, sorted_names, split,
    to_chars, trim, trimmed,
};
use vstd::prelude::*;
use vstd::string::*;

verus! {

/// An installed version: the name of its directory, the directory, and the
/// bytes in its regular files.
#[derive(Debug, Clone, PartialEq, Eq)]
pub struct VersionInfo {
    pub name: String,
    pub path: Location,
    pub size_bytes: u64,
}

/// A `VersionInfo` as plain sequences.
pub struct VersionView {
    pub name: Seq<char>,
    pub path: Place,
    pub size_bytes: u64,
}

impl DeepView for VersionInfo {
    type V = VersionView;

    open spec fn deep_view(&self) -> VersionView {
        VersionView { name: self.name@, path: self.path.deep_view(), size_bytes: self.size_bytes }
    }
}

/// How measuring the versions called `names`, from the `i`-th on, goes, read
/// from position `at` of the history: each is walked for its size.
pub open spec fn scan_from(
    apps: Place,
    names: Seq<Seq<char>>,
    i: int,
    found: Seq<VersionView>,
    history: Seq<ReplyView>,
    at: int,
) -> Flow<Seq<VersionView>>
    decreases names.len() - i,
{
    if i < 0 || i >= names.len() {
        Flow::Done { value: found, next: at }
    } else {
        match reply_at(history, at) {
            None => Flow::Ask(RequestView::Walk(apps.child(names[i]))),
            Some(walked) => scan_from(
                apps,
                names,
                i + 1,
                found.push(
                    VersionView {
                        name: names[i],
                        path: apps.child(names[i]),
                        size_bytes: recorded_size(total_size(walked.entries())),
                    },
                ),
                history,
                at + 1,
            ),
        }
    }
}

/// How scanning for installed versions goes. There are none where no install
/// is found or its payload directory is missing. Else each directory in the
/// payload directory is a version; they are reported in the order of their
/// names.
pub open spec fn scan_flow(history: Seq<ReplyView>, at: int) -> Flow<Seq<VersionView>> {
    match reply_at(history, at) {
        None => Flow::Ask(RequestView::ProbeInstall(probe_plan())),
        Some(probed) => match chosen_install(probed.install()) {
            None => Flow::Done { value: Seq::empty(), next: at + 1 },
            Some(paths) => match reply_at(history, at + 1) {
                None => Flow::Ask(RequestView::Stat(paths.apps)),
                Some(seen) => if seen.meta() is None {
                    Flow::Done { value: Seq::empty(), next: at + 2 }
                } else {
                    match reply_at(history, at + 2) {
                        None => Flow::Ask(RequestView::ListDir(paths.apps)),
                        Some(listed) => scan_from(
                            paths.apps,
                            sorted_names(dir_names(listed.entries()), false),
                            0,
                            Seq::empty(),
                            history,
                            at + 3,
                        ),
                    }
                },
            },
        },
    }
}

fn scan(cursor: &mut Cursor) -> (out: Result<Vec<VersionInfo>, Request>)
    ensures
        agrees(out, final(cursor).at, scan_flow(old(cursor).history.deep_view(), old(cursor).at as int)),
{
    let ghost history = cursor.history.deep_view();
    let ghost goal = scan_flow(history, cursor.at as int);
    let mut found: Vec<VersionInfo> = Vec::new();
    proof {
        assert(found.deep_view() =~= Seq::<VersionView>::empty());
    }
    let paths = match resolve_from(cursor)? {
        Some(paths) => paths,
        None => {
            return Ok(found);
        },
    };
    let seen = cursor.ask(Request::Stat(paths.apps.duplicate()))?;
    if seen.meta().is_none() {
        return Ok(found);
    }
    let listed = cursor.ask(Request::ListDir(paths.apps.duplicate()))?;
    let names = sort_names(&listed_directories(listed), false);
    let ghost apps = paths.apps.deep_view();
    let mut i: usize = 0;
    while i < names.len()
        invariant
            i <= names.len(),
            apps == paths.apps.deep_view(),
            history == cursor.history.deep_view(),
            cursor.history == old(cursor).history,
            goal == scan_flow(old(cursor).history.deep_view(), old(cursor).at as int),
            goal == scan_from(
                apps,
                names.deep_view(),
                i as int,
                found.deep_view(),
                history,
                cursor.at as int,
            ),
        decreases names.len() - i,
    {
        let name = &names[i];
        assert(names.deep_view()[i as int] == name@);
        let dir = paths.apps.child(name.as_str());
        let walked = cursor.ask(Request::Walk(dir.duplicate()))?;
        let version = VersionInfo { name: name.clone(), path: dir, size_bytes: walked_size(walked) };
        let ghost before = found;
        found.push(version);
        proof {
            lemma_deep_view_push(before, found, version);
        }
        i += 1;
    }
    Ok(found)
}

/// Without an install to be found, no version is found and no directory of
/// an install is reported.
pub proof fn lemma_no_versions_without_install(history: Seq<ReplyView>)
    requires
        history.len() > 0,
        chosen_install(history[0].install()) is None,
    ensures
        scan_flow(history, 0).step() == StepView::Done(Seq::<VersionView>::empty()),
        install_dirs_flow(history, 0).step() == StepView::Done(None::<(Place, Place)>),
{
}

/// Scans for installed versions: the next request for the host, or the
/// versions, in the order of their names.
pub fn scan_versions(history: &Vec<Reply>) -> (step: Step<Vec<VersionInfo>>)
    ensures
        step.deep_view() == scan_flow(history.deep_view(), 0).step(),
{
    let mut cursor = Cursor::start(history);
    report(scan(&mut cursor))
}

/// How asking for the directories of the install goes: the install is
/// resolved for its payload directory and again for its root, and the two are
/// reported where the payload directory exists.
pub open spec fn install_dirs_flow(history: Seq<ReplyView>, at: int) -> Flow<Option<(Place, Place)>> {
    match reply_at(history, at) {
        None => Flow::Ask(RequestView::ProbeInstall(probe_plan())),
        Some(first) => match chosen_install(first.install()) {
            None => Flow::Done { value: None, next: at + 1 },
            Some(for_apps) => match reply_at(history, at + 1) {
                None => Flow::Ask(RequestView::ProbeInstall(probe_plan())),
                Some(second) => match chosen_install(second.install()) {
                    None => Flow::Done { value: None, next: at + 2 },
                    Some(for_root) => match reply_at(history, at + 2) {
                        None => Flow::Ask(RequestView::Stat(for_apps.apps)),
                        Some(seen) => Flow::Done {
                            value: if seen.meta() is Some {
                                Some((for_apps.apps, for_root.root))
                            } else {
                                None
                            },
                            next: at + 3,
                        },
                    },
                },
            },
        },
    }
}

fn install_dirs(cursor: &mut Cursor) -> (out: Result<Option<(Location, Location)>, Request>)
    ensures
        agrees(
            out,
            final(cursor).at,
            install_dirs_flow(old(cursor).history.deep_view(), old(cursor).at as int),
        ),
{
    let apps = match resolve_from(cursor)? {
        Some(paths) => paths.apps,
        None => {
            return Ok(None);
        },
    };
    let root = match resolve_from(cursor)? {
        Some(paths) => paths.root,
        None => {
            return Ok(None);
        },
    };
    let seen = cursor.ask(Request::Stat(apps.duplicate()))?;
    if seen.meta().is_some() {
        Ok(Some((apps, root)))
    } else {
        Ok(None)
    }
}

/// The payload directory and the root of the install: the next request for
/// the host, or the two, where the payload directory exists.
pub fn get_capcut_paths(history: &Vec<Reply>) -> (step: Step<Option<(Location, Location)>>)
    ensures
        step.deep_view() == install_dirs_flow(history.deep_view(), 0).step(),
{
    let mut cursor = Cursor::start(history);
    report(install_dirs(&mut cursor))
}

/// A version from the catalog.
#[derive(Debug, Clone, PartialEq, Eq)]
pub struct ArchiveVersion {
    pub persona: String,
    pub version: String,
    pub description: String,
    pub features: Vec<String>,
    pub download_url: String,
    pub risk_level: String,
}

/// An `ArchiveVersion` as plain sequences.
pub struct ArchiveView {
    pub persona: Seq<char>,
    pub version: Seq<char>,
    pub description: Seq<char>,
    pub features: Seq<Seq<char>>,
    pub download_url: Seq<char>,
    pub risk_level: Seq<char>,
}

impl DeepView for ArchiveVersion {
    type V = ArchiveView;

    open spec fn deep_view(&self) -> ArchiveView {
        ArchiveView {
            persona: self.persona@,
            version: self.version@,
            description: self.description@,
            features: self.features.deep_view(),
            download_url: self.download_url@,
            risk_level: self.risk_level@,
        }
    }
}

/// How risky a version is, by the first digit of its number: the later the
/// version, the higher.
pub open spec fn risk_of(version: Seq<char>) -> Seq<char> {
    if version.len() > 0 && (version[0] == '5' || version[0] == '4') {
        "High"@
    } else if version.len() > 0 && version[0] == '3' {
        "Medium"@
    } else {
        "Low"@
    }
}

/// What the catalog says of a version, by its label.
pub open spec fn describe(label: Seq<char>) -> Seq<char> {
    if occurs_in(label, "5.4.0"@) && occurs_in(label, "Beta6"@) {
        "Last version compatible with CC Version Guard"@
    } else if occurs_in(label, "Beta"@) || occurs_in(label, "Test"@) {
        "Beta/Test release"@
    } else if occurs_in(label, "Latest"@) {
        "Stable release"@
    } else {
        "Release version"@
    }
}

/// The version that a line of the catalog stands for: label, number and
/// address, set apart by bars; none where the line has fewer than three
/// fields.
pub open spec fn entry_of(line: Seq<char>) -> Option<ArchiveView> {
    let parts = fields_of(line, '|');
    if parts.len() < 3 {
        None
    } else {
        Some(
            ArchiveView {
                persona: trimmed(parts[0]),
                version: trimmed(parts[1]),
                description: describe(trimmed(parts[0])),
                features: Seq::empty(),
                download_url: trimmed(parts[2]),
                risk_level: risk_of(trimmed(parts[1])),
            },
        )
    }
}

/// The versions that the lines of a catalog stand for, in their order; blank
/// lines and lines with too few fields stand for none.
pub open spec fn catalog_of(lines: Seq<Seq<char>>) -> Seq<ArchiveView>
    decreases lines.len(),
{
    if lines.len() == 0 {
        Seq::empty()
    } else {
        let rest = catalog_of(lines.drop_last());
        if trimmed(lines.last()).len() == 0 {
            rest
        } else {
            match entry_of(lines.last()) {
                Some(entry) => rest.push(entry),
                None => rest,
            }
        }
    }
}

fn risk_level(version: &Vec<char>) -> (out: String)
    ensures
        out@ == risk_of(version@),
{
    if version.len() > 0 && (version[0] == '5' || version[0] == '4') {
        String::from_str("High")
    } else if version.len() > 0 && version[0] == '3' {
        String::from_str("Medium")
    } else {
        String::from_str("Low")
    }
}

fn description(label: &Vec<char>) -> (out: String)
    ensures
        out@ == describe(label@),
{
    if contains(label, &to_chars("5.4.0")) && contains(label, &to_chars("Beta6")) {
        String::from_str("Last version compatible with CC Version Guard")
    } else if contains(label, &to_chars("Beta")) || contains(label, &to_chars("Test")) {
        String::from_str("Beta/Test release")
    } else if contains(label, &to_chars("Latest")) {
        String::from_str("Stable release")
    } else {
        String::from_str("Release version")
    }
}

fn parse_entry(line: &Vec<char>) -> (out: Option<ArchiveVersion>)
    ensures
        out.deep_view() == entry_of(line@),
{
    let parts = split(line, '|');
    if parts.len() < 3 {
        return None;
    }
    proof {
        assert(parts.deep_view()[0] =~= parts@[0]@);
        assert(parts.deep_view()[1] =~= parts@[1]@);
        assert(parts.deep_view()[2] =~= parts@[2]@);
    }
    let label = trim(&parts[0]);
    let version = trim(&parts[1]);
    let url = trim(&parts[2]);
    let features: Vec<String> = Vec::new();
    proof {
        assert(features.deep_view() =~= Seq::<Seq<char>>::empty());
    }
    Some(
        ArchiveVersion {
            persona: from_chars(&label),
            version: from_chars(&version),
            description: description(&label),
            features,
            download_url: from_chars(&url),
            risk_level: risk_level(&version),
        },
    )
}

/// Reads a catalog: one version to a line.
pub fn parse_catalog(data: &str) -> (out: Vec<ArchiveVersion>)
    ensures
        out.deep_view() == catalog_of(lines_of(data@)),
{
    let chars = to_chars(data);
    let all_lines = lines(&chars);
    let ghost all = all_lines.deep_view();
    let mut out: Vec<ArchiveVersion> = Vec::new();
    let mut i: usize = 0;
    proof {
        assert(all.take(0) =~= Seq::<Seq<char>>::empty());
        assert(out.deep_view() =~= Seq::<ArchiveView>::empty());
    }
    while i < all_lines.len()
        invariant
            i <= all_lines.len(),
            all == all_lines.deep_view(),
            out.deep_view() == catalog_of(all.take(i as int)),
        decreases all_lines.len() - i,
    {
        let line = &all_lines[i];
        proof {
            assert(all[i as int] =~= line@);
            assert(all.take(i + 1).drop_last() =~= all.take(i as int));
            assert(all.take(i + 1).last() == all[i as int]);
        }
        if trim(line).len() > 0 {
            if let Some(entry) = parse_entry(line) {
                let ghost before = out;
                out.push(entry);
                proof {
                    lemma_deep_view_push(before, out, entry);
                }
            }
        }
        i += 1;
    }
    proof {
        assert(all.take(all.len() as int) =~= all);
    }
    out
}

/// Every version of the catalog.
pub fn get_all_archive_versions() -> (out: Vec<ArchiveVersion>)
    ensures
        out.deep_view() == catalog_of(lines_of(ALL_VERSIONS_DATA@)),
{
    parse_catalog(ALL_VERSIONS_DATA)
}

} // verus!
