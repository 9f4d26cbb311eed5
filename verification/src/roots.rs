//! Candidate installation roots: where they come from, in what order they
//! are tried, and which of them survive deduplication.

use crate::paths::{join, join_path, Platform};
use vstd::prelude::*;
use vstd::string::*;

verus! {

/// Where a candidate root was taken from. The variants are listed in
/// priority order.
#[derive(Clone, Copy, Debug, PartialEq, Eq, Structural)]
pub enum RootSource {
    /// Reported by the platform's installation lookup.
    Registry,
    /// One of the conventional install locations on the system volume.
    Common,
    /// A conventional location on one of the secondary drive letters.
    SecondaryDrive,
    /// A conventional location below the user's home directory.
    Home,
}

/// A directory under which per-account save trees may live.
#[derive(Clone, Debug, PartialEq, Eq)]
pub struct InstallRoot {
    pub path: String,
    /// Position in the candidate list; a lower rank is tried first.
    pub rank: usize,
    pub source: RootSource,
    pub platform: Platform,
}

/// Mathematical model of an [`InstallRoot`].
pub struct InstallRootView {
    pub path: Seq<char>,
    pub rank: nat,
    pub source: RootSource,
    pub platform: Platform,
}

impl View for InstallRoot {
    type V = InstallRootView;

    open spec fn view(&self) -> InstallRootView {
        InstallRootView {
            path: self.path@,
            rank: self.rank as nat,
            source: self.source,
            platform: self.platform,
        }
    }
}

impl DeepView for InstallRoot {
    type V = InstallRootView;

    open spec fn deep_view(&self) -> InstallRootView {
        self@
    }
}

/// The name of the directory, below the installation directory, under
/// which the account directories live.
pub open spec fn userdata_dir() -> Seq<char> {
    "userdata"@
}

/// The conventional install locations on the Windows system volume.
pub open spec fn windows_common_paths() -> Seq<Seq<char>> {
    seq![
        "C:\\Program Files (x86)\\Steam\\userdata"@,
        "C:\\Program Files\\Steam\\userdata"@,
    ]
}

/// The conventional locations on the drive whose letter is `drive`.
pub open spec fn drive_paths(drive: Seq<char>) -> Seq<Seq<char>> {
    seq![
        drive + ":\\Steam\\userdata"@,
        drive + ":\\Games\\Steam\\userdata"@,
        drive + ":\\SteamLibrary\\userdata"@,
        drive + ":\\Program Files\\Steam\\userdata"@,
        drive + ":\\Program Files (x86)\\Steam\\userdata"@,
    ]
}

/// The sweep over the secondary drive letters `D` to `G`.
pub open spec fn secondary_drive_paths() -> Seq<Seq<char>> {
    drive_paths("D"@) + drive_paths("E"@) + drive_paths("F"@) + drive_paths("G"@)
}

/// The conventional locations below the home directory `home`.
pub open spec fn home_paths(home: Seq<char>) -> Seq<Seq<char>> {
    seq![
        join_path(Platform::Linux, home, ".steam/steam/userdata"@),
        join_path(Platform::Linux, home, ".local/share/Steam/userdata"@),
    ]
}

/// `paths`, each tagged with `source`.
pub open spec fn tagged(source: RootSource, paths: Seq<Seq<char>>) -> Seq<(RootSource, Seq<char>)> {
    Seq::new(paths.len(), |i: int| (source, paths[i]))
}

/// Every candidate root for `platform`, highest priority first, as pairs of
/// source and path.
///
/// On Windows: the account root below the installation directory, if the
/// installation lookup gave one, then the conventional locations, then
/// the secondary drive sweep. On Linux: the home-relative locations, if
/// the home directory is known. Elsewhere: nothing.
pub open spec fn candidate_entries(
    platform: Platform,
    install_dir: Option<Seq<char>>,
    home: Option<Seq<char>>,
) -> Seq<(RootSource, Seq<char>)> {
    match platform {
        Platform::Windows => {
            let first = match install_dir {
                Some(dir) => seq![
                    (RootSource::Registry, join_path(Platform::Windows, dir, userdata_dir())),
                ],
                None => Seq::empty(),
            };
            first + tagged(RootSource::Common, windows_common_paths()) + tagged(
                RootSource::SecondaryDrive,
                secondary_drive_paths(),
            )
        },
        Platform::Linux => match home {
            Some(h) => tagged(RootSource::Home, home_paths(h)),
            None => Seq::empty(),
        },
        Platform::Other => Seq::empty(),
    }
}

/// `entries` as install roots of `platform`, each ranked by its position.
pub open spec fn ranked(platform: Platform, entries: Seq<(RootSource, Seq<char>)>) -> Seq<
    InstallRootView,
> {
    Seq::new(
        entries.len(),
        |i: int|
            InstallRootView {
                path: entries[i].1,
                rank: i as nat,
                source: entries[i].0,
                platform: platform,
            },
    )
}

/// The candidate roots for `platform`, highest priority first.
pub open spec fn spec_candidate_roots(
    platform: Platform,
    install_dir: Option<Seq<char>>,
    home: Option<Seq<char>>,
) -> Seq<InstallRootView> {
    ranked(platform, candidate_entries(platform, install_dir, home))
}

fn push_root(roots: &mut Vec<InstallRoot>, platform: Platform, source: RootSource, path: String)
    ensures
        final(roots).deep_view() == old(roots).deep_view().push(
            InstallRootView { path: path@, rank: old(roots).len() as nat, source, platform },
        ),
{
    let rank = roots.len();
    roots.push(InstallRoot { path, rank, source, platform });
}

fn push_drive(roots: &mut Vec<InstallRoot>, drive: &str)
    ensures
        final(roots).deep_view() == old(roots).deep_view() + Seq::new(
            5,
            |i: int|
                InstallRootView {
                    path: drive_paths(drive@)[i],
                    rank: (old(roots).len() + i) as nat,
                    source: RootSource::SecondaryDrive,
                    platform: Platform::Windows,
                },
        ),
{
    let platform = Platform::Windows;
    let source = RootSource::SecondaryDrive;
    push_root(roots, platform, source, String::from_str(drive).concat(":\\Steam\\userdata"));
    push_root(roots, platform, source, String::from_str(drive).concat(":\\Games\\Steam\\userdata"));
    push_root(roots, platform, source, String::from_str(drive).concat(":\\SteamLibrary\\userdata"));
    push_root(
        roots,
        platform,
        source,
        String::from_str(drive).concat(":\\Program Files\\Steam\\userdata"),
    );
    push_root(
        roots,
        platform,
        source,
        String::from_str(drive).concat(":\\Program Files (x86)\\Steam\\userdata"),
    );
}

/// Lists every candidate root for `platform`, highest priority first.
///
/// `install_dir` is the installation directory that the platform's
/// installation lookup reported, if any; `home` is the user's home
/// directory, if known.
pub fn candidate_roots(platform: Platform, install_dir: Option<String>, home: Option<String>) -> (roots:
    Vec<InstallRoot>)
    ensures
        roots.deep_view() == spec_candidate_roots(
            platform,
            match install_dir {
                Some(dir) => Some(dir@),
                None => None,
            },
            match home {
                Some(h) => Some(h@),
                None => None,
            },
        ),
{
    let mut roots: Vec<InstallRoot> = Vec::new();
    match platform {
        Platform::Windows => {
            if let Some(dir) = install_dir {
                let root = join(platform, dir.as_str(), "userdata");
                push_root(&mut roots, platform, RootSource::Registry, root);
            }
            push_root(
                &mut roots,
                platform,
                RootSource::Common,
                String::from_str("C:\\Program Files (x86)\\Steam\\userdata"),
            );
            push_root(
                &mut roots,
                platform,
                RootSource::Common,
                String::from_str("C:\\Program Files\\Steam\\userdata"),
            );
            push_drive(&mut roots, "D");
            push_drive(&mut roots, "E");
            push_drive(&mut roots, "F");
            push_drive(&mut roots, "G");
        },
        Platform::Linux => {
            if let Some(h) = home {
                let first = join(platform, h.as_str(), ".steam/steam/userdata");
                let second = join(platform, h.as_str(), ".local/share/Steam/userdata");
                push_root(&mut roots, platform, RootSource::Home, first);
                push_root(&mut roots, platform, RootSource::Home, second);
            }
        },
        Platform::Other => {},
    }
    roots
}

/// What was found out about one candidate root on disk.
#[derive(Clone, Debug, PartialEq, Eq)]
pub struct RootProbe {
    pub root: InstallRoot,
    /// The canonical form of the root's path, where it could be computed.
    pub canonical: Option<String>,
    /// Whether the root's path exists.
    pub exists: bool,
}

/// Mathematical model of a [`RootProbe`].
pub struct RootProbeView {
    pub root: InstallRootView,
    pub canonical: Option<Seq<char>>,
    pub exists: bool,
}

impl RootProbeView {
    /// The path by which the probe is told apart from others: its
    /// canonical form, or the path as given where there is none.
    pub open spec fn key(self) -> Seq<char> {
        match self.canonical {
            Some(c) => c,
            None => self.root.path,
        }
    }
}

impl View for RootProbe {
    type V = RootProbeView;

    open spec fn view(&self) -> RootProbeView {
        RootProbeView {
            root: self.root@,
            canonical: match self.canonical {
                Some(c) => Some(c@),
                None => None,
            },
            exists: self.exists,
        }
    }
}

impl DeepView for RootProbe {
    type V = RootProbeView;

    open spec fn deep_view(&self) -> RootProbeView {
        self@
    }
}

/// No probe before position `i` has the key of the probe at `i`.
pub open spec fn is_first_of_key(probes: Seq<RootProbeView>, i: int) -> bool {
    forall|j: int| 0 <= j < i ==> (#[trigger] probes[j]).key() != probes[i].key()
}

/// The probe at `i` is kept: its path exists and its key was not seen
/// earlier in the list.
pub open spec fn is_resolved(probes: Seq<RootProbeView>, i: int) -> bool {
    0 <= i < probes.len() && probes[i].exists && is_first_of_key(probes, i)
}

/// The positions below `n` of the probes that are kept, ascending.
pub open spec fn resolved_indices(probes: Seq<RootProbeView>, n: int) -> Seq<int>
    decreases n,
{
    if n <= 0 {
        Seq::empty()
    } else if is_resolved(probes, n - 1) {
        resolved_indices(probes, n - 1).push(n - 1)
    } else {
        resolved_indices(probes, n - 1)
    }
}

/// The roots of the probes at the positions `indices`.
pub open spec fn roots_at(probes: Seq<RootProbeView>, indices: Seq<int>) -> Seq<InstallRootView> {
    Seq::new(indices.len(), |k: int| probes[indices[k]].root)
}

/// The roots that are kept, in the order of the probes.
pub open spec fn spec_resolve_roots(probes: Seq<RootProbeView>) -> Seq<InstallRootView> {
    roots_at(probes, resolved_indices(probes, probes.len() as int))
}

/// What holds of the positions that are kept: every one of them is below
/// `n` and kept, every kept position below `n` is among them, they ascend,
/// and no two of them share a key.
pub proof fn lemma_resolved_indices(probes: Seq<RootProbeView>, n: int)
    requires
        0 <= n <= probes.len(),
    ensures
        forall|k: int|
            0 <= k < resolved_indices(probes, n).len() ==> {
                &&& 0 <= (#[trigger] resolved_indices(probes, n)[k]) < n
                &&& is_resolved(probes, resolved_indices(probes, n)[k])
            },
        forall|i: int|
            0 <= i < n && is_resolved(probes, i) ==> resolved_indices(probes, n).contains(i),
        forall|a: int, b: int|
            0 <= a < b < resolved_indices(probes, n).len() ==> resolved_indices(probes, n)[a]
                < resolved_indices(probes, n)[b],
        forall|a: int, b: int|
            0 <= a < b < resolved_indices(probes, n).len() ==> probes[resolved_indices(
                probes,
                n,
            )[a]].key() != probes[resolved_indices(probes, n)[b]].key(),
    decreases n,
{
    if n > 0 {
        lemma_resolved_indices(probes, n - 1);
        let before = resolved_indices(probes, n - 1);
        let now = resolved_indices(probes, n);
        if is_resolved(probes, n - 1) {
            assert forall|i: int| 0 <= i < n && is_resolved(probes, i) implies now.contains(
                i,
            ) by {
                if i < n - 1 {
                    let k = choose|k: int| 0 <= k < before.len() && before[k] == i;
                    assert(now[k] == i);
                } else {
                    assert(now[now.len() - 1] == i);
                }
            }
            assert forall|a: int, b: int| 0 <= a < b < now.len() implies probes[now[a]].key()
                != probes[now[b]].key() by {
                if b == now.len() - 1 {
                    assert(is_first_of_key(probes, n - 1));
                    assert(0 <= before[a] < n - 1);
                }
            }
        } else {
            assert forall|i: int| 0 <= i < n && is_resolved(probes, i) implies now.contains(
                i,
            ) by {
                let k = choose|k: int| 0 <= k < before.len() && before[k] == i;
                assert(now[k] == i);
            }
        }
    }
}

/// Deduplication of the resolved roots: the result lists, in the order of
/// the probes, exactly the roots whose path exists and whose key no
/// earlier probe has, so no key occurs twice among them.
pub proof fn lemma_resolved_roots_are_distinct(probes: Seq<RootProbeView>)
    ensures
        spec_resolve_roots(probes).len() == resolved_indices(probes, probes.len() as int).len(),
        forall|k: int|
            0 <= k < spec_resolve_roots(probes).len() ==> {
                let i = resolved_indices(probes, probes.len() as int)[k];
                &&& is_resolved(probes, i)
                &&& (#[trigger] spec_resolve_roots(probes)[k]) == probes[i].root
            },
        forall|i: int|
            is_resolved(probes, i) ==> resolved_indices(probes, probes.len() as int).contains(i),
        forall|a: int, b: int|
            #![trigger spec_resolve_roots(probes)[a], spec_resolve_roots(probes)[b]]
            0 <= a < b < spec_resolve_roots(probes).len() ==> {
                let i = resolved_indices(probes, probes.len() as int)[a];
                let j = resolved_indices(probes, probes.len() as int)[b];
                i < j && probes[i].key() != probes[j].key()
            },
{
    lemma_resolved_indices(probes, probes.len() as int);
}

/// Priority order of the resolved roots: where the probes are listed by
/// ascending rank, so are the roots that are kept.
pub proof fn lemma_resolved_roots_keep_priority(probes: Seq<RootProbeView>)
    requires
        forall|i: int, j: int|
            0 <= i < j < probes.len() ==> (#[trigger] probes[i]).root.rank < (
            #[trigger] probes[j]).root.rank,
    ensures
        forall|a: int, b: int|
            0 <= a < b < spec_resolve_roots(probes).len() ==> (#[trigger] spec_resolve_roots(
                probes,
            )[a]).rank < (#[trigger] spec_resolve_roots(probes)[b]).rank,
{
    lemma_resolved_indices(probes, probes.len() as int);
    let indices = resolved_indices(probes, probes.len() as int);
    assert forall|a: int, b: int| 0 <= a < b < spec_resolve_roots(probes).len() implies (
    #[trigger] spec_resolve_roots(probes)[a]).rank < (#[trigger] spec_resolve_roots(
        probes,
    )[b]).rank by {
        assert(0 <= indices[a] < indices[b] < probes.len());
    }
}

pub(crate) fn probe_key(probe: &RootProbe) -> (key: &String)
    ensures
        key@ == probe@.key(),
{
    match &probe.canonical {
        Some(c) => c,
        None => &probe.root.path,
    }
}

fn clone_root(root: &InstallRoot) -> (copy: InstallRoot)
    ensures
        copy@ == root@,
{
    InstallRoot {
        path: root.path.clone(),
        rank: root.rank,
        source: root.source,
        platform: root.platform,
    }
}

fn key_is_new(probes: &Vec<RootProbe>, i: usize) -> (fresh: bool)
    requires
        i < probes.len(),
    ensures
        fresh == is_first_of_key(probes.deep_view(), i as int),
{
    let key = probe_key(&probes[i]);
    let mut j: usize = 0;
    while j < i
        invariant
            j <= i < probes.len(),
            key@ == probes.deep_view()[i as int].key(),
            forall|k: int| 0 <= k < j ==> (#[trigger] probes.deep_view()[k]).key() != key@,
        decreases i - j,
    {
        let other = probe_key(&probes[j]);
        if *other == *key {
            assert(probes.deep_view()[j as int].key() == key@);
            return false;
        }
        j += 1;
    }
    true
}

/// Picks the roots to search: those whose path exists, each path once.
///
/// Two probes name the same place when their keys are equal, the key
/// being the canonical path, or the path as given where no canonical
/// form could be computed. Of such probes only the first counts. The
/// result keeps the order of `probes`.
pub fn resolve_roots(probes: &Vec<RootProbe>) -> (roots: Vec<InstallRoot>)
    ensures
        roots.deep_view() == spec_resolve_roots(probes.deep_view()),
{
    let mut roots: Vec<InstallRoot> = Vec::new();
    let mut i: usize = 0;
    while i < probes.len()
        invariant
            i <= probes.len(),
            roots.deep_view() == roots_at(
                probes.deep_view(),
                resolved_indices(probes.deep_view(), i as int),
            ),
        decreases probes.len() - i,
    {
        let ghost before = roots.deep_view();
        let fresh = key_is_new(probes, i);
        if probes[i].exists && fresh {
            roots.push(clone_root(&probes[i].root));
            assert(roots.deep_view() =~= before.push(probes[i as int]@.root));
        }
        i += 1;
    }
    roots
}

/// The bracketed tag under which a root of the given source is reported.
pub open spec fn source_label(source: RootSource) -> Seq<char> {
    match source {
        RootSource::Registry => "REGISTRY"@,
        RootSource::Common => "COMMON"@,
        RootSource::SecondaryDrive => "DRIVE"@,
        RootSource::Home => "LINUX"@,
    }
}

/// `true` or `false`, spelled out.
pub open spec fn bool_text(b: bool) -> Seq<char> {
    if b {
        "true"@
    } else {
        "false"@
    }
}

/// The report line of one probe: its tag, its path, and whether the path
/// exists.
pub open spec fn probe_line(probe: RootProbeView) -> Seq<char> {
    "["@ + source_label(probe.root.source) + "] "@ + probe.root.path + " (exists: "@ + bool_text(
        probe.exists,
    ) + ")"@
}

/// Some probe among `probes` comes from the installation lookup.
pub open spec fn has_registry_root(probes: Seq<RootProbeView>) -> bool {
    exists|i: int| 0 <= i < probes.len() && (#[trigger] probes[i]).root.source == RootSource::Registry
}

/// The report for `probes`: on Windows a note when the installation lookup
/// gave nothing, then one line for each probe, in order.
pub open spec fn spec_debug_search_paths(platform: Platform, probes: Seq<RootProbeView>) -> Seq<
    Seq<char>,
> {
    let head = if platform == Platform::Windows && !has_registry_root(probes) {
        seq!["[REGISTRY] Not found"@]
    } else {
        Seq::empty()
    };
    head + Seq::new(probes.len(), |i: int| probe_line(probes[i]))
}

fn line_of(probe: &RootProbe) -> (line: String)
    ensures
        line@ == probe_line(probe@),
{
    let label = match probe.root.source {
        RootSource::Registry => "REGISTRY",
        RootSource::Common => "COMMON",
        RootSource::SecondaryDrive => "DRIVE",
        RootSource::Home => "LINUX",
    };
    let found = if probe.exists {
        "true"
    } else {
        "false"
    };
    let mut line = String::from_str("[");
    line.append(label);
    line.append("] ");
    line.append(probe.root.path.as_str());
    line.append(" (exists: ");
    line.append(found);
    line.append(")");
    line
}

fn any_from_registry(probes: &Vec<RootProbe>) -> (found: bool)
    ensures
        found == has_registry_root(probes.deep_view()),
{
    let mut i: usize = 0;
    while i < probes.len()
        invariant
            i <= probes.len(),
            forall|k: int|
                0 <= k < i ==> (#[trigger] probes.deep_view()[k]).root.source
                    != RootSource::Registry,
        decreases probes.len() - i,
    {
        if probes[i].root.source == RootSource::Registry {
            assert(probes.deep_view()[i as int].root.source == RootSource::Registry);
            return true;
        }
        i += 1;
    }
    false
}

/// Describes every probed root and whether it exists, one line each, for
/// troubleshooting.
pub fn debug_search_paths(platform: Platform, probes: &Vec<RootProbe>) -> (lines: Vec<String>)
    ensures
        lines.deep_view() == spec_debug_search_paths(platform, probes.deep_view()),
{
    let mut lines: Vec<String> = Vec::new();
    let ghost head: Seq<Seq<char>> = Seq::empty();
    if platform == Platform::Windows && !any_from_registry(probes) {
        lines.push(String::from_str("[REGISTRY] Not found"));
        proof {
            head = seq!["[REGISTRY] Not found"@];
        }
    }
    let mut i: usize = 0;
    while i < probes.len()
        invariant
            i <= probes.len(),
            lines.deep_view() == head + Seq::new(
                i as nat,
                |k: int| probe_line(probes.deep_view()[k]),
            ),
        decreases probes.len() - i,
    {
        let ghost before = lines.deep_view();
        let line = line_of(&probes[i]);
        lines.push(line);
        assert(lines.deep_view() =~= before.push(probe_line(probes[i as int]@)));
        i += 1;
    }
    lines
}

} // verus!
