use ror2_profile::paths::{join, Platform};
use ror2_profile::roots::{
    candidate_roots, debug_search_paths, resolve_roots, InstallRoot, RootProbe, RootSource,
};

fn root(path: &str, rank: usize) -> InstallRoot {
    InstallRoot {
        path: String::from(path),
        rank,
        source: RootSource::Common,
        platform: Platform::Windows,
    }
}

fn probe(path: &str, rank: usize, canonical: Option<&str>, exists: bool) -> RootProbe {
    RootProbe { root: root(path, rank), canonical: canonical.map(String::from), exists }
}

fn paths(roots: &Vec<InstallRoot>) -> Vec<String> {
    roots.iter().map(|r| r.path.clone()).collect()
}

#[test]
fn windows_candidates_come_in_priority_order() {
    let roots = candidate_roots(
        Platform::Windows,
        Some(String::from("X:\\Steam")),
        Some(String::from("/home/ignored")),
    );
    let expected = vec![
        "X:\\Steam\\userdata",
        "C:\\Program Files (x86)\\Steam\\userdata",
        "C:\\Program Files\\Steam\\userdata",
        "D:\\Steam\\userdata",
        "D:\\Games\\Steam\\userdata",
        "D:\\SteamLibrary\\userdata",
        "D:\\Program Files\\Steam\\userdata",
        "D:\\Program Files (x86)\\Steam\\userdata",
        "E:\\Steam\\userdata",
        "E:\\Games\\Steam\\userdata",
        "E:\\SteamLibrary\\userdata",
        "E:\\Program Files\\Steam\\userdata",
        "E:\\Program Files (x86)\\Steam\\userdata",
        "F:\\Steam\\userdata",
        "F:\\Games\\Steam\\userdata",
        "F:\\SteamLibrary\\userdata",
        "F:\\Program Files\\Steam\\userdata",
        "F:\\Program Files (x86)\\Steam\\userdata",
        "G:\\Steam\\userdata",
        "G:\\Games\\Steam\\userdata",
        "G:\\SteamLibrary\\userdata",
        "G:\\Program Files\\Steam\\userdata",
        "G:\\Program Files (x86)\\Steam\\userdata",
    ];
    assert_eq!(paths(&roots), expected);
    for (i, r) in roots.iter().enumerate() {
        assert_eq!(r.rank, i);
        assert_eq!(r.platform, Platform::Windows);
        let source = if i == 0 {
            RootSource::Registry
        } else if i <= 2 {
            RootSource::Common
        } else {
            RootSource::SecondaryDrive
        };
        assert_eq!(r.source, source);
    }
}

#[test]
fn windows_candidates_without_a_registry_root() {
    let roots = candidate_roots(Platform::Windows, None, None);
    assert_eq!(roots.len(), 22);
    assert_eq!(roots[0].path, "C:\\Program Files (x86)\\Steam\\userdata");
    assert_eq!(roots[0].source, RootSource::Common);
    assert_eq!(roots[0].rank, 0);
    assert_eq!(roots[21].path, "G:\\Program Files (x86)\\Steam\\userdata");
    assert_eq!(roots[21].rank, 21);
}

#[test]
fn linux_candidates_hang_below_the_home_directory() {
    let roots = candidate_roots(
        Platform::Linux,
        Some(String::from("ignored")),
        Some(String::from("/home/runner")),
    );
    assert_eq!(
        roots,
        vec![
            InstallRoot {
                path: String::from("/home/runner/.steam/steam/userdata"),
                rank: 0,
                source: RootSource::Home,
                platform: Platform::Linux,
            },
            InstallRoot {
                path: String::from("/home/runner/.local/share/Steam/userdata"),
                rank: 1,
                source: RootSource::Home,
                platform: Platform::Linux,
            },
        ]
    );
}

#[test]
fn no_candidates_without_a_home_or_on_other_platforms() {
    assert_eq!(candidate_roots(Platform::Linux, None, None), vec![]);
    assert_eq!(
        candidate_roots(Platform::Other, Some(String::from("a")), Some(String::from("b"))),
        vec![]
    );
}

#[test]
fn the_registry_root_lies_below_the_installation_directory() {
    let root = |dir: &str| {
        candidate_roots(Platform::Windows, Some(String::from(dir)), None)[0].path.clone()
    };
    assert_eq!(root("C:\\Program Files (x86)\\Steam"), "C:\\Program Files (x86)\\Steam\\userdata");
    assert_eq!(root("d:\\games\\steam\\"), "d:\\games\\steam\\userdata");
    assert_eq!(root("d:/games/steam/"), "d:/games/steam/userdata");
    assert_eq!(root("d:/games/steam"), "d:/games/steam\\userdata");
}

#[test]
fn join_puts_one_separator_between() {
    assert_eq!(join(Platform::Linux, "/home/u", "x/y"), "/home/u/x/y");
    assert_eq!(join(Platform::Linux, "/home/u/", "x/y"), "/home/u/x/y");
    assert_eq!(join(Platform::Linux, "/", "x"), "/x");
    assert_eq!(join(Platform::Linux, "", "x/y"), "x/y");
    assert_eq!(join(Platform::Linux, "/home/ü", ".steam"), "/home/ü/.steam");
    assert_eq!(join(Platform::Linux, "/odd\\", "x"), "/odd\\/x");
    assert_eq!(join(Platform::Linux, "C:", "x"), "C:/x");
    assert_eq!(join(Platform::Other, "/Users/u", "x"), "/Users/u/x");
}

#[test]
fn join_follows_the_windows_conventions() {
    assert_eq!(join(Platform::Windows, "C:\\Steam", "userdata"), "C:\\Steam\\userdata");
    assert_eq!(join(Platform::Windows, "C:\\Steam\\", "userdata"), "C:\\Steam\\userdata");
    assert_eq!(join(Platform::Windows, "C:/Steam/", "userdata"), "C:/Steam/userdata");
    assert_eq!(join(Platform::Windows, "C:\\", "userdata"), "C:\\userdata");
    assert_eq!(join(Platform::Windows, "C:", "userdata"), "C:userdata");
    assert_eq!(join(Platform::Windows, "z:", "userdata"), "z:userdata");
    assert_eq!(join(Platform::Windows, "1:", "userdata"), "1:\\userdata");
    assert_eq!(join(Platform::Windows, "CD:", "userdata"), "CD:\\userdata");
    assert_eq!(join(Platform::Windows, "", "userdata"), "userdata");
    assert_eq!(join(Platform::Windows, "\\\\server\\share", "x"), "\\\\server\\share\\x");
}

#[test]
fn resolve_roots_lists_each_canonical_path_once() {
    let probes = vec![
        probe("C:\\a", 0, Some("\\\\?\\C:\\real"), true),
        probe("C:\\b", 1, Some("\\\\?\\C:\\other"), true),
        probe("C:\\link-to-a", 2, Some("\\\\?\\C:\\real"), true),
        probe("C:\\b", 3, Some("\\\\?\\C:\\other"), true),
        probe("C:\\c", 4, Some("\\\\?\\C:\\third"), true),
    ];
    let roots = resolve_roots(&probes);
    assert_eq!(paths(&roots), vec!["C:\\a", "C:\\b", "C:\\c"]);
    assert_eq!(roots.iter().map(|r| r.rank).collect::<Vec<_>>(), vec![0, 1, 4]);
}

#[test]
fn resolve_roots_drops_paths_that_do_not_exist() {
    let probes = vec![
        probe("C:\\missing", 0, None, false),
        probe("C:\\there", 1, Some("C:\\there"), true),
        probe("C:\\missing", 2, None, false),
    ];
    assert_eq!(paths(&resolve_roots(&probes)), vec!["C:\\there"]);
    assert_eq!(resolve_roots(&vec![]), vec![]);
}

#[test]
fn resolve_roots_falls_back_to_the_path_as_given() {
    let probes = vec![
        probe("/data/steam", 0, None, true),
        probe("/data/steam", 1, None, true),
        probe("/mnt/steam", 2, Some("/data/steam"), true),
        probe("/other", 3, None, true),
    ];
    assert_eq!(paths(&resolve_roots(&probes)), vec!["/data/steam", "/other"]);
}

#[test]
fn resolve_roots_counts_an_earlier_missing_duplicate() {
    let probes = vec![
        probe("/a", 0, Some("/real"), false),
        probe("/b", 1, Some("/real"), true),
    ];
    assert_eq!(resolve_roots(&probes), vec![]);
}

#[test]
fn debug_search_paths_on_windows_with_a_registry_root() {
    let mut probes = vec![
        RootProbe {
            root: InstallRoot {
                path: String::from("D:\\Steam\\userdata"),
                rank: 0,
                source: RootSource::Registry,
                platform: Platform::Windows,
            },
            canonical: Some(String::from("D:\\Steam\\userdata")),
            exists: true,
        },
        probe("C:\\Program Files (x86)\\Steam\\userdata", 1, None, false),
        probe("C:\\Program Files\\Steam\\userdata", 2, None, false),
    ];
    probes.push(RootProbe {
        root: InstallRoot {
            path: String::from("D:\\Steam\\userdata"),
            rank: 3,
            source: RootSource::SecondaryDrive,
            platform: Platform::Windows,
        },
        canonical: Some(String::from("D:\\Steam\\userdata")),
        exists: true,
    });
    assert_eq!(
        debug_search_paths(Platform::Windows, &probes),
        vec![
            "[REGISTRY] D:\\Steam\\userdata (exists: true)",
            "[COMMON] C:\\Program Files (x86)\\Steam\\userdata (exists: false)",
            "[COMMON] C:\\Program Files\\Steam\\userdata (exists: false)",
            "[DRIVE] D:\\Steam\\userdata (exists: true)",
        ]
    );
}

#[test]
fn debug_search_paths_on_windows_without_a_registry_root() {
    let probes = vec![probe("C:\\Program Files\\Steam\\userdata", 0, None, true)];
    assert_eq!(
        debug_search_paths(Platform::Windows, &probes),
        vec!["[REGISTRY] Not found", "[COMMON] C:\\Program Files\\Steam\\userdata (exists: true)"]
    );
    assert_eq!(debug_search_paths(Platform::Windows, &vec![]), vec!["[REGISTRY] Not found"]);
}

#[test]
fn debug_search_paths_on_linux() {
    let probes = vec![
        RootProbe {
            root: InstallRoot {
                path: String::from("/home/u/.steam/steam/userdata"),
                rank: 0,
                source: RootSource::Home,
                platform: Platform::Linux,
            },
            canonical: None,
            exists: false,
        },
        RootProbe {
            root: InstallRoot {
                path: String::from("/home/u/.local/share/Steam/userdata"),
                rank: 1,
                source: RootSource::Home,
                platform: Platform::Linux,
            },
            canonical: Some(String::from("/home/u/.local/share/Steam/userdata")),
            exists: true,
        },
    ];
    assert_eq!(
        debug_search_paths(Platform::Linux, &probes),
        vec![
            "[LINUX] /home/u/.steam/steam/userdata (exists: false)",
            "[LINUX] /home/u/.local/share/Steam/userdata (exists: true)",
        ]
    );
    let none: Vec<String> = Vec::new();
    assert_eq!(debug_search_paths(Platform::Linux, &vec![]), none);
}
