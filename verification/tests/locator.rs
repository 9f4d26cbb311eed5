use ror2_profile::locator::{
    is_profile_document, is_steam_id, locate_profiles, profile_store_dir, AccountDir, ProfileFile,
};
use ror2_profile::paths::Platform;
use ror2_profile::profile::ProfileInfo;
use ror2_profile::roots::{InstallRoot, RootProbe, RootSource};
use ror2_profile::scan::{collect_profiles, scan_steam_profiles, ProfileRead, RootScan};

const ROOT: &str = "/home/u/.steam/steam/userdata";

fn account(name: &str, files: Option<Vec<&str>>) -> AccountDir {
    AccountDir {
        name: String::from(name),
        files: files.map(|names| names.into_iter().map(String::from).collect()),
    }
}

fn profile_file(steam_id: &str, file_name: &str) -> ProfileFile {
    ProfileFile {
        steam_id: String::from(steam_id),
        file_name: String::from(file_name),
        path: format!("{}/{}/632360/remote/UserProfiles/{}", ROOT, steam_id, file_name),
    }
}

#[test]
fn identifiers_are_made_of_digits_only() {
    assert!(is_steam_id("123456789"));
    assert!(is_steam_id("0"));
    assert!(is_steam_id(""));
    assert!(!is_steam_id("12a4"));
    assert!(!is_steam_id("anonymous"));
    assert!(!is_steam_id("12 "));
    assert!(!is_steam_id("-12"));
    assert!(!is_steam_id("١٢٣"));
}

#[test]
fn profile_documents_end_with_the_extension() {
    assert!(is_profile_document("profile.xml"));
    assert!(is_profile_document(".xml"));
    assert!(is_profile_document("a.xml.bak.xml"));
    assert!(!is_profile_document("profile.xml.bak"));
    assert!(!is_profile_document("profile.XML"));
    assert!(!is_profile_document("profile.xml "));
    assert!(!is_profile_document("xml"));
    assert!(!is_profile_document(""));
    assert!(!is_profile_document("profile.bak"));
}

#[test]
fn the_profile_store_lies_below_the_game_directory() {
    assert_eq!(
        profile_store_dir(Platform::Linux, ROOT, "76561198000000000"),
        "/home/u/.steam/steam/userdata/76561198000000000/632360/remote/UserProfiles"
    );
    assert_eq!(
        profile_store_dir(Platform::Windows, "C:\\Program Files (x86)\\Steam\\userdata", "42"),
        "C:\\Program Files (x86)\\Steam\\userdata\\42\\632360\\remote\\UserProfiles"
    );
    assert_eq!(
        profile_store_dir(Platform::Windows, "D:\\Steam\\userdata\\", "42"),
        "D:\\Steam\\userdata\\42\\632360\\remote\\UserProfiles"
    );
}

#[test]
fn locate_profiles_skips_names_that_are_not_identifiers() {
    let listing = Some(vec![
        account("123", Some(vec!["a.xml"])),
        account("ac", Some(vec!["b.xml"])),
        account("12x", Some(vec!["c.xml"])),
        account("456", Some(vec!["d.xml"])),
    ]);
    assert_eq!(
        locate_profiles(Platform::Linux, ROOT, &listing),
        vec![profile_file("123", "a.xml"), profile_file("456", "d.xml")]
    );
}

#[test]
fn locate_profiles_skips_backups() {
    let listing = Some(vec![account("123", Some(vec!["profile.xml", "profile.xml.bak"]))]);
    assert_eq!(
        locate_profiles(Platform::Linux, ROOT, &listing),
        vec![profile_file("123", "profile.xml")]
    );
}

#[test]
fn locate_profiles_keeps_the_order_of_the_listing() {
    let listing = Some(vec![
        account("2", Some(vec!["z.xml", "notes.txt", "a.xml"])),
        account("1", Some(vec![])),
        account("3", None),
        account("0", Some(vec!["m.xml"])),
    ]);
    assert_eq!(
        locate_profiles(Platform::Linux, ROOT, &listing),
        vec![profile_file("2", "z.xml"), profile_file("2", "a.xml"), profile_file("0", "m.xml")]
    );
}

#[test]
fn locate_profiles_builds_windows_paths() {
    let listing = Some(vec![account("7", Some(vec!["p.xml"]))]);
    assert_eq!(
        locate_profiles(Platform::Windows, "E:\\SteamLibrary\\userdata", &listing),
        vec![ProfileFile {
            steam_id: String::from("7"),
            file_name: String::from("p.xml"),
            path: String::from("E:\\SteamLibrary\\userdata\\7\\632360\\remote\\UserProfiles\\p.xml"),
        }]
    );
}

#[test]
fn locate_profiles_of_an_unlisted_root_is_empty() {
    assert_eq!(locate_profiles(Platform::Linux, ROOT, &None), vec![]);
    assert_eq!(locate_profiles(Platform::Linux, ROOT, &Some(vec![])), vec![]);
}

fn read(steam_id: &str, file_name: &str, content: Result<&str, &str>) -> ProfileRead {
    ProfileRead {
        file: profile_file(steam_id, file_name),
        content: content.map(String::from).map_err(String::from),
    }
}

fn info(steam_id: &str, file_name: &str, name: &str, coins: u32, total: u32) -> ProfileInfo {
    ProfileInfo {
        path: format!("{}/{}/632360/remote/UserProfiles/{}", ROOT, steam_id, file_name),
        name: String::from(name),
        steam_id: String::from(steam_id),
        coins,
        total_collected: total,
    }
}

#[test]
fn collect_profiles_passes_over_unreadable_documents() {
    let reads = vec![
        read("1", "a.xml", Ok("<name>A</name><coins>1</coins>")),
        read("1", "b.xml", Err("Permission denied (os error 13)")),
        read("2", "c.xml", Ok("garbage")),
    ];
    assert_eq!(
        collect_profiles(&reads),
        vec![info("1", "a.xml", "A", 1, 0), info("2", "c.xml", "Unknown", 0, 0)]
    );
    assert_eq!(collect_profiles(&vec![]), vec![]);
}

fn scan(path: &str, canonical: Option<&str>, exists: bool, reads: Vec<ProfileRead>) -> RootScan {
    RootScan {
        probe: RootProbe {
            root: InstallRoot {
                path: String::from(path),
                rank: 0,
                source: RootSource::Common,
                platform: Platform::Windows,
            },
            canonical: canonical.map(String::from),
            exists,
        },
        reads,
    }
}

#[test]
fn scan_steam_profiles_lists_a_place_once() {
    let doc = "<name>A</name><coins>1</coins><totalCollectedCoins>2</totalCollectedCoins>";
    let scans = vec![
        scan("/a", Some("/real"), true, vec![read("1", "a.xml", Ok(doc))]),
        scan("/link", Some("/real"), true, vec![read("1", "a.xml", Ok(doc))]),
        scan("/gone", None, false, vec![read("9", "x.xml", Ok(doc))]),
        scan("/b", Some("/b"), true, vec![read("2", "b.xml", Ok("<coins>5</coins>"))]),
    ];
    assert_eq!(
        scan_steam_profiles(&scans),
        vec![info("1", "a.xml", "A", 1, 2), info("2", "b.xml", "Unknown", 5, 0)]
    );
    assert_eq!(scan_steam_profiles(&vec![]), vec![]);
}
