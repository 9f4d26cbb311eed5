use ror2_profile::registry::{
    get_steam_path_from_registry, install_path, registry_lookups, RegistryAnswer, RegistryHive,
    RegistryLookup,
};

#[test]
fn lookups_are_asked_in_order() {
    assert_eq!(
        registry_lookups(),
        vec![
            RegistryLookup {
                hive: RegistryHive::LocalMachine,
                subkey: String::from("SOFTWARE\\WOW6432Node\\Valve\\Steam"),
                value_name: String::from("InstallPath"),
                forward_slashes: false,
            },
            RegistryLookup {
                hive: RegistryHive::LocalMachine,
                subkey: String::from("SOFTWARE\\Valve\\Steam"),
                value_name: String::from("InstallPath"),
                forward_slashes: false,
            },
            RegistryLookup {
                hive: RegistryHive::CurrentUser,
                subkey: String::from("Software\\Valve\\Steam"),
                value_name: String::from("SteamPath"),
                forward_slashes: true,
            },
        ]
    );
}

#[test]
fn install_path_turns_forward_slashes() {
    let lookups = registry_lookups();
    assert_eq!(install_path(&lookups[2], "c:/program files (x86)/steam"), "c:\\program files (x86)\\steam");
    assert_eq!(install_path(&lookups[2], "/a//b/"), "\\a\\\\b\\");
    assert_eq!(install_path(&lookups[2], "c:\\mixed/path"), "c:\\mixed\\path");
    assert_eq!(install_path(&lookups[2], ""), "");
    assert_eq!(install_path(&lookups[2], "ü/✓"), "ü\\✓");
    assert_eq!(install_path(&lookups[0], "C:\\Steam/x"), "C:\\Steam/x");
}

fn answer(path: Option<&str>, exists: bool) -> RegistryAnswer {
    RegistryAnswer { path: path.map(String::from), exists }
}

#[test]
fn the_first_existing_directory_is_taken() {
    let answers = vec![answer(Some("C:\\gone"), false), answer(None, false), answer(Some("D:\\Steam"), true)];
    assert_eq!(get_steam_path_from_registry(&answers), Some(String::from("D:\\Steam")));
    let answers = vec![answer(Some("C:\\one"), true), answer(Some("D:\\two"), true)];
    assert_eq!(get_steam_path_from_registry(&answers), Some(String::from("C:\\one")));
}

#[test]
fn no_directory_is_taken_where_none_exists() {
    assert_eq!(get_steam_path_from_registry(&vec![]), None);
    let answers = vec![answer(Some("C:\\gone"), false), answer(None, true), answer(None, false)];
    assert_eq!(get_steam_path_from_registry(&answers), None);
}
