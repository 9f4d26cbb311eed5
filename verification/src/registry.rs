//! The installation lookup on Windows: which registry values are asked
//! for, in what order, and which answer is taken.

use crate::text::to_chars;
use vstd::prelude::*;
use vstd::string::*;

verus! {

/// The registry hive a value is looked up in.
#[derive(Clone, Copy, Debug, PartialEq, Eq, Structural)]
pub enum RegistryHive {
    LocalMachine,
    CurrentUser,
}

/// One registry value that may hold the installation directory.
#[derive(Clone, Debug, PartialEq, Eq)]
pub struct RegistryLookup {
    pub hive: RegistryHive,
    pub subkey: String,
    pub value_name: String,
    /// Whether the value is written with forward slashes.
    pub forward_slashes: bool,
}

/// Mathematical model of a [`RegistryLookup`].
pub struct RegistryLookupView {
    pub hive: RegistryHive,
    pub subkey: Seq<char>,
    pub value_name: Seq<char>,
    pub forward_slashes: bool,
}

impl View for RegistryLookup {
    type V = RegistryLookupView;

    open spec fn view(&self) -> RegistryLookupView {
        RegistryLookupView {
            hive: self.hive,
            subkey: self.subkey@,
            value_name: self.value_name@,
            forward_slashes: self.forward_slashes,
        }
    }
}

impl DeepView for RegistryLookup {
    type V = RegistryLookupView;

    open spec fn deep_view(&self) -> RegistryLookupView {
        self@
    }
}

/// What one lookup gave: the installation directory it names, if the
/// value was there, and whether that directory exists.
#[derive(Clone, Debug, PartialEq, Eq)]
pub struct RegistryAnswer {
    pub path: Option<String>,
    pub exists: bool,
}

/// Mathematical model of a [`RegistryAnswer`].
pub struct RegistryAnswerView {
    pub path: Option<Seq<char>>,
    pub exists: bool,
}

impl View for RegistryAnswer {
    type V = RegistryAnswerView;

    open spec fn view(&self) -> RegistryAnswerView {
        RegistryAnswerView {
            path: match self.path {
                Some(p) => Some(p@),
                None => None,
            },
            exists: self.exists,
        }
    }
}

impl DeepView for RegistryAnswer {
    type V = RegistryAnswerView;

    open spec fn deep_view(&self) -> RegistryAnswerView {
        self@
    }
}

/// The lookups, in the order in which their answers count: the 32-bit
/// view of the machine-wide key, the machine-wide key, the user's key.
pub open spec fn spec_registry_lookups() -> Seq<RegistryLookupView> {
    seq![
        RegistryLookupView {
            hive: RegistryHive::LocalMachine,
            subkey: "SOFTWARE\\WOW6432Node\\Valve\\Steam"@,
            value_name: "InstallPath"@,
            forward_slashes: false,
        },
        RegistryLookupView {
            hive: RegistryHive::LocalMachine,
            subkey: "SOFTWARE\\Valve\\Steam"@,
            value_name: "InstallPath"@,
            forward_slashes: false,
        },
        RegistryLookupView {
            hive: RegistryHive::CurrentUser,
            subkey: "Software\\Valve\\Steam"@,
            value_name: "SteamPath"@,
            forward_slashes: true,
        },
    ]
}

/// `s` with every `/` turned into `\`.
pub open spec fn with_backslashes(s: Seq<char>) -> Seq<char> {
    Seq::new(
        s.len(),
        |i: int|
            if s[i] == '/' {
                '\\'
            } else {
                s[i]
            },
    )
}

/// The installation directory that the value `raw` names.
pub open spec fn spec_install_path(forward_slashes: bool, raw: Seq<char>) -> Seq<char> {
    if forward_slashes {
        with_backslashes(raw)
    } else {
        raw
    }
}

/// The path of the first answer at or after `from` that names a
/// directory which exists.
pub open spec fn first_existing(answers: Seq<RegistryAnswerView>, from: int) -> Option<Seq<char>>
    decreases answers.len() - from,
{
    if from < 0 || from >= answers.len() {
        None
    } else if answers[from].path is Some && answers[from].exists {
        answers[from].path
    } else {
        first_existing(answers, from + 1)
    }
}

/// The registry values to ask for, in the order in which their answers
/// count.
pub fn registry_lookups() -> (lookups: Vec<RegistryLookup>)
    ensures
        lookups.deep_view() == spec_registry_lookups(),
{
    let mut lookups: Vec<RegistryLookup> = Vec::new();
    lookups.push(
        RegistryLookup {
            hive: RegistryHive::LocalMachine,
            subkey: String::from_str("SOFTWARE\\WOW6432Node\\Valve\\Steam"),
            value_name: String::from_str("InstallPath"),
            forward_slashes: false,
        },
    );
    lookups.push(
        RegistryLookup {
            hive: RegistryHive::LocalMachine,
            subkey: String::from_str("SOFTWARE\\Valve\\Steam"),
            value_name: String::from_str("InstallPath"),
            forward_slashes: false,
        },
    );
    lookups.push(
        RegistryLookup {
            hive: RegistryHive::CurrentUser,
            subkey: String::from_str("Software\\Valve\\Steam"),
            value_name: String::from_str("SteamPath"),
            forward_slashes: true,
        },
    );
    lookups
}

fn replace_slashes(raw: &str) -> (path: String)
    ensures
        path@ == with_backslashes(raw@),
{
    let chars = to_chars(raw);
    let mut path = String::new();
    let mut done: usize = 0;
    let mut i: usize = 0;
    proof {
        reveal_strlit("\\");
    }
    while i < chars.len()
        invariant
            done <= i <= chars.len(),
            chars@ == raw@,
            "\\"@ == seq!['\\'],
            path@ == with_backslashes(raw@).take(done as int),
            forall|k: int| done <= k < i ==> chars@[k] != '/',
        decreases chars.len() - i,
    {
        if chars[i] == '/' {
            path.append(raw.substring_char(done, i));
            path.append("\\");
            assert(path@ =~= with_backslashes(raw@).take(i + 1));
            done = i + 1;
        }
        i += 1;
    }
    path.append(raw.substring_char(done, i));
    assert(path@ =~= with_backslashes(raw@));
    path
}

/// The installation directory that the value `raw`, read for `lookup`,
/// names: `raw` itself, with backslashes in place of forward slashes
/// where the value is written with those.
pub fn install_path(lookup: &RegistryLookup, raw: &str) -> (path: String)
    ensures
        path@ == spec_install_path(lookup.forward_slashes, raw@),
{
    if lookup.forward_slashes {
        replace_slashes(raw)
    } else {
        String::from_str(raw)
    }
}

/// Picks the installation directory from the answers to the lookups: the
/// first one, in their order, that exists. `None` where no lookup named a
/// directory that exists.
pub fn get_steam_path_from_registry(answers: &Vec<RegistryAnswer>) -> (found: Option<String>)
    ensures
        match found {
            Some(path) => first_existing(answers.deep_view(), 0) == Some(path@),
            None => first_existing(answers.deep_view(), 0) is None,
        },
{
    let mut i: usize = 0;
    while i < answers.len()
        invariant
            i <= answers.len(),
            first_existing(answers.deep_view(), 0) == first_existing(answers.deep_view(), i as int),
        decreases answers.len() - i,
    {
        if answers[i].exists {
            if let Some(path) = &answers[i].path {
                return Some(path.clone());
            }
        }
        i += 1;
    }
    None
}

} // verus!
