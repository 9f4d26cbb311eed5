//! Finding profile documents below an installation root: which account
//! directories count, where their profile store lies, and which of its
//! files are profile documents.

use crate::paths::{join, join_path, Platform};
use crate::text::{all_digits, chars_all_digits, chars_end_with, ends_with, to_chars};
use vstd::prelude::*;
use vstd::string::*;

verus! {

/// A directory seen directly below an installation root.
#[derive(Clone, Debug, PartialEq, Eq)]
pub struct AccountDir {
    pub name: String,
    /// The names of the files in the directory's profile store, or `None`
    /// where the store is missing or cannot be listed.
    pub files: Option<Vec<String>>,
}

/// Mathematical model of an [`AccountDir`].
pub struct AccountDirView {
    pub name: Seq<char>,
    pub files: Option<Seq<Seq<char>>>,
}

impl View for AccountDir {
    type V = AccountDirView;

    open spec fn view(&self) -> AccountDirView {
        AccountDirView {
            name: self.name@,
            files: match self.files {
                Some(files) => Some(files.deep_view()),
                None => None,
            },
        }
    }
}

impl DeepView for AccountDir {
    type V = AccountDirView;

    open spec fn deep_view(&self) -> AccountDirView {
        self@
    }
}

/// A profile document and the account it belongs to.
#[derive(Clone, Debug, PartialEq, Eq)]
pub struct ProfileFile {
    pub steam_id: String,
    pub file_name: String,
    pub path: String,
}

/// Mathematical model of a [`ProfileFile`].
pub struct ProfileFileView {
    pub steam_id: Seq<char>,
    pub file_name: Seq<char>,
    pub path: Seq<char>,
}

impl ProfileFileView {
    /// The account identifier is made of digits only, and the file name
    /// ends with the document extension and not with the backup suffix.
    pub open spec fn well_formed(self) -> bool {
        is_identifier(self.steam_id) && is_profile_file_name(self.file_name)
    }

    /// The document lies in the profile store of its account below
    /// `root`.
    pub open spec fn lies_below(self, platform: Platform, root: Seq<char>) -> bool {
        self.path == join_path(
            platform,
            spec_profile_store_dir(platform, root, self.steam_id),
            self.file_name,
        )
    }
}

impl View for ProfileFile {
    type V = ProfileFileView;

    open spec fn view(&self) -> ProfileFileView {
        ProfileFileView { steam_id: self.steam_id@, file_name: self.file_name@, path: self.path@ }
    }
}

impl DeepView for ProfileFile {
    type V = ProfileFileView;

    open spec fn deep_view(&self) -> ProfileFileView {
        self@
    }
}

/// The name of the directory, below an account's directory, that belongs
/// to the game.
pub open spec fn game_dir() -> Seq<char> {
    "632360"@
}

/// The profile store of the account directory `account` below `root`:
/// the game's directory in it, then `remote`, then `UserProfiles`.
pub open spec fn spec_profile_store_dir(
    platform: Platform,
    root: Seq<char>,
    account: Seq<char>,
) -> Seq<char> {
    join_path(
        platform,
        join_path(
            platform,
            join_path(platform, join_path(platform, root, account), game_dir()),
            "remote"@,
        ),
        "UserProfiles"@,
    )
}

/// The extension of a profile document.
pub open spec fn document_extension() -> Seq<char> {
    ".xml"@
}

/// The ending of the backup of a profile document.
pub open spec fn backup_extension() -> Seq<char> {
    ".xml.bak"@
}

/// Whether `name` is an account identifier: decimal digits only.
pub open spec fn is_identifier(name: Seq<char>) -> bool {
    all_digits(name)
}

/// Whether `name` is the name of a profile document: it ends with the
/// document extension and does not end with the backup suffix.
pub open spec fn is_profile_file_name(name: Seq<char>) -> bool {
    ends_with(name, document_extension()) && !ends_with(name, backup_extension())
}

/// The profile document named `file_name` in the store `store` of the
/// account `steam_id`.
pub open spec fn profile_file(
    platform: Platform,
    store: Seq<char>,
    steam_id: Seq<char>,
    file_name: Seq<char>,
) -> ProfileFileView {
    ProfileFileView { steam_id, file_name, path: join_path(platform, store, file_name) }
}

/// The profile documents among the first `n` of the files `files` of the
/// store `store`, in order, as documents of the account `steam_id`.
pub open spec fn profile_files(
    platform: Platform,
    store: Seq<char>,
    steam_id: Seq<char>,
    files: Seq<Seq<char>>,
    n: int,
) -> Seq<ProfileFileView>
    decreases n,
{
    if n <= 0 {
        Seq::empty()
    } else if is_profile_file_name(files[n - 1]) {
        profile_files(platform, store, steam_id, files, n - 1).push(
            profile_file(platform, store, steam_id, files[n - 1]),
        )
    } else {
        profile_files(platform, store, steam_id, files, n - 1)
    }
}

/// The profile documents of one directory below `root`: none unless its
/// name is an account identifier and its profile store was listed.
pub open spec fn account_profiles(
    platform: Platform,
    root: Seq<char>,
    account: AccountDirView,
) -> Seq<ProfileFileView> {
    match account.files {
        Some(files) => if is_identifier(account.name) {
            profile_files(
                platform,
                spec_profile_store_dir(platform, root, account.name),
                account.name,
                files,
                files.len() as int,
            )
        } else {
            Seq::empty()
        },
        None => Seq::empty(),
    }
}

/// The profile documents of the first `n` of `accounts`, in order.
pub open spec fn located(
    platform: Platform,
    root: Seq<char>,
    accounts: Seq<AccountDirView>,
    n: int,
) -> Seq<ProfileFileView>
    decreases n,
{
    if n <= 0 {
        Seq::empty()
    } else {
        located(platform, root, accounts, n - 1) + account_profiles(platform, root, accounts[n - 1])
    }
}

/// The profile documents below `root`, whose directories are `listing`;
/// none where the root could not be listed.
pub open spec fn spec_locate_profiles(
    platform: Platform,
    root: Seq<char>,
    listing: Option<Seq<AccountDirView>>,
) -> Seq<ProfileFileView> {
    match listing {
        Some(accounts) => located(platform, root, accounts, accounts.len() as int),
        None => Seq::empty(),
    }
}

/// The view of a root's listing.
pub open spec fn listing_view(listing: Option<Vec<AccountDir>>) -> Option<Seq<AccountDirView>> {
    match listing {
        Some(accounts) => Some(accounts.deep_view()),
        None => None,
    }
}

/// Backup exclusion: a name that ends with the document extension never
/// ends with the backup suffix, so the names of profile documents are
/// exactly the names that end with the document extension.
pub proof fn lemma_document_is_no_backup(name: Seq<char>)
    ensures
        is_profile_file_name(name) == ends_with(name, document_extension()),
{
    reveal_strlit(".xml");
    reveal_strlit(".xml.bak");
    if ends_with(name, document_extension()) && ends_with(name, backup_extension()) {
        assert(".xml"@[3] == 'l');
        assert(".xml.bak"@[7] == 'k');
    }
}

/// Every document among `profile_files` belongs to `steam_id`, has the
/// name of a profile document and lies in the store.
pub proof fn lemma_profile_files(
    platform: Platform,
    store: Seq<char>,
    steam_id: Seq<char>,
    files: Seq<Seq<char>>,
    n: int,
)
    ensures
        forall|k: int|
            0 <= k < profile_files(platform, store, steam_id, files, n).len() ==> {
                let file = #[trigger] profile_files(platform, store, steam_id, files, n)[k];
                &&& file.steam_id == steam_id
                &&& is_profile_file_name(file.file_name)
                &&& file.path == join_path(platform, store, file.file_name)
            },
    decreases n,
{
    if n > 0 {
        lemma_profile_files(platform, store, steam_id, files, n - 1);
        let before = profile_files(platform, store, steam_id, files, n - 1);
        let now = profile_files(platform, store, steam_id, files, n);
        assert forall|k: int| 0 <= k < now.len() implies {
            let file = #[trigger] now[k];
            &&& file.steam_id == steam_id
            &&& is_profile_file_name(file.file_name)
            &&& file.path == join_path(platform, store, file.file_name)
        } by {
            if k < before.len() {
                assert(now[k] == before[k]);
            }
        }
    }
}

/// Every document that is located is well formed and lies in the profile
/// store of its account.
pub proof fn lemma_located(
    platform: Platform,
    root: Seq<char>,
    accounts: Seq<AccountDirView>,
    n: int,
)
    ensures
        forall|k: int|
            0 <= k < located(platform, root, accounts, n).len() ==> {
                let file = #[trigger] located(platform, root, accounts, n)[k];
                file.well_formed() && file.lies_below(platform, root)
            },
    decreases n,
{
    if n > 0 {
        lemma_located(platform, root, accounts, n - 1);
        let account = accounts[n - 1];
        let before = located(platform, root, accounts, n - 1);
        let added = account_profiles(platform, root, account);
        let now = located(platform, root, accounts, n);
        if let Some(files) = account.files {
            lemma_profile_files(
                platform,
                spec_profile_store_dir(platform, root, account.name),
                account.name,
                files,
                files.len() as int,
            );
        }
        assert forall|k: int| 0 <= k < now.len() implies {
            let file = #[trigger] now[k];
            file.well_formed() && file.lies_below(platform, root)
        } by {
            if k < before.len() {
                assert(now[k] == before[k]);
            } else {
                assert(now[k] == added[k - before.len()]);
            }
        }
    }
}

/// Identifier and file filter: whatever is listed below a root, every
/// document located there has an identifier made of digits only and a
/// name that ends with the document extension and not with the backup
/// suffix, and its path leads through the profile store of its account.
pub proof fn lemma_located_profiles_are_well_formed(
    platform: Platform,
    root: Seq<char>,
    listing: Option<Seq<AccountDirView>>,
)
    ensures
        forall|k: int|
            0 <= k < spec_locate_profiles(platform, root, listing).len() ==> {
                let file = #[trigger] spec_locate_profiles(platform, root, listing)[k];
                file.well_formed() && file.lies_below(platform, root)
            },
{
    if let Some(accounts) = listing {
        lemma_located(platform, root, accounts, accounts.len() as int);
    }
}

/// Tests whether a directory name is an account identifier.
pub fn is_steam_id(name: &str) -> (b: bool)
    ensures
        b == is_identifier(name@),
{
    let chars = to_chars(name);
    chars_all_digits(&chars)
}

/// Tests whether a file name is the name of a profile document.
pub fn is_profile_document(name: &str) -> (b: bool)
    ensures
        b == is_profile_file_name(name@),
{
    let chars = to_chars(name);
    let document = to_chars(".xml");
    let backup = to_chars(".xml.bak");
    chars_end_with(&chars, &document) && !chars_end_with(&chars, &backup)
}

/// The directory in which the profile documents of the account
/// directory `account` below `root` are kept.
pub fn profile_store_dir(platform: Platform, root: &str, account: &str) -> (dir: String)
    ensures
        dir@ == spec_profile_store_dir(platform, root@, account@),
{
    let account_dir = join(platform, root, account);
    let game = join(platform, account_dir.as_str(), "632360");
    let remote = join(platform, game.as_str(), "remote");
    join(platform, remote.as_str(), "UserProfiles")
}

fn push_profile_files(
    found: &mut Vec<ProfileFile>,
    platform: Platform,
    root: &str,
    account: &AccountDir,
)
    ensures
        final(found).deep_view() == old(found).deep_view() + account_profiles(
            platform,
            root@,
            account@,
        ),
{
    let ghost before = found.deep_view();
    if let Some(files) = &account.files {
        if is_steam_id(account.name.as_str()) {
            let store = profile_store_dir(platform, root, account.name.as_str());
            let mut i: usize = 0;
            while i < files.len()
                invariant
                    i <= files.len(),
                    store@ == spec_profile_store_dir(platform, root@, account.name@),
                    found.deep_view() == before + profile_files(
                        platform,
                        store@,
                        account.name@,
                        files.deep_view(),
                        i as int,
                    ),
                decreases files.len() - i,
            {
                let ghost so_far = found.deep_view();
                if is_profile_document(files[i].as_str()) {
                    found.push(
                        ProfileFile {
                            steam_id: account.name.clone(),
                            file_name: files[i].clone(),
                            path: join(platform, store.as_str(), files[i].as_str()),
                        },
                    );
                    assert(found.deep_view() =~= so_far.push(
                        profile_file(platform, store@, account.name@, files[i as int]@),
                    ));
                }
                i += 1;
            }
        }
    }
}

/// Locates the profile documents below the installation root `root`.
///
/// `listing` holds the directories seen directly below the root, each
/// with the names of the files in its profile store, or `None` where the
/// root could not be listed. A directory counts only if its name is made
/// of decimal digits; a file counts only if its name ends with `.xml` and
/// not with `.xml.bak`. Each document is given with its path in the
/// profile store of its account. The result keeps the order of the
/// listing. A store or a root that could not be listed contributes
/// nothing.
pub fn locate_profiles(platform: Platform, root: &str, listing: &Option<Vec<AccountDir>>) -> (found:
    Vec<ProfileFile>)
    ensures
        found.deep_view() == spec_locate_profiles(platform, root@, listing_view(*listing)),
{
    let mut found: Vec<ProfileFile> = Vec::new();
    if let Some(accounts) = listing {
        let mut i: usize = 0;
        while i < accounts.len()
            invariant
                i <= accounts.len(),
                found.deep_view() == located(platform, root@, accounts.deep_view(), i as int),
            decreases accounts.len() - i,
        {
            push_profile_files(&mut found, platform, root, &accounts[i]);
            i += 1;
        }
    }
    found
}

} // verus!
