//! Paths as text: how a name is put below a directory on each platform.

use vstd::prelude::*;
use vstd::string::*;

verus! {

/// The operating system family whose conventions apply.
#[derive(Clone, Copy, Debug, PartialEq, Eq, Structural)]
pub enum Platform {
    Windows,
    Linux,
    Other,
}

impl Platform {
    /// The character that the platform puts between the parts of a path.
    pub open spec fn separator(self) -> char {
        match self {
            Platform::Windows => '\\',
            _ => '/',
        }
    }
}

/// Whether `c` separates the parts of a path on `platform`: `/`
/// everywhere, and `\` on Windows as well.
pub open spec fn is_separator(platform: Platform, c: char) -> bool {
    c == '/' || (platform == Platform::Windows && c == '\\')
}

/// Whether `c` is one of the letters `a` to `z` or `A` to `Z`.
pub open spec fn is_letter(c: char) -> bool {
    'a' <= c <= 'z' || 'A' <= c <= 'Z'
}

/// Whether `path` is nothing but a Windows drive, such as `C:`.
pub open spec fn is_bare_drive(platform: Platform, path: Seq<char>) -> bool {
    platform == Platform::Windows && path.len() == 2 && is_letter(path[0]) && path[1] == ':'
}

/// Whether a separator has to be put behind `base` before a name is
/// appended: not behind an empty path, a path that ends with a
/// separator, or a bare drive.
pub open spec fn needs_separator(platform: Platform, base: Seq<char>) -> bool {
    base.len() > 0 && !is_separator(platform, base.last()) && !is_bare_drive(platform, base)
}

/// The path of `relative` below `base`: the two put together, with the
/// platform's separator between them where one is needed.
pub open spec fn join_path(platform: Platform, base: Seq<char>, relative: Seq<char>) -> Seq<char> {
    if needs_separator(platform, base) {
        base + seq![platform.separator()] + relative
    } else {
        base + relative
    }
}

fn wants_separator(platform: Platform, base: &str) -> (b: bool)
    ensures
        b == needs_separator(platform, base@),
{
    let n = base.unicode_len();
    if n == 0 {
        return false;
    }
    let last = base.get_char(n - 1);
    let windows = match platform {
        Platform::Windows => true,
        _ => false,
    };
    if last == '/' || (windows && last == '\\') {
        return false;
    }
    if windows && n == 2 && last == ':' {
        let first = base.get_char(0);
        if ('a' <= first && first <= 'z') || ('A' <= first && first <= 'Z') {
            return false;
        }
    }
    true
}

/// Puts the relative path `relative` below the directory `base`.
pub fn join(platform: Platform, base: &str, relative: &str) -> (joined: String)
    ensures
        joined@ == join_path(platform, base@, relative@),
{
    let mut joined = String::from_str(base);
    if wants_separator(platform, base) {
        proof {
            reveal_strlit("\\");
            reveal_strlit("/");
        }
        match platform {
            Platform::Windows => joined.append("\\"),
            _ => joined.append("/"),
        }
    }
    joined.append(relative);
    joined
}

} // verus!
