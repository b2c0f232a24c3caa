//! Where build state lives on disk, relative to the root of the
//! repository that holds the experiment.

use vstd::prelude::*;
use vstd::string::StringExecFns;

verus! {

/// Directory, under the repository root, that holds all build state.
pub const BUILD_DIR: &'static str = ".bipolar";

/// Directory, under the build directory, of the clone of the control
/// revision.
pub const CONTROL_REPO_DIR: &'static str = ".control";

/// File, under the build directory, that the lockfile is written to.
pub const LOCKFILE_FILE: &'static str = "lockfile.toml";

/// Directory that links point into when the configuration names none.
pub const DEFAULT_SYMLINKS_BASE: &'static str = "symlinks/";

/// Prefix of the name of a shard's directory.
pub const SHARD_PREFIX: &'static str = "shard_";

/// Pattern, appended to the template directory, that matches every file
/// below it.
pub const TEMPLATE_PATTERN: &'static str = "/**/*";

/// The path of `name` inside `dir`. An absolute `name` stands for itself,
/// and so does any name inside the empty path; otherwise the two are put
/// together with exactly one `/` between them where `dir` does not end in
/// one already.
pub open spec fn joined(dir: Seq<char>, name: Seq<char>) -> Seq<char> {
    if name.len() > 0 && name[0] == '/' {
        name
    } else if dir.len() == 0 {
        name
    } else if dir.last() == '/' {
        dir + name
    } else {
        dir + seq!['/'] + name
    }
}

/// The decimal digit for `d`.
pub open spec fn digit(d: nat) -> char {
    seq!['0', '1', '2', '3', '4', '5', '6', '7', '8', '9'][d as int]
}

/// `n` in decimal notation, without leading zeros.
pub open spec fn decimal(n: nat) -> Seq<char>
    decreases n,
{
    if n < 10 {
        seq![digit(n)]
    } else {
        decimal(n / 10).push(digit(n % 10))
    }
}

/// The name of the directory of shard number `shard`.
pub open spec fn shard_name(shard: usize) -> Seq<char> {
    SHARD_PREFIX@ + decimal(shard as nat)
}

/// The path of the build directory under the repository root `base`.
pub open spec fn build_dir_of(base: Seq<char>) -> Seq<char> {
    joined(base, BUILD_DIR@)
}

/// Whether a file of this name is left out when templates are rendered:
/// names that start with a dot are.
pub open spec fn hidden(file_name: Seq<char>) -> bool {
    file_name.len() > 0 && file_name[0] == '.'
}

fn digit_text(d: usize) -> (text: &'static str)
    requires
        d < 10,
    ensures
        text@ == seq![digit(d as nat)],
{
    proof {
        reveal_strlit("0");
        reveal_strlit("1");
        reveal_strlit("2");
        reveal_strlit("3");
        reveal_strlit("4");
        reveal_strlit("5");
        reveal_strlit("6");
        reveal_strlit("7");
        reveal_strlit("8");
        reveal_strlit("9");
    }
    let text = if d == 0 {
        "0"
    } else if d == 1 {
        "1"
    } else if d == 2 {
        "2"
    } else if d == 3 {
        "3"
    } else if d == 4 {
        "4"
    } else if d == 5 {
        "5"
    } else if d == 6 {
        "6"
    } else if d == 7 {
        "7"
    } else if d == 8 {
        "8"
    } else {
        "9"
    };
    assert(text@ =~= seq![digit(d as nat)]);
    text
}

/// Writes `n` in decimal notation.
pub fn decimal_string(n: usize) -> (text: String)
    ensures
        text@ == decimal(n as nat),
    decreases n,
{
    if n < 10 {
        String::from_str(digit_text(n))
    } else {
        let head = decimal_string(n / 10);
        let last = digit_text(n % 10);
        let text = head.concat(last);
        assert(text@ =~= decimal((n / 10) as nat).push(digit((n % 10) as nat)));
        text
    }
}

/// The path of `name` inside `dir`.
pub fn child_path(dir: &str, name: &str) -> (path: String)
    ensures
        path@ == joined(dir@, name@),
{
    let name_len = name.unicode_len();
    if name_len > 0 && name.get_char(0) == '/' {
        return String::from_str(name);
    }
    let dir_len = dir.unicode_len();
    if dir_len == 0 {
        String::from_str(name)
    } else if dir.get_char(dir_len - 1) == '/' {
        String::from_str(dir).concat(name)
    } else {
        proof {
            reveal_strlit("/");
            assert("/"@ =~= seq!['/']);
        }
        String::from_str(dir).concat("/").concat(name)
    }
}

/// The build directory of the repository rooted at `base`.
pub fn get_build_dir(base: &str) -> (path: String)
    ensures
        path@ == build_dir_of(base@),
{
    child_path(base, BUILD_DIR)
}

/// The path of the lockfile of the repository rooted at `base`.
pub fn get_lockfile_path(base: &str) -> (path: String)
    ensures
        path@ == joined(build_dir_of(base@), LOCKFILE_FILE@),
{
    let dir = get_build_dir(base);
    child_path(dir.as_str(), LOCKFILE_FILE)
}

/// The directory of the control clone of the repository rooted at `base`.
pub fn get_control_dir(base: &str) -> (path: String)
    ensures
        path@ == joined(build_dir_of(base@), CONTROL_REPO_DIR@),
{
    let dir = get_build_dir(base);
    child_path(dir.as_str(), CONTROL_REPO_DIR)
}

/// The working directory of shard number `shard` of the repository rooted
/// at `base`.
pub fn get_shard_dir(base: &str, shard: usize) -> (path: String)
    ensures
        path@ == joined(build_dir_of(base@), shard_name(shard)),
{
    let dir = get_build_dir(base);
    let number = decimal_string(shard);
    let name = String::from_str(SHARD_PREFIX).concat(number.as_str());
    child_path(dir.as_str(), name.as_str())
}

/// What the link called `name` points to: the entry of that name in the
/// shared directory `symlinks_base`, or in `symlinks/` when none is
/// configured, under the repository root `base`.
pub fn symlink_source(base: &str, symlinks_base: &Option<String>, name: &str) -> (path: String)
    ensures
        path@ == joined(
            joined(
                base@,
                match symlinks_base {
                    Some(dir) => dir@,
                    None => DEFAULT_SYMLINKS_BASE@,
                },
            ),
            name@,
        ),
{
    let shared = match symlinks_base {
        Some(dir) => child_path(base, dir.as_str()),
        None => child_path(base, DEFAULT_SYMLINKS_BASE),
    };
    child_path(shared.as_str(), name)
}

/// The pattern that matches every template below `template_dir`.
pub fn template_glob(template_dir: &str) -> (pattern: String)
    ensures
        pattern@ == template_dir@ + TEMPLATE_PATTERN@,
{
    String::from_str(template_dir).concat(TEMPLATE_PATTERN)
}

/// Whether templating skips a file of this name.
pub fn is_hidden(file_name: &str) -> (skip: bool)
    ensures
        skip == hidden(file_name@),
{
    file_name.unicode_len() > 0 && file_name.get_char(0) == '.'
}

} // verus!
