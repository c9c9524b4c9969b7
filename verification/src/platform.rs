//! Facts about the machine that the supervisor runs on: whether it is a
//! WSL2 guest, and where the project keeps its cache.

use vstd::prelude::*;

verus! {

/// Whether the needle occurs in the text as a run of consecutive characters.
pub open spec fn occurs_in(needle: Seq<char>, text: Seq<char>) -> bool {
    exists|at: int|
        0 <= at && at + needle.len() <= text.len() && #[trigger] text.subrange(
            at,
            at + needle.len(),
        ) == needle
}

/// Whether a kernel version text carries one of the two marks of WSL2.
pub open spec fn wsl2_signature(version: Seq<char>) -> bool {
    occurs_in("WSL2"@, version) || occurs_in("microsoft"@, version)
}

/// The organization under which the project's directories are filed: a
/// debug build keeps its files apart from those of a release build.
pub open spec fn organization(debug_build: bool) -> Seq<char> {
    if debug_build {
        "bloop-dev"@
    } else {
        "bloop"@
    }
}

/// The characters of a string, one by one.
fn characters(text: &str) -> (list: Vec<char>)
    ensures
        list@ == text@,
{
    let mut list: Vec<char> = Vec::new();
    for c in it: text.chars()
        invariant
            it.seq() == text@,
            list@ == text@.take(it.index() as int),
    {
        proof {
            let k = it.index() as int;
            assert(text@.take(k + 1) == text@.take(k).push(c));
        }
        list.push(c);
    }
    proof {
        assert(text@.take(text@.len() as int) == text@);
    }
    list
}

/// Compares the needle with the run of the text that starts at one place.
fn matches_at(text: &Vec<char>, needle: &Vec<char>, at: usize) -> (hit: bool)
    requires
        at + needle.len() <= text.len(),
    ensures
        hit == (text@.subrange(at as int, at + needle.len()) == needle@),
{
    let ghost run = text@.subrange(at as int, at + needle.len());
    let mut i: usize = 0;
    while i < needle.len()
        invariant
            i <= needle.len(),
            at + needle.len() <= text.len(),
            run == text@.subrange(at as int, at + needle.len()),
            forall|j: int| 0 <= j < i ==> run[j] == needle@[j],
        decreases needle.len() - i,
    {
        if text[at + i] != needle[i] {
            assert(run[i as int] != needle@[i as int]);
            return false;
        }
        i += 1;
    }
    assert(run =~= needle@);
    true
}

/// Searches a text for a needle.
pub fn contains_text(text: &str, needle: &str) -> (found: bool)
    ensures
        found == occurs_in(needle@, text@),
{
    let text_chars = characters(text);
    let needle_chars = characters(needle);
    if needle_chars.len() > text_chars.len() {
        return false;
    }
    let last: usize = text_chars.len() - needle_chars.len();
    let mut at: usize = 0;
    while at < last
        invariant
            at <= last,
            last == text_chars.len() - needle_chars.len(),
            needle_chars.len() <= text_chars.len(),
            text_chars@ == text@,
            needle_chars@ == needle@,
            forall|k: int|
                0 <= k < at ==> #[trigger] text@.subrange(k, k + needle@.len()) != needle@,
        decreases last - at,
    {
        if matches_at(&text_chars, &needle_chars, at) {
            return true;
        }
        at += 1;
    }
    matches_at(&text_chars, &needle_chars, last)
}

/// Decides whether the machine is a WSL2 guest, from what was read of it:
/// whether the variables `WSL_DISTRO_NAME` and `WSLENV` are set, and the
/// kernel's version text where it could be read. Either variable settles
/// it; failing both, the version text does if it names WSL2 or microsoft.
pub fn is_wsl2(distro_name_set: bool, wslenv_set: bool, kernel_version: Option<&str>) -> (detected:
    bool)
    ensures
        detected == (distro_name_set || wslenv_set || match kernel_version {
            Some(version) => wsl2_signature(version@),
            None => false,
        }),
{
    if distro_name_set || wslenv_set {
        return true;
    }
    match kernel_version {
        Some(version) => contains_text(version, "WSL2") || contains_text(version, "microsoft"),
        None => false,
    }
}

/// `directories::ProjectDirs`, carried through as it is.
#[verifier::external_type_specification]
#[verifier::external_body]
pub struct ExProjectDirs(directories::ProjectDirs);

/// `std::path::PathBuf`, carried through as it is.
#[verifier::external_type_specification]
#[verifier::external_body]
pub struct ExPathBuf(std::path::PathBuf);

/// `directories::ProjectDirs::from`: the directories of a project, worked
/// out from the user's home directory and the environment as they are when
/// it is called, or `None` where no home directory can be found. Nothing is
/// claimed of the result.
#[verifier::external_body]
fn project_dirs(qualifier: &str, organization: &str, application: &str) -> (dirs: Option<
    directories::ProjectDirs,
>) {
    directories::ProjectDirs::from(qualifier, organization, application)
}

/// `directories::ProjectDirs::cache_dir`: the cache directory among a
/// project's directories, as an owned path. Nothing is claimed of the result.
#[verifier::external_body]
fn cache_dir_of(dirs: &directories::ProjectDirs) -> (path: std::path::PathBuf) {
    dirs.cache_dir().to_path_buf()
}

/// Names the organization under which the cache is filed.
pub fn cache_organization(debug_build: bool) -> (name: &'static str)
    ensures
        name@ == organization(debug_build),
{
    if debug_build {
        "bloop-dev"
    } else {
        "bloop"
    }
}

/// Finds the project's cache directory for an application of the
/// organization that `cache_organization` names, under the qualifier `ai`.
/// The answer depends on the user's home directory: `None` where the
/// operating system gives none.
pub fn cache_dir(debug_build: bool, application: &str) -> (path: Option<std::path::PathBuf>) {
    match project_dirs("ai", cache_organization(debug_build), application) {
        Some(dirs) => Some(cache_dir_of(&dirs)),
        None => None,
    }
}

} // verus!
