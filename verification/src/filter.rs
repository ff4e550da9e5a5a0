//! The filename filter: which archive members are worth extracting because
//! they are typically necessary for running the fetched browser build.

use vstd::prelude::*;

verus! {

/// Whether a glob pattern matches a path, as the `glob_match` crate decides
/// it: a function of the pattern and the path alone.
pub uninterp spec fn glob_matches(pattern: Seq<char>, path: Seq<char>) -> bool;

/// Relies on glob_match::glob_match: whether the pattern matches the path.
#[verifier::external_body]
fn glob_match_one(pattern: &str, path: &str) -> (r: bool)
    ensures
        r == glob_matches(pattern@, path@),
{
    glob_match::glob_match(pattern, path)
}

/// How many allow-list patterns there are.
pub open spec fn pattern_count() -> int {
    11
}

/// The allow-list of glob patterns covering the files needed to run a build:
/// shared libraries, the main executable, localization and resource bundles,
/// snapshots, crash-handling binaries, and platform application bundles.
pub open spec fn spec_pattern(i: int) -> Seq<char> {
    if i == 0 {
        "**/*.so"@
    } else if i == 1 {
        "**/chrome"@
    } else if i == 2 {
        "**/en-US.pak"@
    } else if i == 3 {
        "**/*.dat"@
    } else if i == 4 {
        "**/chrome_crash*"@
    } else if i == 5 {
        "**/v8_context_snapshot.bin"@
    } else if i == 6 {
        "**/resources.pak"@
    } else if i == 7 {
        "**/chrome_*_percent.pak"@
    } else if i == 8 {
        "**/nacl_helper"@
    } else if i == 9 {
        "**/Chromium.app/**"@
    } else {
        "**/d8"@
    }
}

/// The `i`th allow-list pattern.
fn pattern(i: usize) -> (r: &'static str)
    requires
        i < pattern_count(),
    ensures
        r@ == spec_pattern(i as int),
{
    match i {
        0 => "**/*.so",
        1 => "**/chrome",
        2 => "**/en-US.pak",
        3 => "**/*.dat",
        4 => "**/chrome_crash*",
        5 => "**/v8_context_snapshot.bin",
        6 => "**/resources.pak",
        7 => "**/chrome_*_percent.pak",
        8 => "**/nacl_helper",
        9 => "**/Chromium.app/**",
        _ => "**/d8",
    }
}

/// Whether a member path is on the allow-list: some pattern matches it.
pub open spec fn path_needed(path: Seq<char>) -> bool {
    exists|i: int| 0 <= i < pattern_count() && glob_matches(#[trigger] spec_pattern(i), path)
}

/// Knows what files are typically necessary for running the fetched build.
pub struct ChromiumFilenameFilter;

impl ChromiumFilenameFilter {
    /// Whether an archive member should be extracted: exactly when some
    /// allow-list pattern matches its path.
    pub fn should_unzip(&self, filename: &str) -> (r: bool)
        ensures
            r == path_needed(filename@),
    {
        let mut i: usize = 0;
        while i < 11
            invariant
                0 <= i <= pattern_count(),
                forall|j: int|
                    0 <= j < i ==> !glob_matches(#[trigger] spec_pattern(j), filename@),
            decreases pattern_count() - i,
        {
            let p = pattern(i);
            if glob_match_one(p, filename) {
                return true;
            }
            i = i + 1;
        }
        false
    }
}

} // verus!
