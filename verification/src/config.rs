//! Run configuration derived from the environment: the debug/release mode
//! and the platform identifier with its optional bitness suffix.

use vstd::prelude::*;

use crate::text::str_eq;

verus! {

/// The debug-versus-release axis of a build specification.
pub enum Mode {
    Release,
    Debug,
}

impl Mode {
    /// The lowercase name used in artifact prefixes.
    pub fn as_str(&self) -> (r: &'static str)
        ensures
            self is Release ==> r@ == "release"@,
            self is Debug ==> r@ == "debug"@,
    {
        match self {
            Mode::Release => "release",
            Mode::Debug => "debug",
        }
    }
}

/// The platform identifier and optional bitness suffix for an operating
/// system name: `macos` publishes as `mac`, `windows` as `win32` with an
/// `_x64` suffix, and every other name stands for itself with no suffix.
pub fn platform_for_os(os: &str) -> (r: (String, Option<String>))
    ensures
        os@ == "macos"@ ==> r.0@ == "mac"@ && r.1 is None,
        os@ == "windows"@ ==> r.0@ == "win32"@ && (r.1 matches Some(b) && b@ == "_x64"@),
        os@ != "macos"@ && os@ != "windows"@ ==> r.0@ == os@ && r.1 is None,
{
    proof {
        reveal_strlit("macos");
        reveal_strlit("windows");
        assert("macos"@.len() != "windows"@.len());
    }
    if str_eq(os, "macos") {
        (String::from_str("mac"), None)
    } else if str_eq(os, "windows") {
        (String::from_str("win32"), Some(String::from_str("_x64")))
    } else {
        (String::from_str(os), None)
    }
}

} // verus!
