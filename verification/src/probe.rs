//! The local install probe: is a version already there?
//!
//! An installed version shows as a directory under the installation prefix,
//! named either by the version as typed (`16.0.0`) or by the version with the
//! marker letter in front (`v16.0.0`). The caller looks for the two
//! directories; the decision is made here.

use vstd::prelude::*;
use crate::release::{Release, ReleaseView};

verus! {

/// A version name with the marker letter in front.
pub open spec fn marked(version: Seq<char>) -> Seq<char> {
    "v"@ + version
}

/// What the probe reports, given which of the two directories exist: the
/// version as typed if its directory is there, else the marked version if
/// that directory is there, else nothing. The empty string names no release,
/// so on it only the marked form counts.
pub open spec fn probe_result(
    accepted_version: Seq<char>,
    bare_exists: bool,
    marked_exists: bool,
) -> Option<ReleaseView> {
    if bare_exists && accepted_version.len() > 0 {
        Some(ReleaseView { version: accepted_version, lts_tag: None })
    } else if marked_exists {
        Some(ReleaseView { version: marked(accepted_version), lts_tag: None })
    } else {
        None
    }
}

/// The name of the directory that holds `accepted_version` under the marked
/// convention.
pub fn marked_name(accepted_version: &str) -> (name: String)
    ensures
        name@ == marked(accepted_version@),
{
    String::from_str("v").concat(accepted_version)
}

/// Decides whether `accepted_version` is installed. `bare_exists` says
/// whether the prefix holds a directory named `accepted_version`,
/// `marked_exists` whether it holds one named `marked_name(accepted_version)`.
pub fn probe(accepted_version: &str, bare_exists: bool, marked_exists: bool) -> (r: Option<
    Release,
>)
    ensures
        probe_result(accepted_version@, bare_exists, marked_exists) == match r {
            Some(release) => Some(release@),
            None => None,
        },
        r is None <==> !(bare_exists && accepted_version@.len() > 0) && !marked_exists,
{
    if bare_exists && !accepted_version.is_empty() {
        Release::ver_only(accepted_version)
    } else if marked_exists {
        let name: String = marked_name(accepted_version);
        proof {
            reveal_strlit("v");
            assert(name@.len() > 0);
        }
        Release::ver_only(name.as_str())
    } else {
        None
    }
}

} // verus!
