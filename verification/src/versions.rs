//! Semantic-version parsing, canonical rendering and range matching,
//! delegated to the `semver` crate behind trusted wrappers.

use vstd::prelude::*;

verus! {

/// Whether `semver::VersionReq::parse` accepts the string.
pub uninterp spec fn spec_req_ok(s: Seq<char>) -> bool;

/// The canonical rendering of the requirement parsed from the string.
pub uninterp spec fn spec_req_canon(s: Seq<char>) -> Seq<char>;

/// Whether `semver::Version::parse` accepts the string.
pub uninterp spec fn spec_version_ok(s: Seq<char>) -> bool;

/// The canonical rendering of the version parsed from the string.
pub uninterp spec fn spec_version_canon(s: Seq<char>) -> Seq<char>;

/// Whether the version satisfies the requirement, both given as strings,
/// under the `semver` crate's range semantics.
pub uninterp spec fn spec_req_matches(req: Seq<char>, ver: Seq<char>) -> bool;

/// Relies on `semver::VersionReq::parse` and the `Display` impl of
/// `semver::VersionReq`: both are pure functions of the input string, so the
/// parse outcome and the canonical rendering depend on `s` alone.
#[verifier::external_body]
pub(crate) fn canon_req(s: &str) -> (r: Option<String>)
    ensures
        r.is_some() == spec_req_ok(s@),
        r matches Some(c) ==> c@ == spec_req_canon(s@),
{
    match semver::VersionReq::parse(s) {
        Ok(req) => Some(req.to_string()),
        Err(_) => None,
    }
}

/// Relies on `semver::Version::parse` and the `Display` impl of
/// `semver::Version`: both are pure functions of the input string, so the
/// parse outcome and the canonical rendering depend on `s` alone.
#[verifier::external_body]
pub(crate) fn canon_version(s: &str) -> (r: Option<String>)
    ensures
        r.is_some() == spec_version_ok(s@),
        r matches Some(c) ==> c@ == spec_version_canon(s@),
{
    match semver::Version::parse(s) {
        Ok(v) => Some(v.to_string()),
        Err(_) => None,
    }
}

/// Relies on `semver::VersionReq::parse`, `semver::Version::parse` and
/// `semver::VersionReq::matches`: all three are pure, so whether the parsed
/// version satisfies the parsed requirement depends on the two strings alone.
#[verifier::external_body]
pub(crate) fn req_matches(req: &str, ver: &str) -> (r: Option<bool>)
    ensures
        r.is_some() == (spec_req_ok(req@) && spec_version_ok(ver@)),
        r matches Some(b) ==> b == spec_req_matches(req@, ver@),
{
    match (semver::VersionReq::parse(req), semver::Version::parse(ver)) {
        (Ok(rq), Ok(v)) => Some(rq.matches(&v)),
        _ => None,
    }
}

/// Whether the declared requirement already admits the latest version.
///
/// Returns `None` when either string is not a well-formed requirement or
/// version; otherwise the answer is exactly the `semver` range match.
pub fn is_up_to_date(ver_req: &str, latest: &str) -> (r: Option<bool>)
    ensures
        r.is_some() == (spec_req_ok(ver_req@) && spec_version_ok(latest@)),
        r matches Some(b) ==> b == spec_req_matches(ver_req@, latest@),
{
    req_matches(ver_req, latest)
}

} // verus!
