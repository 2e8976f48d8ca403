//! Whether the host's version is the one this preprocessor was built for.
use vstd::prelude::*;

use crate::error::PandocError;

verus! {

/// Whether `Version::parse` accepts the text.
pub uninterp spec fn version_parses(s: Seq<char>) -> bool;

/// Whether `VersionReq::parse` accepts the text.
pub uninterp spec fn requirement_parses(s: Seq<char>) -> bool;

/// Whether the version that the text `version` stands for meets the
/// requirement that the text `req` stands for.
pub uninterp spec fn version_matches(req: Seq<char>, version: Seq<char>) -> bool;

/// Relies on semver's `VersionReq::matches`, with its arguments read by
/// `VersionReq::parse` and `Version::parse`: each succeeds or fails by the
/// text alone, and the match depends on the two texts alone.
#[verifier::external_body]
fn matches_texts(req: &str, version: &str) -> (r: Option<bool>)
    ensures
        r is Some <==> (requirement_parses(req@) && version_parses(version@)),
        r matches Some(b) ==> b == version_matches(req@, version@),
{
    match (semver::VersionReq::parse(req), semver::Version::parse(version)) {
        (Ok(q), Ok(v)) => Some(q.matches(&v)),
        _ => None,
    }
}

/// Whether a host of version `host` meets the requirement `built_against`,
/// the version of mdbook this preprocessor was built with. Either text that
/// does not parse is an error; a mismatch is only `Ok(false)`.
pub fn host_version_matches(host: &str, built_against: &str) -> (r: Result<bool, PandocError>)
    ensures
        !(version_parses(host@) && requirement_parses(built_against@)) ==> r == Err::<
            bool,
            PandocError,
        >(PandocError::MalformedVersion),
        version_parses(host@) && requirement_parses(built_against@) ==> r == Ok::<
            bool,
            PandocError,
        >(version_matches(built_against@, host@)),
{
    match matches_texts(built_against, host) {
        Some(b) => Ok(b),
        None => Err(PandocError::MalformedVersion),
    }
}

} // verus!
