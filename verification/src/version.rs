//! Semantic-version requirements, parsed and evaluated by the `semver` crate.
//!
//! The parsed values are opaque; each is kept together with the text it was
//! parsed from, so that what the crate decides can be named over that text.
use vstd::prelude::*;

verus! {

#[verifier::external_type_specification]
#[verifier::external_body]
pub struct ExVersionReq(semver::VersionReq);

#[verifier::external_type_specification]
#[verifier::external_body]
pub struct ExVersion(semver::Version);

/// What `semver::VersionReq::parse` makes of a text: `Ok` when it parses,
/// or the message (`Display`) of the error it reports.
pub uninterp spec fn requirement_parse(text: Seq<char>) -> Result<(), Seq<char>>;

/// What `semver::Version::parse` makes of a text: `Ok` when it parses, or
/// the message (`Display`) of the error it reports.
pub uninterp spec fn version_parse(text: Seq<char>) -> Result<(), Seq<char>>;

/// Whether `semver::VersionReq::matches` accepts the version parsed from
/// `version` for the requirement parsed from `requirement`.
pub uninterp spec fn requirement_matches(requirement: Seq<char>, version: Seq<char>) -> bool;

/// A parsed version requirement and the text it was parsed from.
///
/// Only `Requirement::parse` makes one, so `parsed` is always what
/// `semver::VersionReq::parse` returned for `text`.
pub struct Requirement {
    parsed: semver::VersionReq,
    text: String,
}

/// A parsed version and the text it was parsed from.
///
/// Only `Release::parse` makes one, so `parsed` is always what
/// `semver::Version::parse` returned for `text`.
pub struct Release {
    parsed: semver::Version,
    text: String,
}

impl Requirement {
    /// The text this requirement was parsed from.
    pub closed spec fn source(&self) -> Seq<char> {
        self.text@
    }

    /// Trusted: calls `semver::VersionReq::parse`.  The contract claims that
    /// the call succeeds exactly when `requirement_parse` says so, that a
    /// parsed requirement remembers its text, and that a failure carries the
    /// error's message.
    #[verifier::external_body]
    pub(crate) fn parse(text: &str) -> (r: Result<Requirement, String>)
        ensures
            match r {
                Ok(q) => requirement_parse(text@) is Ok && q.source() == text@,
                Err(m) => requirement_parse(text@) == Err::<(), Seq<char>>(m@),
            },
    {
        match semver::VersionReq::parse(text) {
            Ok(parsed) => Ok(Requirement { parsed, text: text.to_string() }),
            Err(e) => Err(e.to_string()),
        }
    }

    /// Trusted: calls `semver::VersionReq::matches`.  The contract claims
    /// that the answer is `requirement_matches` of the two source texts.
    #[verifier::external_body]
    pub(crate) fn matches(&self, version: &Release) -> (b: bool)
        ensures
            b == requirement_matches(self.source(), version.source()),
    {
        self.parsed.matches(&version.parsed)
    }
}

impl Release {
    /// The text this version was parsed from.
    pub closed spec fn source(&self) -> Seq<char> {
        self.text@
    }

    /// Trusted: calls `semver::Version::parse`.  The contract claims that
    /// the call succeeds exactly when `version_parse` says so, that a parsed
    /// version remembers its text, and that a failure carries the error's
    /// message.
    #[verifier::external_body]
    pub(crate) fn parse(text: &str) -> (r: Result<Release, String>)
        ensures
            match r {
                Ok(v) => version_parse(text@) is Ok && v.source() == text@,
                Err(m) => version_parse(text@) == Err::<(), Seq<char>>(m@),
            },
    {
        match semver::Version::parse(text) {
            Ok(parsed) => Ok(Release { parsed, text: text.to_string() }),
            Err(e) => Err(e.to_string()),
        }
    }
}

} // verus!
