//! Semantic versions as `semver` reads and orders them, and the version
//! requirements it matches them against.
use vstd::prelude::*;

verus! {

/// A semantic version: major, minor, patch, pre-release and build metadata
/// (the last two as written after `-` and `+`, empty when absent).
#[derive(Debug)]
pub struct SemVersion {
    pub major: u64,
    pub minor: u64,
    pub patch: u64,
    pub pre: String,
    pub build: String,
}

/// A version as plain values: major, minor, patch, pre-release, build.
pub type VersionView = (u64, u64, u64, Seq<char>, Seq<char>);

impl SemVersion {
    pub open spec fn view_of(self) -> VersionView {
        (self.major, self.minor, self.patch, self.pre@, self.build@)
    }

    /// A release version.
    pub fn new(major: u64, minor: u64, patch: u64) -> (r: Self)
        ensures
            r.view_of() == (major, minor, patch, Seq::<char>::empty(), Seq::<char>::empty()),
    {
        SemVersion { major, minor, patch, pre: String::new(), build: String::new() }
    }

    /// Whether two versions are the same.
    pub fn same_as(&self, other: &SemVersion) -> (r: bool)
        ensures
            r == (self.view_of() == other.view_of()),
    {
        self.major == other.major && self.minor == other.minor && self.patch == other.patch
            && crate::text::str_eq(self.pre.as_str(), other.pre.as_str()) && crate::text::str_eq(
            self.build.as_str(),
            other.build.as_str(),
        )
    }
}

pub open spec fn version_opt(v: Option<SemVersion>) -> Option<VersionView> {
    match v {
        Some(x) => Some(x.view_of()),
        None => None,
    }
}

/// The version `semver::Version::parse` reads from a string, if any.
pub uninterp spec fn semver_parse(s: Seq<char>) -> Option<VersionView>;

/// `semver::Version::parse`: the version a string denotes (exactly three
/// numeric components, optional pre-release and build metadata), or none.
/// What it reads is left to the name `semver_parse`.
#[verifier::external_body]
pub(crate) fn parse_version(s: &str) -> (r: Option<SemVersion>)
    ensures
        version_opt(r) == semver_parse(s@),
{
    match semver::Version::parse(s) {
        Ok(v) => Some(SemVersion {
            major: v.major,
            minor: v.minor,
            patch: v.patch,
            pre: v.pre.as_str().to_string(),
            build: v.build.as_str().to_string(),
        }),
        Err(_) => None,
    }
}

/// The order of `semver::Version` (`>=`).
pub uninterp spec fn semver_ge(a: VersionView, b: VersionView) -> bool;

/// A version with neither pre-release nor build text.
pub open spec fn is_release(v: VersionView) -> bool {
    v.3.len() == 0 && v.4.len() == 0
}

/// Numeric order of release versions.
pub open spec fn release_ge(a: VersionView, b: VersionView) -> bool {
    a.0 > b.0 || (a.0 == b.0 && (a.1 > b.1 || (a.1 == b.1 && a.2 >= b.2)))
}

/// `>=` on `semver::Version`. Versions compare by major, minor and patch
/// numerically, then pre-release and build; only the release case (no
/// pre-release, no build metadata on either side) is stated. Pre-release or
/// build text that `semver` does not accept is read as empty.
#[verifier::external_body]
pub(crate) fn version_ge(a: &SemVersion, b: &SemVersion) -> (r: bool)
    ensures
        r == semver_ge(a.view_of(), b.view_of()),
        (a.pre@.len() == 0 && a.build@.len() == 0 && b.pre@.len() == 0 && b.build@.len() == 0)
            ==> r == release_ge(a.view_of(), b.view_of()),
{
    let x = semver::Version { major: a.major, minor: a.minor, patch: a.patch,
        pre: semver::Prerelease::new(&a.pre).unwrap_or_default(),
        build: semver::BuildMetadata::new(&a.build).unwrap_or_default() };
    let y = semver::Version { major: b.major, minor: b.minor, patch: b.patch,
        pre: semver::Prerelease::new(&b.pre).unwrap_or_default(),
        build: semver::BuildMetadata::new(&b.build).unwrap_or_default() };
    x >= y
}


/// Whether `semver::VersionReq::parse` accepts a requirement string.
pub uninterp spec fn semver_req_valid(req: Seq<char>) -> bool;

/// `semver::VersionReq::parse`: whether the text is a version requirement
/// (such as `>=3.10,<3.13` or `~3.12`). Which strings it accepts is left to
/// the name `semver_req_valid`.
#[verifier::external_body]
pub(crate) fn requirement_parses(req: &str) -> (r: bool)
    ensures
        r == semver_req_valid(req@),
{
    semver::VersionReq::parse(req).is_ok()
}

/// Whether the requirement `req` (as `semver::VersionReq::parse` reads it)
/// matches a version; false for text that does not parse.
pub uninterp spec fn semver_req_matches(req: Seq<char>, v: VersionView) -> bool;

/// `semver::VersionReq::matches`, on the requirement parsed from `req`: a
/// requirement that does not parse matches nothing. Which versions a
/// requirement matches is left to the name `semver_req_matches`; pre-release
/// or build text that `semver` does not accept is read as empty.
#[verifier::external_body]
pub(crate) fn requirement_matches(req: &str, v: &SemVersion) -> (r: bool)
    ensures
        r == semver_req_matches(req@, v.view_of()),
{
    let version = semver::Version { major: v.major, minor: v.minor, patch: v.patch,
        pre: semver::Prerelease::new(&v.pre).unwrap_or_default(),
        build: semver::BuildMetadata::new(&v.build).unwrap_or_default() };
    match semver::VersionReq::parse(req) {
        Ok(q) => q.matches(&version),
        Err(_) => false,
    }
}

} // verus!
