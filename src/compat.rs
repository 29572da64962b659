//! Compatibility between the calling mdbook's version and the version range
//! this preprocessor was built against, decided by the `semver` crate.
use vstd::prelude::*;

verus! {

#[verifier::external_type_specification]
#[verifier::external_body]
pub struct ExVersion(semver::Version);

#[verifier::external_type_specification]
#[verifier::external_body]
pub struct ExVersionReq(semver::VersionReq);

#[verifier::external_type_specification]
#[verifier::external_body]
pub struct ExSemverError(semver::Error);

/// Whether `semver::Version::parse` accepts the text.
pub uninterp spec fn is_valid_version(text: Seq<char>) -> bool;

/// Whether `semver::VersionReq::parse` accepts the text.
pub uninterp spec fn is_valid_requirement(text: Seq<char>) -> bool;

/// Whether the version that `semver::Version::parse` makes of `version`
/// satisfies the requirement that `semver::VersionReq::parse` makes of `req`.
pub uninterp spec fn version_satisfies(version: Seq<char>, req: Seq<char>) -> bool;

/// A parsed version, with the text it was parsed from.
pub struct ParsedVersion {
    inner: semver::Version,
    text: Ghost<Seq<char>>,
}

/// A parsed version requirement, with the text it was parsed from.
pub struct ParsedReq {
    inner: semver::VersionReq,
    text: Ghost<Seq<char>>,
}

/// Relies on `semver::Version::parse`: whether it succeeds depends on the
/// text alone.
#[verifier::external_body]
fn parse_version(text: &str) -> (r: Result<ParsedVersion, semver::Error>)
    ensures
        r is Ok <==> is_valid_version(text@),
        r matches Ok(v) ==> v.text@ == text@,
{
    semver::Version::parse(text).map(|inner| ParsedVersion { inner, text: Ghost(text@) })
}

/// Relies on `semver::VersionReq::parse`: whether it succeeds depends on the
/// text alone.
#[verifier::external_body]
fn parse_requirement(text: &str) -> (r: Result<ParsedReq, semver::Error>)
    ensures
        r is Ok <==> is_valid_requirement(text@),
        r matches Ok(q) ==> q.text@ == text@,
{
    semver::VersionReq::parse(text).map(|inner| ParsedReq { inner, text: Ghost(text@) })
}

/// Relies on `semver::VersionReq::matches`: whether the version satisfies
/// the requirement, which depends on the two parsed texts alone.
#[verifier::external_body]
fn requirement_matches(req: &ParsedReq, version: &ParsedVersion) -> (r: bool)
    ensures
        r == version_satisfies(version.text@, req.text@),
{
    req.inner.matches(&version.inner)
}

/// A version string that could not be parsed.
#[derive(Debug, PartialEq, Eq, Structural)]
pub enum VersionError {
    /// The calling mdbook's version is not a semantic version.
    InvalidVersion,
    /// The declared version range is not a semantic version requirement.
    InvalidRequirement,
}

/// The error, if any, that checking `caller_version` against `declared_req`
/// ends with. The caller's version is parsed first.
pub open spec fn version_error_spec(caller_version: Seq<char>, declared_req: Seq<char>) -> Option<
    VersionError,
> {
    if !is_valid_version(caller_version) {
        Some(VersionError::InvalidVersion)
    } else if !is_valid_requirement(declared_req) {
        Some(VersionError::InvalidRequirement)
    } else {
        None
    }
}

/// Parses the calling mdbook's version and the declared requirement and
/// tells whether the version satisfies it. A parse failure is an error; a
/// version outside the range is not.
pub fn check_version(caller_version: &str, declared_req: &str) -> (r: Result<bool, VersionError>)
    ensures
        r is Err <==> version_error_spec(caller_version@, declared_req@) is Some,
        r matches Err(e) ==> Some(e) == version_error_spec(caller_version@, declared_req@),
        r matches Ok(m) ==> m == version_satisfies(caller_version@, declared_req@),
{
    let version = match parse_version(caller_version) {
        Ok(v) => v,
        Err(_) => return Err(VersionError::InvalidVersion),
    };
    let req = match parse_requirement(declared_req) {
        Ok(q) => q,
        Err(_) => return Err(VersionError::InvalidRequirement),
    };
    Ok(requirement_matches(&req, &version))
}

/// The name under which this preprocessor is configured and reports.
pub const NAME: &'static str = "private-chapters";

/// The warning for a calling mdbook outside the declared range.
pub open spec fn mismatch_warning_spec(declared_req: Seq<char>, caller_version: Seq<char>) -> Seq<
    char,
> {
    "Warning: The "@ + NAME@ + " plugin was built against version "@ + declared_req
        + " of mdbook, but we're being called from version "@ + caller_version
}

/// The warning written when the calling mdbook is outside the declared range.
pub fn mismatch_warning(declared_req: &str, caller_version: &str) -> (r: String)
    ensures
        r@ == mismatch_warning_spec(declared_req@, caller_version@),
{
    let mut w = String::from_str("Warning: The ");
    w.append(NAME);
    w.append(" plugin was built against version ");
    w.append(declared_req);
    w.append(" of mdbook, but we're being called from version ");
    w.append(caller_version);
    w
}

/// The warning, if any, given the outcome of the range check.
pub fn compatibility_warning(matched: bool, declared_req: &str, caller_version: &str) -> (r: Option<
    String,
>)
    ensures
        matched ==> r is None,
        !matched ==> (r matches Some(w) && w@ == mismatch_warning_spec(
            declared_req@,
            caller_version@,
        )),
{
    if matched {
        None
    } else {
        Some(mismatch_warning(declared_req, caller_version))
    }
}

} // verus!
