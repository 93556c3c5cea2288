//! The introspection-contract version check.

use vstd::prelude::*;

verus! {

#[verifier::external_type_specification]
#[verifier::external_body]
pub struct ExSemverVersion(semver::Version);

#[verifier::external_type_specification]
#[verifier::external_body]
pub struct ExSemverVersionReq(semver::VersionReq);

#[verifier::external_type_specification]
#[verifier::external_body]
pub struct ExSemverError(semver::Error);

/// Whether the text parses as a semantic-version requirement.
pub uninterp spec fn requirement_parses(text: Seq<char>) -> bool;

/// Whether the text parses as a semantic version.
pub uninterp spec fn version_parses(text: Seq<char>) -> bool;

/// Whether the version written `version` satisfies the requirement written
/// `requirement` (a bare version as requirement means a caret range).
pub uninterp spec fn requirement_matches(requirement: Seq<char>, version: Seq<char>) -> bool;

/// A parsed version requirement, with the text it was parsed from.
pub struct Requirement {
    text: String,
    parsed: semver::VersionReq,
}

/// A parsed version, with the text it was parsed from.
pub struct ContractVersion {
    text: String,
    parsed: semver::Version,
}

impl Requirement {
    /// The text this requirement was parsed from.
    pub closed spec fn text(&self) -> Seq<char> {
        self.text@
    }
}

impl ContractVersion {
    /// The text this version was parsed from.
    pub closed spec fn text(&self) -> Seq<char> {
        self.text@
    }
}

/// Relies on `semver::VersionReq::parse`: whether a text is a requirement.
#[verifier::external_body]
fn parse_requirement(text: &str) -> (r: Result<Requirement, semver::Error>)
    ensures
        r is Ok <==> requirement_parses(text@),
        r matches Ok(q) ==> q.text() == text@,
{
    match semver::VersionReq::parse(text) {
        Ok(parsed) => Ok(Requirement { text: text.to_string(), parsed }),
        Err(e) => Err(e),
    }
}

/// Relies on `semver::Version::parse`: whether a text is a version.
#[verifier::external_body]
fn parse_version(text: &str) -> (r: Result<ContractVersion, semver::Error>)
    ensures
        r is Ok <==> version_parses(text@),
        r matches Ok(v) ==> v.text() == text@,
{
    match semver::Version::parse(text) {
        Ok(parsed) => Ok(ContractVersion { text: text.to_string(), parsed }),
        Err(e) => Err(e),
    }
}

/// Relies on `semver::VersionReq::matches`: whether a version satisfies a
/// requirement, which depends on the two texts alone.
#[verifier::external_body]
fn requirement_admits(req: &Requirement, version: &ContractVersion) -> (r: bool)
    ensures
        r == requirement_matches(req.text(), version.text()),
{
    req.parsed.matches(&version.parsed)
}

/// Why an extension's contract version is refused.
#[derive(Clone, Copy, Debug, PartialEq, Eq, Structural)]
pub enum ContractError {
    /// The caller's own contract version does not parse.
    MalformedCallerVersion,
    /// The extension's declared contract version does not parse.
    MalformedExtensionVersion,
    /// Both parse, and the extension's version is outside the caller's range.
    Incompatible,
}

/// the verdict from what the parses and the comparison gave; the
/// comparison counts only where both versions parse.
pub open spec fn verdict(caller_ok: bool, extension_ok: bool, compatible: bool) -> Result<
    (),
    ContractError,
> {
    if !caller_ok {
        Err(ContractError::MalformedCallerVersion)
    } else if !extension_ok {
        Err(ContractError::MalformedExtensionVersion)
    } else if !compatible {
        Err(ContractError::Incompatible)
    } else {
        Ok(())
    }
}

/// What is decided for a caller version and an extension version.
pub open spec fn admission(caller: Seq<char>, extension: Seq<char>) -> Result<(), ContractError> {
    verdict(
        requirement_parses(caller),
        version_parses(extension),
        requirement_matches(caller, extension),
    )
}

/// the verdict from the outcome of the two parses and the comparison.
pub fn contract_verdict(caller_ok: bool, extension_ok: bool, compatible: bool) -> (r: Result<
    (),
    ContractError,
>)
    ensures
        r == verdict(caller_ok, extension_ok, compatible),
{
    if !caller_ok {
        Err(ContractError::MalformedCallerVersion)
    } else if !extension_ok {
        Err(ContractError::MalformedExtensionVersion)
    } else if !compatible {
        Err(ContractError::Incompatible)
    } else {
        Ok(())
    }
}

/// Checks an extension's declared contract version against the caller's:
/// the caller's version is read as a requirement (caret range by default).
pub fn check_contract(caller: &str, extension: &str) -> (r: Result<(), ContractError>)
    ensures
        r == admission(caller@, extension@),
{
    let req = match parse_requirement(caller) {
        Ok(q) => q,
        Err(_) => return contract_verdict(false, false, false),
    };
    let ver = match parse_version(extension) {
        Ok(v) => v,
        Err(_) => return contract_verdict(true, false, false),
    };
    let compatible = requirement_admits(&req, &ver);
    contract_verdict(true, true, compatible)
}

/// Hands `descriptor` on only where the check accepts the extension's version:
/// an incompatible or malformed version never releases it.
pub fn release_descriptor<D>(caller: &str, extension: &str, descriptor: D) -> (r: Result<
    D,
    ContractError,
>)
    ensures
        match r {
            Ok(d) => admission(caller@, extension@) is Ok && d == descriptor,
            Err(e) => admission(caller@, extension@) == Err::<(), ContractError>(e),
        },
{
    match check_contract(caller, extension) {
        Ok(()) => Ok(descriptor),
        Err(e) => Err(e),
    }
}

} // verus!
