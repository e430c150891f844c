//! Whether this version of the generator can expand a template.

use crate::config::Config;
use vstd::prelude::*;

verus! {

/// The reason why a version does not parse as `semver` has it.
#[verifier::external_type_specification]
#[verifier::external_body]
pub struct ExSemverError(semver::Error);

/// Whether `semver::Version::parse` accepts a text.
pub uninterp spec fn is_semver_version(text: Seq<char>) -> bool;

/// What `semver::VersionReq::parse` reads from a text, written out again; `None` where it does
/// not accept the text.
pub uninterp spec fn semver_requirement(text: Seq<char>) -> Option<Seq<char>>;

/// What `semver::VersionReq::matches` says of a requirement and a version, given as texts that
/// are accepted as such.
pub uninterp spec fn semver_matches(requirement: Seq<char>, version: Seq<char>) -> bool;

/// Calls `semver::Version::parse`, and writes out the version it read. Which texts it accepts
/// is named, not described. There is one text only for each version, so that a text that is
/// accepted is written out as it was.
#[verifier::external_body]
fn parse_version(text: &str) -> (r: Result<String, semver::Error>)
    ensures
        match r {
            Ok(version) => is_semver_version(text@) && version@ == text@,
            Err(_) => !is_semver_version(text@),
        },
{
    match semver::Version::parse(text) {
        Ok(version) => Ok(version.to_string()),
        Err(e) => Err(e),
    }
}

/// Calls `semver::VersionReq::parse`, and writes out the requirement it read. What that is
/// depends on the text alone; it is named, not described.
#[verifier::external_body]
fn parse_requirement(text: &str) -> (r: Result<String, semver::Error>)
    ensures
        match r {
            Ok(requirement) => semver_requirement(text@) == Some(requirement@),
            Err(_) => semver_requirement(text@) is None,
        },
{
    match semver::VersionReq::parse(text) {
        Ok(requirement) => Ok(requirement.to_string()),
        Err(e) => Err(e),
    }
}

/// Calls `semver::VersionReq::matches`, on the requirement and the version that the texts
/// denote. What it says depends on the two texts alone; it is named, not described.
#[verifier::external_body]
fn requirement_matches(requirement: &str, version: &str) -> (r: bool)
    requires
        semver_requirement(requirement@) is Some,
        is_semver_version(version@),
    ensures
        r == semver_matches(requirement@, version@),
{
    let version = semver::Version::parse(version).unwrap();
    semver::VersionReq::parse(requirement).unwrap().matches(&version)
}

/// Why a template cannot be expanded by this version of the generator.
#[derive(Debug)]
pub enum VersionError {
    /// What the template requires is not a requirement.
    InvalidRequirement { requirement: String },
    /// The version of the generator is not a version.
    InvalidVersion { version: String },
    /// The version does not meet the requirement.
    RequirementNotMet { required: String, was: String },
}

/// What follows from a comparison of a version with a requirement.
pub open spec fn is_verdict(
    r: Result<(), VersionError>,
    required: Seq<char>,
    version: Seq<char>,
    matches: bool,
) -> bool {
    if matches {
        r is Ok
    } else {
        r matches Err(VersionError::RequirementNotMet { required: text, was }) && text@ == required
            && was@ == version
    }
}

/// Decides on a version by whether it matches what is required.
pub fn version_verdict(required: String, version: String, matches: bool) -> (r: Result<
    (),
    VersionError,
>)
    ensures
        is_verdict(r, required@, version@, matches),
{
    if matches {
        Ok(())
    } else {
        Err(VersionError::RequirementNotMet { required, was: version })
    }
}

/// The requirement on the version of the generator that a configuration makes.
pub open spec fn required_version(config: Config) -> Option<Seq<char>> {
    match config.template {
        Some(template) => template.cargo_generate_version.deep_view(),
        None => None,
    }
}

/// What a configuration requires of the version is a requirement, if it requires anything.
pub open spec fn is_readable(config: Config) -> bool {
    required_version(config) matches Some(requirement) ==> semver_requirement(requirement) is Some
}

/// Tells whether what a configuration requires of the version can be read. A configuration in
/// which it cannot counts as one that cannot be read at all.
pub fn has_readable_requirement(config: &Config) -> (r: bool)
    ensures
        r == is_readable(*config),
{
    match &config.template {
        Some(template) => match &template.cargo_generate_version {
            Some(requirement) => parse_requirement(requirement.as_str()).is_ok(),
            None => true,
        },
        None => true,
    }
}

/// What a check of a version against a configuration finds: a template that makes no
/// requirement can be expanded by any version.
pub open spec fn is_check(
    r: Result<(), VersionError>,
    config: Config,
    version: Seq<char>,
) -> bool {
    match required_version(config) {
        None => r is Ok,
        Some(requirement) => match semver_requirement(requirement) {
            None => r matches Err(VersionError::InvalidRequirement { requirement: text }) && text@
                == requirement,
            Some(required) => if is_semver_version(version) {
                is_verdict(r, required, version, semver_matches(requirement, version))
            } else {
                r matches Err(VersionError::InvalidVersion { version: text }) && text@ == version
            },
        },
    }
}

/// Checks that the generator with this version can expand the template.
pub fn check_cargo_generate_version(config: &Config, version: &str) -> (r: Result<
    (),
    VersionError,
>)
    ensures
        is_check(r, *config, version@),
{
    let requirement: &String = match &config.template {
        Some(template) => match &template.cargo_generate_version {
            Some(requirement) => requirement,
            None => {
                return Ok(());
            },
        },
        None => {
            return Ok(());
        },
    };
    let required: String = match parse_requirement(requirement.as_str()) {
        Ok(required) => required,
        Err(_) => {
            return Err(VersionError::InvalidRequirement { requirement: requirement.clone() });
        },
    };
    let was: String = match parse_version(version) {
        Ok(was) => was,
        Err(_) => {
            return Err(VersionError::InvalidVersion { version: version.to_owned() });
        },
    };
    let matches: bool = requirement_matches(requirement.as_str(), was.as_str());
    version_verdict(required, was, matches)
}

/// What a configuration requires is what its template requires, if it has settings for the
/// template and they require something.
pub proof fn law_what_a_configuration_requires(config: Config)
    ensures
        config.template is None ==> required_version(config) is None,
        config.template matches Some(template) ==> {
            &&& template.cargo_generate_version is None ==> required_version(config) is None
            &&& template.cargo_generate_version matches Some(text) ==> required_version(config)
                == Some(text@)
        },
{
}

/// A check succeeds where nothing is required, and where the version matches what is. Where the
/// two do not match, it tells both; where one of them cannot be read, it tells that one.
pub proof fn law_what_a_check_finds(
    config: Config,
    requirement: String,
    version: Seq<char>,
    r: Result<(), VersionError>,
)
    ensures
        is_check(r, config, version) ==> {
            &&& config.template is None ==> r is Ok
            &&& config.template is Some && config.template->0.cargo_generate_version is None
                ==> r is Ok
            &&& config.template is Some && config.template->0.cargo_generate_version == Some(
                requirement,
            ) ==> {
                let read = semver_requirement(requirement@);
                &&& r is Ok <==> read is Some && is_semver_version(version) && semver_matches(
                    requirement@,
                    version,
                )
                &&& read is None ==> (r matches Err(
                    VersionError::InvalidRequirement { requirement: text },
                ) && text@ == requirement@)
                &&& read is Some && !is_semver_version(version) ==> (r matches Err(
                    VersionError::InvalidVersion { version: text },
                ) && text@ == version)
                &&& read is Some && is_semver_version(version) && !semver_matches(
                    requirement@,
                    version,
                ) ==> (r matches Err(VersionError::RequirementNotMet { required, was })
                    && required@ == read->0 && was@ == version)
            }
        },
        is_readable(config) <==> (config.template is Some
            && config.template->0.cargo_generate_version is Some ==> semver_requirement(
            config.template->0.cargo_generate_version->0@,
        ) is Some),
{
}

/// A version that matches passes, and one that does not is reported with what is required.
pub proof fn law_what_a_comparison_means(
    r: Result<(), VersionError>,
    required: Seq<char>,
    version: Seq<char>,
    matches: bool,
)
    ensures
        is_verdict(r, required, version, matches) ==> {
            &&& matches <==> r is Ok
            &&& !matches ==> r->Err_0 is RequirementNotMet && r->Err_0->required@ == required
                && r->Err_0->was@ == version
        },
{
}

} // verus!
