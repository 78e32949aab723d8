//! The host protocol's edges: command-line dispatch and the host version
//! compatibility check, through `semver`.
use vstd::prelude::*;

use crate::json::str_eq;

verus! {

/// What a command-line invocation asks for.
#[derive(PartialEq, Eq, Structural, Clone, Copy, Debug)]
pub enum CliAction {
    /// Print the program's version and exit successfully.
    PrintVersion,
    /// Declare renderer support and exit successfully, whatever the
    /// renderer: support is claimed for all of them.
    DeclareSupport,
    /// The default run: read the request, transform, write the response.
    Run,
}

/// The action a command line maps to: only the first argument after the
/// program name decides.
pub fn cli_action(args: &Vec<String>) -> (r: CliAction)
    ensures
        r == (if args@.len() >= 2 && (args@[1]@ == "--version"@ || args@[1]@ == "-V"@) {
            CliAction::PrintVersion
        } else if args@.len() >= 2 && args@[1]@ == "supports"@ {
            CliAction::DeclareSupport
        } else {
            CliAction::Run
        }),
{
    if args.len() >= 2 {
        let first = &args[1];
        if str_eq(first.as_str(), "--version") || str_eq(first.as_str(), "-V") {
            CliAction::PrintVersion
        } else if str_eq(first.as_str(), "supports") {
            CliAction::DeclareSupport
        } else {
            CliAction::Run
        }
    } else {
        CliAction::Run
    }
}

/// What `semver` says of a host version string held against a requirement
/// string: `None` when one of the two does not parse, otherwise whether the
/// version satisfies the requirement. Parsing and matching depend on the
/// two strings alone.
pub uninterp spec fn semver_outcome_of(host: Seq<char>, req: Seq<char>) -> Option<bool>;

/// Relies on `semver::VersionReq::parse`, `semver::Version::parse` and
/// `VersionReq::matches`: all three are pure functions of their arguments,
/// none panics, so the combined outcome is a function of the two strings.
#[verifier::external_body]
fn semver_outcome(host_version: &str, requirement: &str) -> (r: Option<bool>)
    ensures
        r == semver_outcome_of(host_version@, requirement@),
{
    match (semver::VersionReq::parse(requirement), semver::Version::parse(host_version)) {
        (Ok(req), Ok(v)) => Some(req.matches(&v)),
        _ => None,
    }
}

/// The outcome of holding the host's version against the requirement this
/// library was built for.
#[derive(PartialEq, Eq, Structural, Clone, Copy, Debug)]
pub enum HostVersionCheck {
    /// Both strings parsed and the version satisfies the requirement.
    Compatible,
    /// Both strings parsed but the version misses the requirement: the
    /// caller warns and goes on.
    Incompatible,
    /// One of the strings is no version at all: the caller aborts.
    Invalid,
}

impl HostVersionCheck {
    /// Only an unparseable version string aborts the run; a mere mismatch
    /// is downgraded to a warning.
    pub fn is_fatal(&self) -> (r: bool)
        ensures
            r == (*self == HostVersionCheck::Invalid),
    {
        match self {
            HostVersionCheck::Invalid => true,
            _ => false,
        }
    }
}

/// The verdict for each outcome `semver` can hand back: `None` when one of
/// the two strings did not parse, otherwise whether the version satisfied
/// the requirement.
pub fn classify_host_version(outcome: Option<bool>) -> (r: HostVersionCheck)
    ensures
        r == (match outcome {
            Option::None => HostVersionCheck::Invalid,
            Option::Some(true) => HostVersionCheck::Compatible,
            Option::Some(false) => HostVersionCheck::Incompatible,
        }),
{
    match outcome {
        None => HostVersionCheck::Invalid,
        Some(true) => HostVersionCheck::Compatible,
        Some(false) => HostVersionCheck::Incompatible,
    }
}

/// Parse the host's version and this library's requirement, and test one
/// against the other: the verdict is exactly the classification of what
/// `semver` says of the two strings.
pub fn check_host_version(host_version: &str, requirement: &str) -> (r: HostVersionCheck)
    ensures
        r == (match semver_outcome_of(host_version@, requirement@) {
            Option::None => HostVersionCheck::Invalid,
            Option::Some(true) => HostVersionCheck::Compatible,
            Option::Some(false) => HostVersionCheck::Incompatible,
        }),
{
    let outcome = semver_outcome(host_version, requirement);
    classify_host_version(outcome)
}

} // verus!
