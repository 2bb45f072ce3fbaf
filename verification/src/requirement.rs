//! Requirement records, named and unnamed, and the errors of naming one.

use vstd::prelude::*;
use crate::filename::fault_message;
use crate::filename::WheelFault;
use crate::locator::Locator;
use crate::name::PackageName;
use crate::text::join;

verus! {

/// A requirement given only by where its source lies. The extras and the
/// marker are carried along and never interpreted.
#[derive(Debug)]
pub struct UnnamedRequirement {
    pub url: Locator,
    pub extras: Vec<String>,
    pub marker: Option<String>,
}

/// What a requirement is pinned to: a range of versions, or a literal locator.
#[derive(Debug)]
pub enum VersionOrUrl {
    VersionSpecifier(String),
    Url(Locator),
}

/// A requirement that carries its package name.
#[derive(Debug)]
pub struct Requirement {
    pub name: PackageName,
    pub extras: Vec<String>,
    pub version_or_url: Option<VersionOrUrl>,
    pub marker: Option<String>,
}

/// One line of a requirements list.
#[derive(Debug)]
pub enum RequirementsTxtRequirement {
    Pep508(Requirement),
    Unnamed(UnnamedRequirement),
}

/// Why no name could be attached to a requirement.
#[derive(Debug, PartialEq, Eq)]
pub enum ResolveError {
    /// The file name ends like a wheel's but is no wheel file name; holds
    /// what is wrong with it.
    MalformedFilename(WheelFault),
    /// The locator's scheme is not one that a source can be fetched by; holds
    /// the locator as it was written.
    UnsupportedScheme(String),
    /// Building the source distribution failed; holds the cause.
    Build(String),
}

/// What an error says to the user.
pub open spec fn message_of(error: ResolveError) -> Seq<char> {
    match error {
        ResolveError::MalformedFilename(fault) => fault_message(fault),
        ResolveError::UnsupportedScheme(given) => "Unsupported scheme for unnamed requirement: "@
            + given@,
        ResolveError::Build(_) => "Failed to build source distribution"@,
    }
}

impl ResolveError {
    /// The message of the error: what is wrong with a file name,
    /// the unsupported locator as it was written, or that the build failed.
    pub fn message(&self) -> (r: String)
        ensures
            r@ == message_of(*self),
    {
        match self {
            ResolveError::MalformedFilename(fault) => fault.message(),
            ResolveError::UnsupportedScheme(given) => join(
                "Unsupported scheme for unnamed requirement: ",
                given.as_str(),
            ),
            ResolveError::Build(_) => "Failed to build source distribution".to_owned(),
        }
    }

    /// What made the build fail, for a build error.
    pub fn cause(&self) -> (r: Option<&String>)
        ensures
            r == (match *self {
                ResolveError::Build(cause) => Some(&cause),
                _ => None,
            }),
    {
        match self {
            ResolveError::Build(cause) => Some(cause),
            _ => None,
        }
    }
}

impl UnnamedRequirement {
    /// Attaches `name`: extras and marker are copied over, and the
    /// requirement is pinned to the literal locator.
    pub fn named(self, name: PackageName) -> (r: Requirement)
        ensures
            r.name == name,
            r.extras == self.extras,
            r.marker == self.marker,
            r.version_or_url == Some(VersionOrUrl::Url(self.url)),
    {
        Requirement {
            name,
            extras: self.extras,
            version_or_url: Some(VersionOrUrl::Url(self.url)),
            marker: self.marker,
        }
    }
}

impl RequirementsTxtRequirement {
    /// Whether the record still lacks a name.
    pub fn is_unnamed(&self) -> (r: bool)
        ensures
            r == (self is Unnamed),
    {
        match self {
            RequirementsTxtRequirement::Pep508(_) => false,
            RequirementsTxtRequirement::Unnamed(_) => true,
        }
    }
}

} // verus!
