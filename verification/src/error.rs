//! The configuration errors: what stops a scan before any dependency is
//! looked up.

use vstd::prelude::*;

verus! {

/// A precondition of a scan that the configuration does not meet.
#[derive(Debug, Clone, Copy, PartialEq, Eq, Structural)]
pub enum ConfigError {
    /// The compatibility matrix is not JSON.
    MalformedMatrix,
    /// The manifest could not be read as the ecosystem's manifest format.
    MalformedManifest,
    /// The manifest has no project table.
    MissingProject,
    /// The project table lists no dependencies.
    MissingDependencies,
}

impl ConfigError {
    /// The text of the message that names the error.
    pub open spec fn message_text(self) -> Seq<char> {
        match self {
            ConfigError::MalformedMatrix => "Could not parse the compatibility matrix"@,
            ConfigError::MalformedManifest => "Could not parse pyproject.toml, check if it's correct or not"@,
            ConfigError::MissingProject => "No project field found in pyproject.toml"@,
            ConfigError::MissingDependencies => "No dependencies found in pyproject.toml"@,
        }
    }

    /// The message to show the user.
    pub fn message(&self) -> (text: &'static str)
        ensures
            text@ == self.message_text(),
    {
        match self {
            ConfigError::MalformedMatrix => "Could not parse the compatibility matrix",
            ConfigError::MalformedManifest => "Could not parse pyproject.toml, check if it's correct or not",
            ConfigError::MissingProject => "No project field found in pyproject.toml",
            ConfigError::MissingDependencies => "No dependencies found in pyproject.toml",
        }
    }
}

} // verus!
