//! What an ecosystem has to offer for its projects to be scanned.

use vstd::prelude::*;

use crate::error::ConfigError;
use crate::license::{PackageLicense, SPDXLicense};

verus! {

/// The names as texts.
pub open spec fn texts_of(names: Seq<String>) -> Seq<Seq<char>> {
    names.map_values(|name: String| name@)
}

/// A list of names, or the reason why there is none, with each name as a text.
pub open spec fn name_texts(names: Result<Vec<String>, ConfigError>) -> Result<
    Seq<Seq<char>>,
    ConfigError,
> {
    match names {
        Ok(names) => Ok(texts_of(names@)),
        Err(e) => Err(e),
    }
}

/// The capability of one ecosystem: to list what a project depends on, to say
/// where the registry describes a package, and to find the license in what
/// the registry answered.
///
/// The request itself is not made here. Whoever runs a scan fetches the
/// document at `metadata_url` and hands over what it parsed to, or `None`
/// where the fetch or the parse failed.
pub trait LanguageExtractor {
    /// What the registry's answer holds, once parsed.
    type Metadata;

    /// The address of the registry's document on a package.
    spec fn url_of(&self, package_name: Seq<char>) -> Seq<char>;

    /// The license that the metadata of a package names, if the engine
    /// recognises it.
    spec fn license_in(&self, metadata: Self::Metadata) -> Option<SPDXLicense>;

    /// The address to fetch the metadata of a package from.
    fn metadata_url(&self, package_name: &str) -> (url: String)
        ensures
            url@ == self.url_of(package_name@),
    ;

    /// The record of one dependency. A dependency whose metadata could not be
    /// had is recorded without a license; so is one whose metadata names none
    /// that is recognised.
    fn get_license(&self, package_name: String, metadata: Option<Self::Metadata>) -> (record:
        PackageLicense)
        ensures
            record.name == package_name,
            record.license == match metadata {
                Some(metadata) => self.license_in(metadata),
                None => None,
            },
    ;

    /// What a manifest declares: the names of its dependencies, in its order,
    /// or the reason why it gives none.
    spec fn declared_in(&self, manifest: Seq<char>) -> Result<Seq<Seq<char>>, ConfigError>;

    /// The names of the dependencies that a manifest declares, in its order,
    /// or the reason why the manifest gives none.
    fn get_dependencies(&self, manifest: &str) -> (names: Result<Vec<String>, ConfigError>)
        ensures
            name_texts(names) == self.declared_in(manifest@),
            names matches Err(e) ==> e != ConfigError::MalformedMatrix,
    ;
}

} // verus!
