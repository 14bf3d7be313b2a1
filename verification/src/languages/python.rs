//! Python projects: `pyproject.toml` as the manifest, PyPI as the registry.

use pyproject_toml::PyProjectToml;
use vstd::prelude::*;
use vstd::string::StringExecFns;

use crate::classifier::{classifier_name, license_name};
use crate::error::ConfigError;
use crate::languages::common::{name_texts, texts_of, LanguageExtractor};
use crate::languages::requirement::{nesting_within, nests_within_limit, MARKER_NESTING_LIMIT};
use crate::license::{PackageLicense, SPDXLicense};

verus! {

/// The extractor for Python projects.
#[derive(Clone, Copy, Debug)]
pub struct Python {}

/// What PyPI answers on a package, as far as the engine reads it.
#[derive(Debug)]
pub struct PyPi {
    pub info: PyPiInfo,
}

/// The `info` object of PyPI's answer: the license field, which may be
/// absent, and the classifiers.
#[derive(Debug)]
pub struct PyPiInfo {
    pub classifiers: Vec<String>,
    pub license: Option<String>,
}

/// Whether the classifier at `index` is the first of the list that names a
/// license.
pub open spec fn first_license_classifier(classifiers: Seq<String>, index: int) -> bool {
    &&& 0 <= index < classifiers.len()
    &&& classifier_name(classifiers[index]@) is Some
    &&& forall|earlier: int| 0 <= earlier < index ==> classifier_name(classifiers[earlier]@) is None
}

impl PyPi {
    /// The license that the metadata names.
    ///
    /// Where the license field is present it alone decides, and it is
    /// normalised as a free-form text. Where it is absent, the first classifier
    /// that names a license decides, by the name it carries; later classifiers
    /// are not consulted.
    pub open spec fn named_license(self) -> Option<SPDXLicense> {
        match self.info.license {
            Some(text) => SPDXLicense::normalized(text@),
            None => {
                if exists|index: int| first_license_classifier(self.info.classifiers@, index) {
                    let index = choose|index: int|
                        first_license_classifier(self.info.classifiers@, index);
                    SPDXLicense::of_alias(classifier_name(self.info.classifiers@[index]@)->0)
                } else {
                    None
                }
            },
        }
    }

    /// The license that the metadata names, if the engine recognises it.
    pub fn license(&self) -> (license: Option<SPDXLicense>)
        ensures
            license == self.named_license(),
    {
        match &self.info.license {
            Some(text) => SPDXLicense::normalize(text.as_str()),
            None => {
                let classifiers = &self.info.classifiers;
                let mut index: usize = 0;
                while index < classifiers.len()
                    invariant
                        index <= classifiers.len(),
                        self.info.license is None,
                        classifiers@ == self.info.classifiers@,
                        forall|earlier: int|
                            0 <= earlier < index ==> classifier_name(classifiers@[earlier]@) is None,
                    decreases classifiers.len() - index,
                {
                    match license_name(classifiers[index].as_str()) {
                        Some(name) => {
                            proof {
                                let found = index as int;
                                assert(first_license_classifier(classifiers@, found));
                                let chosen = choose|i: int|
                                    first_license_classifier(classifiers@, i);
                                assert(chosen == found);
                            }
                            return SPDXLicense::from_alias(name);
                        },
                        None => {},
                    }
                    index += 1;
                }
                None
            },
        }
    }
}

/// `toml::de::Error`, the reason a text was not accepted as a manifest.
#[verifier::external_type_specification]
#[verifier::external_body]
pub struct ExTomlError(toml::de::Error);

/// The project table of a manifest, as far as the engine reads it: the names
/// of the declared dependencies, where the table has the list.
#[derive(Debug)]
pub struct ProjectTable {
    pub dependencies: Option<Vec<String>>,
}

/// A parsed manifest, as far as the engine reads it.
#[derive(Debug)]
pub struct Manifest {
    pub project: Option<ProjectTable>,
}

/// The place of `requires` among the fields of the build system, where a
/// manifest gives the fields as an array, in their order, in place of a table.
pub const REQUIRES_PLACE: usize = 0;

/// The place of `dependencies` among the fields of the project.
pub const DEPENDENCIES_PLACE: usize = 15;

/// The place of `optional-dependencies` among the fields of the project.
pub const OPTIONAL_DEPENDENCIES_PLACE: usize = 16;

/// The items of a list as texts: `None` for an item that is no string.
pub open spec fn item_texts(items: Seq<Option<String>>) -> Seq<Option<Seq<char>>> {
    items.map_values(
        |item: Option<String>|
            match item {
                Some(text) => Some(text@),
                None => None,
            },
    )
}

/// A list as the texts of its items, where there is a list.
pub open spec fn list_texts(list: Option<Vec<Option<String>>>) -> Option<Seq<Option<Seq<char>>>> {
    match list {
        Some(items) => Some(item_texts(items@)),
        None => None,
    }
}

/// Lists as the texts of their items: `None` for what is no list.
pub open spec fn lists_texts(lists: Option<Vec<Option<Vec<Option<String>>>>>) -> Option<
    Seq<Option<Seq<Option<Seq<char>>>>>,
> {
    match lists {
        Some(all) => Some(all@.map_values(|list: Option<Vec<Option<String>>>| list_texts(list))),
        None => None,
    }
}

/// The list that a section of the manifest holds in one of its fields: the
/// array that stands under `key` where the member `section` of the document
/// is a table, or at `place` where that member is an array. Each item is given
/// as its text where it is a string and as `None` where it is not. `None`
/// where the text is no document, or the document has no such array.
pub uninterp spec fn manifest_list(
    text: Seq<char>,
    section: Seq<char>,
    key: Seq<char>,
    place: int,
) -> Option<Seq<Option<Seq<char>>>>;

/// The lists that a section of the manifest holds in a field that is a table:
/// the members of the table that stands under `key`, or at `place`, in the
/// member `section` of the document. Each member that is an array is given
/// as `manifest_list` gives one, each other member as `None`. `None` where
/// the text is no document, or the document has no such table.
pub uninterp spec fn manifest_lists(
    text: Seq<char>,
    section: Seq<char>,
    key: Seq<char>,
    place: int,
) -> Option<Seq<Option<Seq<Option<Seq<char>>>>>>;

/// `toml::from_str` for a `toml::Value`, then `toml::Value::get` for the
/// section and in it for the key or else for the place, `Value::as_array` on
/// what is found, and `Value::as_str` on each item. `get` with a key answers
/// for a table only and with a place for an array only. All of it depends on
/// the arguments alone, so the contract names the outcome: `manifest_list`.
#[verifier::external_body]
fn list_of(text: &str, section: &str, key: &str, place: usize) -> (list: Option<Vec<Option<String>>>)
    ensures
        list_texts(list) == manifest_list(text@, section@, key@, place as int),
{
    toml::from_str::<toml::Value>(text).ok().and_then(|document| {
        document.get(section).and_then(|found| found.get(key).or_else(|| found.get(place)))
            .and_then(|list| list.as_array())
            .map(|items| items.iter().map(|item| item.as_str().map(|text| text.to_string())).collect())
    })
}

/// As `list_of` up to what is found, then `Value::as_table` on it, and on
/// each of the table's values `Value::as_array` and `Value::as_str` on each
/// item. The contract names the outcome: `manifest_lists`.
#[verifier::external_body]
fn lists_of(text: &str, section: &str, key: &str, place: usize) -> (lists: Option<
    Vec<Option<Vec<Option<String>>>>,
>)
    ensures
        lists_texts(lists) == manifest_lists(text@, section@, key@, place as int),
{
    toml::from_str::<toml::Value>(text).ok().and_then(|document| {
        document.get(section).and_then(|found| found.get(key).or_else(|| found.get(place)))
            .and_then(|table| table.as_table())
            .map(|members| members.values().map(|member| member.as_array().map(|items|
                items.iter().map(|item| item.as_str().map(|text| text.to_string())).collect()))
                .collect())
    })
}

/// Whether every string of the list, taken as a requirement, nests within
/// the limit.
pub open spec fn list_nests(list: Option<Seq<Option<Seq<char>>>>) -> bool {
    list matches Some(items) ==> forall|at: int|
        0 <= at < items.len() ==> (#[trigger] items[at] matches Some(requirement) ==> nesting_within(
            requirement,
            MARKER_NESTING_LIMIT as nat,
        ))
}

/// Whether every string of every list nests within the limit.
pub open spec fn lists_nest(lists: Option<Seq<Option<Seq<Option<Seq<char>>>>>>) -> bool {
    lists matches Some(all) ==> forall|at: int| 0 <= at < all.len() ==> list_nests(#[trigger] all[at])
}

/// Whether every requirement of the manifest nests within the limit. The
/// requirements are the strings that the manifest lists as what the build
/// requires, as the project's dependencies, and under any name as its
/// optional dependencies. No other string is looked at.
pub open spec fn requirements_nest(text: Seq<char>) -> bool {
    &&& list_nests(manifest_list(text, "build-system"@, "requires"@, REQUIRES_PLACE as int))
    &&& list_nests(manifest_list(text, "project"@, "dependencies"@, DEPENDENCIES_PLACE as int))
    &&& lists_nest(
        manifest_lists(
            text,
            "project"@,
            "optional-dependencies"@,
            OPTIONAL_DEPENDENCIES_PLACE as int,
        ),
    )
}

/// Whether every string of the list, taken as a requirement, nests within
/// the limit.
pub fn list_nests_within_limit(list: &Option<Vec<Option<String>>>) -> (within: bool)
    ensures
        within == list_nests(list_texts(*list)),
{
    match list {
        None => true,
        Some(items) => {
            let mut at: usize = 0;
            while at < items.len()
                invariant
                    at <= items.len(),
                    *list == Some(*items),
                    forall|seen: int|
                        0 <= seen < at ==> (#[trigger] item_texts(items@)[seen] matches Some(
                            requirement,
                        ) ==> nesting_within(requirement, MARKER_NESTING_LIMIT as nat)),
                decreases items.len() - at,
            {
                match &items[at] {
                    Some(requirement) => {
                        if !nests_within_limit(requirement.as_str()) {
                            assert(item_texts(items@)[at as int] == Some(requirement@));
                            return false;
                        }
                    },
                    None => {},
                }
                at += 1;
            }
            true
        },
    }
}

/// Whether every requirement of the manifest nests within the limit.
pub fn requirements_nest_within_limit(manifest: &str) -> (within: bool)
    ensures
        within == requirements_nest(manifest@),
{
    let build = list_of(manifest, "build-system", "requires", REQUIRES_PLACE);
    if !list_nests_within_limit(&build) {
        return false;
    }
    let dependencies = list_of(manifest, "project", "dependencies", DEPENDENCIES_PLACE);
    if !list_nests_within_limit(&dependencies) {
        return false;
    }
    let optional = lists_of(
        manifest,
        "project",
        "optional-dependencies",
        OPTIONAL_DEPENDENCIES_PLACE,
    );
    match &optional {
        None => true,
        Some(all) => {
            let mut at: usize = 0;
            while at < all.len()
                invariant
                    at <= all.len(),
                    optional == Some(*all),
                    lists_texts(optional) == manifest_lists(
                        manifest@,
                        "project"@,
                        "optional-dependencies"@,
                        OPTIONAL_DEPENDENCIES_PLACE as int,
                    ),
                    list_nests(
                        manifest_list(
                            manifest@,
                            "build-system"@,
                            "requires"@,
                            REQUIRES_PLACE as int,
                        ),
                    ),
                    list_nests(
                        manifest_list(
                            manifest@,
                            "project"@,
                            "dependencies"@,
                            DEPENDENCIES_PLACE as int,
                        ),
                    ),
                    forall|seen: int|
                        0 <= seen < at ==> list_nests(#[trigger] lists_texts(optional)->0[seen]),
                decreases all.len() - at,
            {
                assert(lists_texts(optional)->0[at as int] == list_texts(all@[at as int]));
                if !list_nests_within_limit(&all[at]) {
                    return false;
                }
                at += 1;
            }
            true
        },
    }
}

/// What the manifest parsed from a text holds, as far as the engine reads it:
/// `None` for a text that the parser refuses, `Some(None)` for a manifest
/// without a project table, `Some(Some(None))` for a project table without a
/// list of dependencies, and else the names of the dependencies, in the order
/// of the list and as the manifest writes them.
pub uninterp spec fn manifest_outline(text: Seq<char>) -> Option<Option<Option<Seq<Seq<char>>>>>;

/// What a parse outcome holds, in the shape of `manifest_outline`.
pub open spec fn outline_of(parsed: Result<Manifest, toml::de::Error>) -> Option<
    Option<Option<Seq<Seq<char>>>>,
> {
    match parsed {
        Err(_) => None,
        Ok(manifest) => Some(
            match manifest.project {
                None => None,
                Some(project) => Some(
                    match project.dependencies {
                        None => None,
                        Some(names) => Some(texts_of(names@)),
                    },
                ),
            },
        ),
    }
}

/// `toml::from_str` for a `pyproject_toml::PyProjectToml`, and of what it
/// yields the project table's dependencies, each by its name.
///
/// The parse reads the text and nothing else, so the contract names its
/// outcome: `manifest_outline`. The whole manifest is checked, not the
/// dependencies alone: a fault in any table makes the parser refuse the text.
///
/// The parser of a requirement calls itself once for each parenthesis that
/// the requirement's marker has open, and nowhere else without a bound, so
/// it does not return for a marker that nests too deep: hence the `requires`.
/// The strings that it reads as requirements are those that
/// `requirements_nest` speaks of, each found by its key where the section is
/// a table and by its place where the section is an array of the fields.
/// While the parser is at work on one of them, `open_after` counts its
/// descents: before the marker nothing descends, a URL and a quoted value
/// are passed over, and what is neither is refused unless it is a
/// parenthesis, white space, a name or an operator.
#[verifier::external_body]
fn parse_pyproject(text: &str) -> (parsed: Result<Manifest, toml::de::Error>)
    requires
        requirements_nest(text@),
    ensures
        outline_of(parsed) == manifest_outline(text@),
{
    let parsed: PyProjectToml = toml::from_str(text)?;
    Ok(Manifest {
        project: parsed.project.map(|project| ProjectTable {
            dependencies: project.dependencies.map(|all|
                all.iter().map(|one| one.name.to_string()).collect()),
        }),
    })
}

/// What an outline gives for the list of dependencies: the names, or the
/// error that says what the manifest lacks.
pub open spec fn dependencies_outlined(outline: Option<Option<Option<Seq<Seq<char>>>>>) -> Result<
    Seq<Seq<char>>,
    ConfigError,
> {
    match outline {
        None => Err(ConfigError::MalformedManifest),
        Some(None) => Err(ConfigError::MissingProject),
        Some(Some(None)) => Err(ConfigError::MissingDependencies),
        Some(Some(Some(names))) => Ok(names),
    }
}

/// What a parse of the manifest gives for the list of dependencies.
pub open spec fn dependencies_in(parsed: Result<Manifest, toml::de::Error>) -> Result<
    Vec<String>,
    ConfigError,
> {
    match parsed {
        Err(_) => Err(ConfigError::MalformedManifest),
        Ok(manifest) => match manifest.project {
            None => Err(ConfigError::MissingProject),
            Some(project) => match project.dependencies {
                None => Err(ConfigError::MissingDependencies),
                Some(names) => Ok(names),
            },
        },
    }
}

/// The declared dependencies, from the outcome of parsing the manifest. A
/// manifest that did not parse, one without a project table and one whose
/// project table has no list of dependencies each give their own error; an
/// empty list is a list.
pub fn declared_dependencies(parsed: Result<Manifest, toml::de::Error>) -> (names: Result<
    Vec<String>,
    ConfigError,
>)
    ensures
        names == dependencies_in(parsed),
        name_texts(names) == dependencies_outlined(outline_of(parsed)),
{
    match parsed {
        Err(_) => Err(ConfigError::MalformedManifest),
        Ok(manifest) => match manifest.project {
            None => Err(ConfigError::MissingProject),
            Some(project) => match project.dependencies {
                None => Err(ConfigError::MissingDependencies),
                Some(names) => Ok(names),
            },
        },
    }
}

/// A manifest that is refused, one without a project table and one whose
/// project table has no list of dependencies each give their error, and
/// never a list in its place, not an empty one either. Every other manifest
/// gives the names that its list holds, unless one of its requirements nests
/// beyond the limit.
pub proof fn lemma_failure_is_never_a_list(manifest: Seq<char>)
    ensures
        (Python {}).declared_in(manifest) is Ok <==> {
            &&& requirements_nest(manifest)
            &&& manifest_outline(manifest) matches Some(Some(Some(_)))
        },
        (Python {}).declared_in(manifest) matches Ok(names) ==> manifest_outline(manifest) == Some(
            Some(Some(names)),
        ),
        requirements_nest(manifest) ==> ((Python {}).declared_in(manifest) matches Err(e) ==> {
            ||| e == ConfigError::MalformedManifest && manifest_outline(manifest) is None
            ||| e == ConfigError::MissingProject && manifest_outline(manifest) == Some(
                None::<Option<Seq<Seq<char>>>>,
            )
            ||| e == ConfigError::MissingDependencies && manifest_outline(manifest) == Some(
                Some(None::<Seq<Seq<char>>>),
            )
        }),
{
}

impl Python {
    /// The names of the dependencies that a manifest declares, in its order,
    /// for a manifest that declares them: one that is refused, has no project
    /// table or has no list of dependencies is no input of this function.
    pub fn listed_dependencies(&self, manifest: &str) -> (names: Vec<String>)
        requires
            self.declared_in(manifest@) is Ok,
        ensures
            Ok::<Seq<Seq<char>>, ConfigError>(texts_of(names@)) == self.declared_in(manifest@),
    {
        match declared_dependencies(parse_pyproject(manifest)) {
            Ok(names) => names,
            Err(_) => {
                proof {
                    assert(false);
                }
                Vec::new()
            },
        }
    }
}

impl LanguageExtractor for Python {
    type Metadata = PyPi;

    open spec fn url_of(&self, package_name: Seq<char>) -> Seq<char> {
        "https://pypi.org/pypi/"@ + package_name + "/json"@
    }

    open spec fn license_in(&self, metadata: PyPi) -> Option<SPDXLicense> {
        metadata.named_license()
    }

    /// A manifest with a requirement that nests beyond the limit counts as
    /// malformed and is not handed to the parser. Any other manifest gives
    /// what its parse holds.
    open spec fn declared_in(&self, manifest: Seq<char>) -> Result<Seq<Seq<char>>, ConfigError> {
        if requirements_nest(manifest) {
            dependencies_outlined(manifest_outline(manifest))
        } else {
            Err(ConfigError::MalformedManifest)
        }
    }

    fn metadata_url(&self, package_name: &str) -> (url: String) {
        "https://pypi.org/pypi/".to_owned().concat(package_name).concat("/json")
    }

    fn get_license(&self, package_name: String, metadata: Option<PyPi>) -> (record: PackageLicense) {
        let license = match metadata {
            Some(metadata) => metadata.license(),
            None => None,
        };
        PackageLicense { name: package_name, license }
    }

    fn get_dependencies(&self, manifest: &str) -> (names: Result<Vec<String>, ConfigError>) {
        if !requirements_nest_within_limit(manifest) {
            return Err(ConfigError::MalformedManifest);
        }
        match declared_dependencies(parse_pyproject(manifest)) {
            Ok(_) => Ok(self.listed_dependencies(manifest)),
            Err(e) => Err(e),
        }
    }
}

} // verus!
