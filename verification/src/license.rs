//! The record kept for each dependency, and the lookup of two licenses in a
//! compatibility matrix.

use vstd::prelude::*;
use vstd::string::StringExecFns;

use crate::error::ConfigError;
pub use crate::spdx::SPDXLicense;
use crate::text::same_text;

verus! {

/// What is known of one dependency: its name, and its license where the
/// available metadata named one that the engine recognises.
#[derive(Debug)]
pub struct PackageLicense {
    pub name: String,
    pub license: Option<SPDXLicense>,
}

impl Clone for PackageLicense {
    fn clone(&self) -> (copy: Self)
        ensures
            copy == *self,
    {
        PackageLicense { name: self.name.clone(), license: self.license }
    }
}

/// `serde_json::Value`, which holds a compatibility matrix. Its inside is not
/// visible to the verifier; `matrix_cells` names what the engine reads of it.
#[verifier::external_type_specification]
#[verifier::external_body]
pub struct ExJsonValue(serde_json::Value);

/// `serde_json::Error`, the reason a text was not accepted as JSON.
#[verifier::external_type_specification]
#[verifier::external_body]
pub struct ExJsonError(serde_json::Error);

/// The string cells of a matrix: `(a, b)` is a key, with value `v`, exactly when
/// the JSON value is an object whose member `a` is an object whose member `b`
/// is the string `v`.
pub uninterp spec fn matrix_cells(matrix: serde_json::Value) -> Map<(Seq<char>, Seq<char>), Seq<char>>;

/// The cell at `(row, column)`, by `serde_json::Value::get` on the matrix and
/// on the row it yields, then `serde_json::Value::as_str` on the cell. `get`
/// answers `None` for a value that is no object and for a key that the object
/// lacks, `as_str` for a value that is no string: the contract says that a
/// cell comes back exactly where `matrix_cells` has the key, and which.
#[verifier::external_body]
fn matrix_entry<'a>(matrix: &'a serde_json::Value, row: &str, column: &str) -> (cell: Option<&'a str>)
    ensures
        cell is Some <==> matrix_cells(*matrix).contains_key((row@, column@)),
        cell matches Some(verdict) ==> verdict@ == matrix_cells(*matrix)[(row@, column@)],
{
    matrix.get(row).and_then(|cells| cells.get(column)).and_then(|cell| cell.as_str())
}

/// What the matrix parsed from a JSON text holds, as `matrix_cells` gives it;
/// `None` for a text that the parser refuses.
pub uninterp spec fn json_cells(text: Seq<char>) -> Option<Map<(Seq<char>, Seq<char>), Seq<char>>>;

/// `serde_json::from_str` for a `serde_json::Value`: the value parsed from the
/// text, or the parser's error. The parse depends on the text alone, so the
/// contract names its outcome: `json_cells`.
#[verifier::external_body]
fn parse_json(text: &str) -> (parsed: Result<serde_json::Value, serde_json::Error>)
    ensures
        match parsed {
            Ok(matrix) => json_cells(text@) == Some(matrix_cells(matrix)),
            Err(_) => json_cells(text@) is None,
        },
{
    serde_json::from_str(text)
}

/// Reads a compatibility matrix from its JSON text, shaped as an object of
/// objects of verdict strings. Any JSON that parses is accepted: what is not
/// shaped so holds no cells.
pub fn load_matrix(text: &str) -> (loaded: Result<serde_json::Value, ConfigError>)
    ensures
        match loaded {
            Ok(matrix) => json_cells(text@) == Some(matrix_cells(matrix)),
            Err(e) => json_cells(text@) is None && e == ConfigError::MalformedMatrix,
        },
{
    match parse_json(text) {
        Ok(matrix) => Ok(matrix),
        Err(_) => Err(ConfigError::MalformedMatrix),
    }
}

/// Whether a cell's text is one of the two verdicts that allow a combination.
pub open spec fn verdict_allows(verdict: Seq<char>) -> bool {
    verdict == "Yes"@ || verdict == "Same"@
}

/// Whether the cells allow combining `license_a` with `license_b`: both are
/// known, the cell at (`license_a`, `license_b`) exists, and it allows it. The
/// order matters: nothing is assumed of the cell at (`license_b`, `license_a`).
pub open spec fn compatible_in(
    license_a: Option<SPDXLicense>,
    license_b: Option<SPDXLicense>,
    cells: Map<(Seq<char>, Seq<char>), Seq<char>>,
) -> bool {
    match (license_a, license_b) {
        (Some(a), Some(b)) => {
            &&& cells.contains_key((a.canonical(), b.canonical()))
            &&& verdict_allows(cells[(a.canonical(), b.canonical())])
        },
        _ => false,
    }
}

/// What the cells hold for the two licenses, the first taken as the source:
/// the text of the cell, or `None` where there is no such cell.
pub open spec fn cell_at(
    cells: Map<(Seq<char>, Seq<char>), Seq<char>>,
    license_a: SPDXLicense,
    license_b: SPDXLicense,
) -> Option<Seq<char>> {
    if cells.contains_key((license_a.canonical(), license_b.canonical())) {
        Some(cells[(license_a.canonical(), license_b.canonical())])
    } else {
        None
    }
}

/// The text of a cell, where there is a cell.
pub open spec fn cell_text(cell: Option<&str>) -> Option<Seq<char>> {
    match cell {
        Some(text) => Some(text@),
        None => None,
    }
}

/// How a matrix answers for two licenses.
#[derive(Debug, PartialEq, Eq)]
pub enum Verdict {
    /// The cell allows the combination.
    Compatible,
    /// One of the two licenses is not known; the matrix was not consulted.
    MissingLicense,
    /// The cell holds the given text, which is neither of the allowing verdicts.
    UnexpectedValue(String),
    /// The matrix has no cell for the two licenses, in this order.
    EntryNotFound(SPDXLicense, SPDXLicense),
}

impl Verdict {
    /// Whether this is the verdict on the two licenses, given what the matrix
    /// holds in their cell: its text, or `None` where it has no such cell.
    pub open spec fn reads(
        self,
        license_a: Option<SPDXLicense>,
        license_b: Option<SPDXLicense>,
        cell: Option<Seq<char>>,
    ) -> bool {
        match (license_a, license_b) {
            (Some(a), Some(b)) => match cell {
                None => self == Verdict::EntryNotFound(a, b),
                Some(text) => if verdict_allows(text) {
                    self is Compatible
                } else {
                    self matches Verdict::UnexpectedValue(value) && value@ == text
                },
            },
            _ => self is MissingLicense,
        }
    }

    /// Whether this is the verdict that the cells give for the two licenses.
    pub open spec fn answers(
        self,
        license_a: Option<SPDXLicense>,
        license_b: Option<SPDXLicense>,
        cells: Map<(Seq<char>, Seq<char>), Seq<char>>,
    ) -> bool {
        match (license_a, license_b) {
            (Some(a), Some(b)) => self.reads(license_a, license_b, cell_at(cells, a, b)),
            _ => self is MissingLicense,
        }
    }

    /// The text of the diagnostic that goes with the verdict, if it has one.
    pub open spec fn diagnostic_text(self) -> Option<Seq<char>> {
        match self {
            Verdict::Compatible => None,
            Verdict::MissingLicense => None,
            Verdict::UnexpectedValue(value) => Some("Unexpected value in matrix: "@ + value@),
            Verdict::EntryNotFound(a, b) => Some(
                "Entry not found in matrix for "@ + a.canonical() + " and "@ + b.canonical(),
            ),
        }
    }

    /// Whether the verdict allows the combination. Every other verdict forbids it.
    pub fn is_compatible(&self) -> (compatible: bool)
        ensures
            compatible == (self is Compatible),
    {
        match self {
            Verdict::Compatible => true,
            _ => false,
        }
    }

    /// The diagnostic to emit for a matrix anomaly: a cell with an unexpected
    /// text, or a missing cell.
    pub fn diagnostic(&self) -> (message: Option<String>)
        ensures
            message is Some <==> self.diagnostic_text() is Some,
            message matches Some(m) ==> m@ == self.diagnostic_text()->0,
    {
        match self {
            Verdict::Compatible => None,
            Verdict::MissingLicense => None,
            Verdict::UnexpectedValue(value) => {
                let message = "Unexpected value in matrix: ".to_owned().concat(value.as_str());
                Some(message)
            },
            Verdict::EntryNotFound(a, b) => {
                let message = "Entry not found in matrix for ".to_owned().concat(a.as_str()).concat(
                    " and ",
                ).concat(b.as_str());
                Some(message)
            },
        }
    }
}

/// The verdict on the two licenses, from what the matrix holds in their
/// cell. Where a license is unknown the cell is not looked at.
pub fn cell_verdict(
    license_a: &Option<SPDXLicense>,
    license_b: &Option<SPDXLicense>,
    cell: Option<&str>,
) -> (verdict: Verdict)
    ensures
        verdict.reads(*license_a, *license_b, cell_text(cell)),
        forall|cells: Map<(Seq<char>, Seq<char>), Seq<char>>|
            (*license_a matches Some(a) && *license_b matches Some(b) ==> cell_at(cells, a, b)
                == cell_text(cell)) ==> #[trigger] verdict.answers(*license_a, *license_b, cells),
{
    let (a, b) = match (license_a, license_b) {
        (Some(a), Some(b)) => (*a, *b),
        _ => { return Verdict::MissingLicense; },
    };
    match cell {
        None => Verdict::EntryNotFound(a, b),
        Some(value) => {
            if same_text(value, "Yes") || same_text(value, "Same") {
                Verdict::Compatible
            } else {
                Verdict::UnexpectedValue(value.to_owned())
            }
        },
    }
}

/// Looks the two licenses up in the matrix and says how it answers.
pub fn matrix_verdict(
    license_a: &Option<SPDXLicense>,
    license_b: &Option<SPDXLicense>,
    matrix: &serde_json::Value,
) -> (verdict: Verdict)
    ensures
        verdict.answers(*license_a, *license_b, matrix_cells(*matrix)),
        verdict is Compatible <==> compatible_in(*license_a, *license_b, matrix_cells(*matrix)),
{
    match (license_a, license_b) {
        (Some(a), Some(b)) => {
            let cell = matrix_entry(matrix, a.as_str(), b.as_str());
            cell_verdict(license_a, license_b, cell)
        },
        _ => cell_verdict(license_a, license_b, None),
    }
}

/// Whether the matrix allows combining `license_a` with `license_b`. An
/// unknown license, a missing cell and a cell with any text but "Yes" or
/// "Same" all give `false`.
pub fn is_compatibile(
    license_a: &Option<SPDXLicense>,
    license_b: &Option<SPDXLicense>,
    matrix: &serde_json::Value,
) -> (compatible: bool)
    ensures
        compatible == compatible_in(*license_a, *license_b, matrix_cells(*matrix)),
        license_a is None || license_b is None ==> !compatible,
{
    matrix_verdict(license_a, license_b, matrix).is_compatible()
}

/// A pair with an unknown license on either side is never compatible,
/// whatever the matrix holds.
pub proof fn lemma_unknown_license_is_incompatible(
    other: Option<SPDXLicense>,
    cells: Map<(Seq<char>, Seq<char>), Seq<char>>,
)
    ensures
        !compatible_in(None, other, cells),
        !compatible_in(other, None, cells),
{
}

/// A license is compatible with itself exactly when the matrix says so in the
/// cell on its diagonal; it is where that cell holds "Same".
pub proof fn lemma_self_compatibility_is_the_diagonal(
    license: SPDXLicense,
    cells: Map<(Seq<char>, Seq<char>), Seq<char>>,
)
    ensures
        compatible_in(Some(license), Some(license), cells) <==> {
            &&& cells.contains_key((license.canonical(), license.canonical()))
            &&& verdict_allows(cells[(license.canonical(), license.canonical())])
        },
        cells.contains_key((license.canonical(), license.canonical())) && cells[(
            license.canonical(),
            license.canonical(),
        )] == "Same"@ ==> compatible_in(Some(license), Some(license), cells),
{
}

} // verus!
