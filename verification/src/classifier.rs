//! Classifier strings: the metadata tags of the form
//! `License :: OSI Approved :: <Name>` that name a license.

use regex::Regex;
use vstd::prelude::*;

verus! {

/// What stands before the license's name in a classifier that names one.
pub open spec fn license_prefix() -> Seq<char> {
    "License :: OSI Approved :: "@
}

/// Whether the text names a license from position `at` on: the prefix stands
/// there, and what follows it runs to the end of the text without a line feed.
pub open spec fn names_license_at(text: Seq<char>, at: int) -> bool {
    &&& 0 <= at
    &&& at + license_prefix().len() <= text.len()
    &&& text.subrange(at, at + license_prefix().len()) == license_prefix()
    &&& forall|k: int| at + license_prefix().len() <= k < text.len() ==> text[k] != '\n'
}

/// Whether `at` is the first position from which the text names a license.
pub open spec fn first_license_position(text: Seq<char>, at: int) -> bool {
    &&& names_license_at(text, at)
    &&& forall|earlier: int| names_license_at(text, earlier) ==> at <= earlier
}

/// The license name that a classifier-style text carries: what follows the
/// prefix at the first position from which the text names a license.
pub open spec fn classifier_name(text: Seq<char>) -> Option<Seq<char>> {
    if exists|at: int| names_license_at(text, at) {
        let at = choose|at: int| first_license_position(text, at);
        Some(text.skip(at + license_prefix().len()))
    } else {
        None
    }
}

/// `regex::Regex::captures` with the pattern `License :: OSI Approved :: (.*)$`,
/// and group 1 of what it finds. The pattern is fixed and valid, so
/// `Regex::new` succeeds, and group 1 takes part in every match. In the crate's
/// syntax `.` is any character but a line feed and `$` the end of the text; a
/// search reports the match that starts leftmost. So a match is found exactly
/// where the text names a license from some position, it starts at the first
/// such position, and group 1 is the rest of the text after the prefix.
#[verifier::external_body]
fn osi_approved_name<'a>(text: &'a str) -> (name: Option<&'a str>)
    ensures
        name is Some <==> exists|at: int| names_license_at(text@, at),
        name matches Some(n) ==> exists|at: int|
            first_license_position(text@, at) && n@ == text@.skip(at + license_prefix().len()),
{
    let pattern = Regex::new(r"License :: OSI Approved :: (.*)$").unwrap();
    pattern.captures(text).map(|found| found.get(1).unwrap().as_str())
}

/// The license name that a classifier-style text carries, if it carries one.
pub fn license_name<'a>(text: &'a str) -> (name: Option<&'a str>)
    ensures
        name is Some <==> classifier_name(text@) is Some,
        name matches Some(n) ==> classifier_name(text@) == Some(n@),
{
    let name = osi_approved_name(text);
    proof {
        if let Some(n) = name {
            let at = choose|at: int|
                first_license_position(text@, at) && n@ == text@.skip(at + license_prefix().len());
            lemma_classifier_name_at(text@, at);
        }
    }
    name
}

/// Where a text names a license from some position, there is a first such
/// position.
pub proof fn lemma_first_license_position_exists(text: Seq<char>, at: int)
    requires
        names_license_at(text, at),
    ensures
        exists|first: int| first_license_position(text, first),
    decreases at,
{
    if exists|earlier: int| earlier < at && names_license_at(text, earlier) {
        let earlier = choose|earlier: int| earlier < at && names_license_at(text, earlier);
        lemma_first_license_position_exists(text, earlier);
    } else {
        assert(first_license_position(text, at));
    }
}

/// The name that a text of classifier style carries is the end of the text.
pub proof fn lemma_classifier_name_ends_text(text: Seq<char>)
    requires
        classifier_name(text) is Some,
    ensures
        classifier_name(text)->0.len() <= text.len(),
        classifier_name(text)->0 == text.skip(text.len() - classifier_name(text)->0.len()),
{
    let at = choose|at: int| names_license_at(text, at);
    lemma_first_license_position_exists(text, at);
}

/// The first position from which a text names a license is unique, so the name
/// that the text carries is what follows the prefix there.
pub proof fn lemma_classifier_name_at(text: Seq<char>, at: int)
    requires
        first_license_position(text, at),
    ensures
        classifier_name(text) == Some(text.skip(at + license_prefix().len())),
{
    let chosen = choose|p: int| first_license_position(text, p);
    assert(names_license_at(text, at));
    assert(chosen == at);
}

} // verus!
