//! The licenses that the engine knows, each with its canonical identifier.

use vstd::prelude::*;
use vstd::utf8::{encode_utf8, is_ascii_chars, is_ascii_chars_encode_utf8};

use crate::classifier::{
    classifier_name, lemma_classifier_name_ends_text, license_name, license_prefix,
    names_license_at,
};
use crate::text::{
    first_two_words, leading_words, lemma_word_bounds, lemma_word_has_no_separator, occurs_at,
    occurs_in, same_text, word_end, word_start,
};

verus! {

/// The length in bytes above which a license text is taken for the full
/// wording of a license rather than for its name.
pub const OVERSIZED_TEXT_BYTES: usize = 100;

/// Whether a text is longer than a license's name is taken to be.
pub open spec fn is_oversized(text: Seq<char>) -> bool {
    encode_utf8(text).len() > OVERSIZED_TEXT_BYTES
}

/// A license that the engine recognises.
#[derive(Debug, PartialEq, Eq, Clone, Copy, Structural)]
pub enum SPDXLicense {
    MIT,
    Apache2,
    MPL,
    GPL3,
    BSD3,
    PSFL,
}

impl SPDXLicense {
    /// The canonical identifier of the license: the key under which a
    /// compatibility matrix lists it.
    pub open spec fn canonical(self) -> Seq<char> {
        match self {
            SPDXLicense::MIT => "MIT"@,
            SPDXLicense::Apache2 => "Apache-2.0"@,
            SPDXLicense::MPL => "MPL-2.0"@,
            SPDXLicense::GPL3 => "GPL-3.0-only"@,
            SPDXLicense::BSD3 => "BSD-3-Clause"@,
            SPDXLicense::PSFL => "PSF-2.0"@,
        }
    }

    /// Whether the text is one of the aliases of the license: its canonical
    /// identifier or another of the names under which it goes. Case and
    /// punctuation count.
    pub open spec fn has_alias(self, text: Seq<char>) -> bool {
        match self {
            SPDXLicense::MIT => text == "MIT"@ || text == "MIT License"@,
            SPDXLicense::Apache2 => {
                ||| text == "Apache-2.0"@
                ||| text == "Apache 2.0"@
                ||| text == "Apache"@
                ||| text == "Apache License 2.0"@
            },
            SPDXLicense::MPL => {
                text == "MPL-2.0"@ || text == "Mozilla Public License 2.0 (MPL 2.0)"@
            },
            SPDXLicense::GPL3 => text == "GPL-3.0-only"@ || text == "GPL-3.0"@,
            SPDXLicense::BSD3 => text == "BSD-3-Clause"@,
            SPDXLicense::PSFL => {
                ||| text == "PSF-2.0"@
                ||| text == "Python-2.0"@
                ||| text == "Python Software Foundation License"@
            },
        }
    }

    /// The license that has the text as an alias, if one has.
    pub open spec fn of_alias(text: Seq<char>) -> Option<SPDXLicense> {
        if SPDXLicense::MIT.has_alias(text) {
            Some(SPDXLicense::MIT)
        } else if SPDXLicense::Apache2.has_alias(text) {
            Some(SPDXLicense::Apache2)
        } else if SPDXLicense::MPL.has_alias(text) {
            Some(SPDXLicense::MPL)
        } else if SPDXLicense::GPL3.has_alias(text) {
            Some(SPDXLicense::GPL3)
        } else if SPDXLicense::BSD3.has_alias(text) {
            Some(SPDXLicense::BSD3)
        } else if SPDXLicense::PSFL.has_alias(text) {
            Some(SPDXLicense::PSFL)
        } else {
            None
        }
    }

    /// The license that has exactly this text as an alias. Nothing is cut from
    /// the text and nothing in it is skipped.
    pub fn from_alias(text: &str) -> (license: Option<SPDXLicense>)
        ensures
            license == SPDXLicense::of_alias(text@),
            forall|known: SPDXLicense| license == Some(known) <==> known.has_alias(text@),
    {
        proof {
            assert forall|known: SPDXLicense|
                SPDXLicense::of_alias(text@) == Some(known) <==> known.has_alias(text@) by {
                lemma_alias_names_one_license(known, text@);
            }
        }
        if same_text(text, "MIT") || same_text(text, "MIT License") {
            Some(SPDXLicense::MIT)
        } else if same_text(text, "Apache-2.0") || same_text(text, "Apache 2.0") || same_text(
            text,
            "Apache",
        ) || same_text(text, "Apache License 2.0") {
            Some(SPDXLicense::Apache2)
        } else if same_text(text, "MPL-2.0") || same_text(
            text,
            "Mozilla Public License 2.0 (MPL 2.0)",
        ) {
            Some(SPDXLicense::MPL)
        } else if same_text(text, "GPL-3.0-only") || same_text(text, "GPL-3.0") {
            Some(SPDXLicense::GPL3)
        } else if same_text(text, "BSD-3-Clause") {
            Some(SPDXLicense::BSD3)
        } else if same_text(text, "PSF-2.0") || same_text(text, "Python-2.0") || same_text(
            text,
            "Python Software Foundation License",
        ) {
            Some(SPDXLicense::PSFL)
        } else {
            None
        }
    }

    /// The license that a free-form text normalises to.
    ///
    /// An oversized text is cut down to its first two words, and those are
    /// matched against the aliases: the rest of such a text is never looked
    /// at. Of a text of classifier style, `License :: OSI Approved :: <Name>`,
    /// the name is matched. Any other text is matched as it stands.
    pub open spec fn normalized(text: Seq<char>) -> Option<SPDXLicense> {
        if is_oversized(text) {
            SPDXLicense::of_alias(first_two_words(text))
        } else {
            match classifier_name(text) {
                Some(name) => SPDXLicense::of_alias(name),
                None => SPDXLicense::of_alias(text),
            }
        }
    }

    /// The license that a free-form license description stands for, or `None`
    /// where it is not recognised: that is an outcome, not a failure.
    pub fn normalize(text: &str) -> (license: Option<SPDXLicense>)
        ensures
            license == SPDXLicense::normalized(text@),
    {
        if text.as_bytes().len() > OVERSIZED_TEXT_BYTES {
            let words = leading_words(text);
            SPDXLicense::from_alias(words.as_str())
        } else {
            match license_name(text) {
                Some(name) => SPDXLicense::from_alias(name),
                None => SPDXLicense::from_alias(text),
            }
        }
    }

    /// The canonical identifier, borrowed.
    pub fn as_str(&self) -> (id: &'static str)
        ensures
            id@ == self.canonical(),
    {
        match self {
            SPDXLicense::MIT => "MIT",
            SPDXLicense::Apache2 => "Apache-2.0",
            SPDXLicense::MPL => "MPL-2.0",
            SPDXLicense::GPL3 => "GPL-3.0-only",
            SPDXLicense::BSD3 => "BSD-3-Clause",
            SPDXLicense::PSFL => "PSF-2.0",
        }
    }

    /// The canonical identifier, owned.
    pub fn to_string(&self) -> (id: String)
        ensures
            id@ == self.canonical(),
    {
        self.as_str().to_owned()
    }
}

/// What the alias texts hold: their lengths, and the characters by which
/// those of one length differ.
proof fn lemma_alias_texts()
    ensures
        "MIT"@.len() == 3,
        "MIT License"@.len() == 11,
        "Apache-2.0"@.len() == 10,
        "Apache 2.0"@.len() == 10,
        "Apache"@.len() == 6,
        "Apache License 2.0"@.len() == 18,
        "MPL-2.0"@.len() == 7,
        "Mozilla Public License 2.0 (MPL 2.0)"@.len() == 36,
        "GPL-3.0-only"@.len() == 12,
        "GPL-3.0"@.len() == 7,
        "BSD-3-Clause"@.len() == 12,
        "PSF-2.0"@.len() == 7,
        "Python-2.0"@.len() == 10,
        "Python Software Foundation License"@.len() == 34,
        "Apache-2.0"@[0] == 'A' && "Apache-2.0"@[6] == '-',
        "Apache 2.0"@[0] == 'A' && "Apache 2.0"@[6] == ' ',
        "Python-2.0"@[0] == 'P',
        "MPL-2.0"@[0] == 'M',
        "GPL-3.0"@[0] == 'G',
        "PSF-2.0"@[0] == 'P',
        "GPL-3.0-only"@[0] == 'G',
        "BSD-3-Clause"@[0] == 'B',
{
    reveal_strlit("MIT");
    reveal_strlit("MIT License");
    reveal_strlit("Apache-2.0");
    reveal_strlit("Apache 2.0");
    reveal_strlit("Apache");
    reveal_strlit("Apache License 2.0");
    reveal_strlit("MPL-2.0");
    reveal_strlit("Mozilla Public License 2.0 (MPL 2.0)");
    reveal_strlit("GPL-3.0-only");
    reveal_strlit("GPL-3.0");
    reveal_strlit("BSD-3-Clause");
    reveal_strlit("PSF-2.0");
    reveal_strlit("Python-2.0");
    reveal_strlit("Python Software Foundation License");
}

/// No text is an alias of two licenses: the license that has a text as an
/// alias is the one that the lookup finds.
pub proof fn lemma_alias_names_one_license(license: SPDXLicense, text: Seq<char>)
    ensures
        license.has_alias(text) <==> SPDXLicense::of_alias(text) == Some(license),
{
    lemma_alias_texts();
}

/// An alias is made of ASCII characters, so it has as many bytes as
/// characters, and it is not oversized.
proof fn lemma_alias_is_not_oversized(license: SPDXLicense, alias: Seq<char>)
    requires
        license.has_alias(alias),
    ensures
        !is_oversized(alias),
{
    reveal_strlit("MIT");
    reveal_strlit("MIT License");
    reveal_strlit("Apache-2.0");
    reveal_strlit("Apache 2.0");
    reveal_strlit("Apache");
    reveal_strlit("Apache License 2.0");
    reveal_strlit("MPL-2.0");
    reveal_strlit("Mozilla Public License 2.0 (MPL 2.0)");
    reveal_strlit("GPL-3.0-only");
    reveal_strlit("GPL-3.0");
    reveal_strlit("BSD-3-Clause");
    reveal_strlit("PSF-2.0");
    reveal_strlit("Python-2.0");
    reveal_strlit("Python Software Foundation License");
    assert(is_ascii_chars(alias));
    is_ascii_chars_encode_utf8(alias);
}

/// No alias is of classifier style.
proof fn lemma_alias_is_no_classifier(license: SPDXLicense, alias: Seq<char>)
    requires
        license.has_alias(alias),
    ensures
        classifier_name(alias) is None,
{
    lemma_alias_texts();
    reveal_strlit("License :: OSI Approved :: ");
    reveal_strlit("Mozilla Public License 2.0 (MPL 2.0)");
    reveal_strlit("Python Software Foundation License");
    assert forall|at: int| !names_license_at(alias, at) by {
        if names_license_at(alias, at) {
            assert(alias.subrange(at, at + license_prefix().len())[0] == license_prefix()[0]);
            assert(alias[at] == 'L');
        }
    }
}

/// Every alias of a license normalises to that license.
pub proof fn lemma_alias_normalizes(license: SPDXLicense, alias: Seq<char>)
    requires
        license.has_alias(alias),
    ensures
        SPDXLicense::normalized(alias) == Some(license),
{
    lemma_alias_names_one_license(license, alias);
    lemma_alias_is_not_oversized(license, alias);
    lemma_alias_is_no_classifier(license, alias);
}

/// Where the first two words of a text make up an alias, an alias occurs in
/// the text: the two words themselves where they stand together, and else
/// the first word, which is an alias of its own.
proof fn lemma_alias_in_two_words(license: SPDXLicense, text: Seq<char>)
    requires
        license.has_alias(first_two_words(text)),
    ensures
        exists|other: SPDXLicense, alias: Seq<char>| #[trigger]
            other.has_alias(alias) && occurs_in(alias, text),
{
    let first_from = word_start(text, 0);
    let first_to = word_end(text, first_from);
    let second_from = word_start(text, first_to);
    let second_to = word_end(text, second_from);
    lemma_word_bounds(text, 0);
    lemma_word_bounds(text, first_from);
    lemma_word_bounds(text, first_to);
    lemma_word_bounds(text, second_from);
    let words = first_two_words(text);
    let first = text.subrange(first_from, first_to);
    if second_from < second_to {
        let second = text.subrange(second_from, second_to);
        assert(words == first + seq![' '] + second);
        assert forall|k: int| 0 <= k < words.len() && words[k] == ' ' implies k == first.len() by {
            if k < first.len() {
                lemma_word_has_no_separator(text, first_from, first_from + k);
            } else if k > first.len() {
                lemma_word_has_no_separator(text, second_from, second_from + (k - first.len() - 1));
            }
        }
        assert(words[first.len() as int] == ' ');
        lemma_alias_texts();
        reveal_strlit("MIT");
        reveal_strlit("MIT License");
        reveal_strlit("Apache-2.0");
        reveal_strlit("Apache 2.0");
        reveal_strlit("Apache");
        reveal_strlit("Apache License 2.0");
        reveal_strlit("MPL-2.0");
        reveal_strlit("Mozilla Public License 2.0 (MPL 2.0)");
        reveal_strlit("GPL-3.0-only");
        reveal_strlit("GPL-3.0");
        reveal_strlit("BSD-3-Clause");
        reveal_strlit("PSF-2.0");
        reveal_strlit("Python-2.0");
        reveal_strlit("Python Software Foundation License");
        if words == "MIT License"@ {
            assert(words[3] == ' ');
            assert(first.len() == 3);
            assert(first[0] == words[0] && first[1] == words[1] && first[2] == words[2]);
            assert(first =~= "MIT"@);
            assert(SPDXLicense::MIT.has_alias(first));
            assert(occurs_at(first, text, first_from));
        } else if words == "Apache 2.0"@ {
            assert(words[6] == ' ');
            assert(first.len() == 6);
            assert(first[0] == words[0] && first[1] == words[1] && first[2] == words[2]);
            assert(first[3] == words[3] && first[4] == words[4] && first[5] == words[5]);
            assert(first =~= "Apache"@);
            assert(SPDXLicense::Apache2.has_alias(first));
            assert(occurs_at(first, text, first_from));
        } else if words == "Apache License 2.0"@ {
            assert(words[6] == ' ' && words[14] == ' ');
        } else if words == "Mozilla Public License 2.0 (MPL 2.0)"@ {
            assert(words[7] == ' ' && words[14] == ' ');
        } else if words == "Python Software Foundation License"@ {
            assert(words[6] == ' ' && words[15] == ' ');
        } else {
            assert(words[first.len() as int] == ' ');
            assert(false);
        }
    } else {
        assert(occurs_at(first, text, first_from));
        assert(license.has_alias(first));
    }
}

/// A text in which no alias of any license occurs normalises to no license.
pub proof fn lemma_text_without_alias_is_not_recognised(text: Seq<char>)
    requires
        forall|license: SPDXLicense, alias: Seq<char>| #[trigger]
            license.has_alias(alias) ==> !occurs_in(alias, text),
    ensures
        SPDXLicense::normalized(text) is None,
{
    if SPDXLicense::normalized(text) is Some {
        let license = SPDXLicense::normalized(text)->0;
        if is_oversized(text) {
            lemma_alias_names_one_license(license, first_two_words(text));
            lemma_alias_in_two_words(license, text);
        } else if classifier_name(text) is Some {
            let name = classifier_name(text)->0;
            lemma_alias_names_one_license(license, name);
            lemma_classifier_name_ends_text(text);
            assert(occurs_at(name, text, text.len() - name.len()));
        } else {
            lemma_alias_names_one_license(license, text);
            assert(text.subrange(0, text.len() as int) == text);
            assert(occurs_at(text, text, 0));
        }
    }
}

} // verus!
