//! Comparisons on strings, stated over their character sequences.

use vstd::prelude::*;
use vstd::std_specs::iter::IteratorSpec;
use vstd::string::{StrSliceExecFns, StringExecFns};
use vstd::utf8::*;

verus! {

/// Whether two strings hold the same characters.
pub fn same_text(a: &str, b: &str) -> (same: bool)
    ensures
        same == (a@ == b@),
{
    let x = a.as_bytes();
    let y = b.as_bytes();
    proof {
        encode_utf8_decode_utf8(a@);
        encode_utf8_decode_utf8(b@);
    }
    if x.len() != y.len() {
        return false;
    }
    let mut i: usize = 0;
    while i < x.len()
        invariant
            i <= x.len(),
            x.len() == y.len(),
            x@ == encode_utf8(a@),
            y@ == encode_utf8(b@),
            forall|k: int| 0 <= k < i ==> x@[k] == y@[k],
        decreases x.len() - i,
    {
        if x[i] != y[i] {
            return false;
        }
        i += 1;
    }
    assert(x@ =~= y@);
    true
}

/// Whether `part` stands somewhere in `text`, whole and unbroken.
pub open spec fn occurs_in(part: Seq<char>, text: Seq<char>) -> bool {
    exists|at: int| occurs_at(part, text, at)
}

/// Whether `part` stands in `text` from position `at` on.
pub open spec fn occurs_at(part: Seq<char>, text: Seq<char>, at: int) -> bool {
    0 <= at && at + part.len() <= text.len() && text.subrange(at, at + part.len()) == part
}

/// Whether the character separates words: whether it is white space, that
/// is one of the characters with the Unicode property `White_Space`. These
/// are the controls from the tab to the carriage return, the blank, the next
/// line control, the no-break space, the Ogham space mark, the spaces from
/// the en quad to the hair space, the line and the paragraph separator, the
/// narrow no-break space, the medium mathematical space and the ideographic
/// space.
pub open spec fn is_separator(c: char) -> bool {
    ||| '\t' <= c && c <= '\r'
    ||| c == ' '
    ||| c == '\u{85}'
    ||| c == '\u{a0}'
    ||| c == '\u{1680}'
    ||| '\u{2000}' <= c && c <= '\u{200a}'
    ||| c == '\u{2028}'
    ||| c == '\u{2029}'
    ||| c == '\u{202f}'
    ||| c == '\u{205f}'
    ||| c == '\u{3000}'
}

/// Whether the character separates words.
pub fn separates(c: char) -> (separator: bool)
    ensures
        separator == is_separator(c),
{
    ('\t' <= c && c <= '\r') || c == ' ' || c == '\u{85}' || c == '\u{a0}' || c == '\u{1680}' || (
    '\u{2000}' <= c && c <= '\u{200a}') || c == '\u{2028}' || c == '\u{2029}' || c == '\u{202f}' || c
        == '\u{205f}' || c == '\u{3000}'
}

/// The first position at or after `from` that holds no separator; the length
/// of the text if there is none.
pub open spec fn word_start(text: Seq<char>, from: int) -> int
    decreases text.len() - from,
{
    if 0 <= from < text.len() && is_separator(text[from]) {
        word_start(text, from + 1)
    } else {
        from
    }
}

/// The first position at or after `from` that holds a separator; the length
/// of the text if there is none.
pub open spec fn word_end(text: Seq<char>, from: int) -> int
    decreases text.len() - from,
{
    if 0 <= from < text.len() && !is_separator(text[from]) {
        word_end(text, from + 1)
    } else {
        from
    }
}

/// The first two words of a text, with one blank between them; the first word
/// alone where the text has only one, and nothing where it has none.
pub open spec fn first_two_words(text: Seq<char>) -> Seq<char> {
    let first_from = word_start(text, 0);
    let first_to = word_end(text, first_from);
    let second_from = word_start(text, first_to);
    let second_to = word_end(text, second_from);
    if second_from < second_to {
        text.subrange(first_from, first_to) + seq![' '] + text.subrange(second_from, second_to)
    } else {
        text.subrange(first_from, first_to)
    }
}

/// Neither scan leaves the text, and neither goes backwards.
pub proof fn lemma_word_bounds(text: Seq<char>, from: int)
    requires
        0 <= from <= text.len(),
    ensures
        from <= word_start(text, from) <= text.len(),
        from <= word_end(text, from) <= text.len(),
    decreases text.len() - from,
{
    if from < text.len() {
        lemma_word_bounds(text, from + 1);
    }
}

/// A word holds no separator.
pub proof fn lemma_word_has_no_separator(text: Seq<char>, from: int, at: int)
    requires
        0 <= from <= at < word_end(text, from),
    ensures
        at < text.len(),
        !is_separator(text[at]),
    decreases at - from,
{
    if from < at {
        lemma_word_has_no_separator(text, from + 1, at);
    }
}

/// The first two words of a text, with one blank between them.
pub fn leading_words(text: &str) -> (words: String)
    ensures
        words@ == first_two_words(text@),
{
    let length = text.unicode_len();
    let ghost s = text@;
    let mut first_from: usize = length;
    let mut first_to: usize = length;
    let mut second_from: usize = length;
    let mut second_to: usize = length;
    // How far the scan has come: 0 before the first word, 1 inside it,
    // 2 between the words, 3 inside the second word, 4 behind it.
    let mut stage: u8 = 0;
    let mut position: usize = 0;
    let mut rest = text.chars();
    while stage < 4
        invariant
            s == text@,
            length == s.len(),
            position <= length,
            rest.remaining() == s.skip(position as int),
            stage <= 4,
            stage < 4 ==> second_to == length,
            stage < 3 ==> second_from == length,
            stage < 2 ==> first_to == length,
            stage < 1 ==> first_from == length,
            stage == 0 ==> word_start(s, 0) == word_start(s, position as int),
            stage >= 1 ==> first_from == word_start(s, 0) && first_from < length,
            stage == 1 ==> first_from < position && word_end(s, first_from as int) == word_end(
                s,
                position as int,
            ),
            stage >= 2 ==> first_to == word_end(s, first_from as int) && first_to < length,
            stage == 2 ==> first_to < position && word_start(s, first_to as int) == word_start(
                s,
                position as int,
            ),
            stage >= 3 ==> second_from == word_start(s, first_to as int) && second_from < length,
            stage == 3 ==> second_from < position && word_end(s, second_from as int) == word_end(
                s,
                position as int,
            ),
            stage == 4 ==> second_to == word_end(s, second_from as int) && second_to < length,
        ensures
            stage == 4 || position == length,
        decreases (if stage < 4 { 1int } else { 0int }) + length - position,
    {
        match rest.next() {
            None => {
                assert(position == length);
                break ;
            },
            Some(c) => {
                assert(c == s[position as int]);
                assert(s.skip(position as int).drop_first() =~= s.skip(position as int + 1));
                let separator = separates(c);
                if stage == 0 {
                    if !separator {
                        first_from = position;
                        stage = 1;
                    }
                } else if stage == 1 {
                    if separator {
                        first_to = position;
                        stage = 2;
                    }
                } else if stage == 2 {
                    if !separator {
                        second_from = position;
                        stage = 3;
                    }
                } else {
                    if separator {
                        second_to = position;
                        stage = 4;
                    }
                }
                position += 1;
            },
        }
    }
    proof {
        lemma_word_bounds(s, 0);
        lemma_word_bounds(s, word_start(s, 0));
        lemma_word_bounds(s, word_end(s, word_start(s, 0)));
        lemma_word_bounds(s, word_start(s, word_end(s, word_start(s, 0))));
    }
    let first = text.substring_char(first_from, first_to);
    if second_from < second_to {
        let second = text.substring_char(second_from, second_to);
        proof {
            reveal_strlit(" ");
            assert(" "@ =~= seq![' ']);
        }
        first.to_owned().concat(" ").concat(second)
    } else {
        first.to_owned()
    }
}

} // verus!
