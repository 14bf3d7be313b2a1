//! Requirements, as a manifest writes them: a name, then extras, a version
//! or a URL, and behind a `;` a marker, which may nest in parentheses.

use vstd::prelude::*;
use vstd::std_specs::iter::IteratorSpec;

use crate::text::{is_separator, separates};

verus! {

/// How many parentheses a requirement may have open at once. The parser of
/// requirements descends once for each, and its stack is not endless.
pub const MARKER_NESTING_LIMIT: usize = 64;

/// The part of a requirement in which a scan stands.
#[derive(Clone, Copy, Debug)]
pub enum Part {
    /// Before the marker and before a URL: the name, the extras, the versions.
    Head,
    /// Behind the `@` and before the URL.
    UrlGap,
    /// Inside the URL, which runs up to the next white space.
    Url,
    /// Behind the URL, or behind the `;`: the marker, outside its quoted values.
    Marker,
    /// Inside a quoted value of the marker, which runs up to the given quote.
    Quoted(char),
}

/// The part in which a scan stands after one more character.
pub open spec fn next_part(part: Part, c: char) -> Part {
    match part {
        Part::Head => if c == ';' {
            Part::Marker
        } else if c == '@' {
            Part::UrlGap
        } else {
            Part::Head
        },
        Part::UrlGap => if is_separator(c) {
            Part::UrlGap
        } else {
            Part::Url
        },
        Part::Url => if is_separator(c) {
            Part::Marker
        } else {
            Part::Url
        },
        Part::Marker => if c == '"' || c == '\'' {
            Part::Quoted(c)
        } else {
            Part::Marker
        },
        Part::Quoted(quote) => if c == quote {
            Part::Marker
        } else {
            Part::Quoted(quote)
        },
    }
}

/// Whether parentheses count in the part: not inside a URL, and not inside a
/// quoted value.
pub open spec fn counts_in(part: Part) -> bool {
    part is Head || part is Marker
}

/// The part in which a scan stands after the first `upto` characters.
pub open spec fn part_after(text: Seq<char>, upto: int) -> Part
    decreases upto,
{
    if upto <= 0 {
        Part::Head
    } else {
        next_part(part_after(text, upto - 1), text[upto - 1])
    }
}

/// How many parentheses the requirement has open after its first `upto`
/// characters: each `(` opens one and each `)` closes one, where they count.
pub open spec fn open_after(text: Seq<char>, upto: int) -> nat
    decreases upto,
{
    if upto <= 0 {
        0
    } else {
        let before = open_after(text, upto - 1);
        if !counts_in(part_after(text, upto - 1)) {
            before
        } else if text[upto - 1] == '(' {
            before + 1
        } else if text[upto - 1] == ')' && before > 0 {
            (before - 1) as nat
        } else {
            before
        }
    }
}

/// Whether the requirement never has more than `limit` parentheses open.
pub open spec fn nesting_within(text: Seq<char>, limit: nat) -> bool {
    forall|upto: int| 0 <= upto <= text.len() ==> open_after(text, upto) <= limit
}

/// Whether the requirement never has more parentheses open than the limit
/// allows, found in one pass over its characters.
pub fn nests_within_limit(requirement: &str) -> (within: bool)
    ensures
        within == nesting_within(requirement@, MARKER_NESTING_LIMIT as nat),
{
    let ghost s = requirement@;
    let ghost mut position: int = 0;
    let mut rest = requirement.chars();
    let mut part = Part::Head;
    let mut open: usize = 0;
    loop
        invariant
            s == requirement@,
            0 <= position <= s.len(),
            rest.remaining() == s.skip(position),
            part == part_after(s, position),
            open == open_after(s, position),
            open <= MARKER_NESTING_LIMIT,
            forall|upto: int| 0 <= upto <= position ==> open_after(s, upto) <= MARKER_NESTING_LIMIT,
        decreases s.len() - position,
    {
        match rest.next() {
            None => {
                assert(position == s.len());
                return true;
            },
            Some(c) => {
                assert(c == s[position]);
                assert(s.skip(position).drop_first() =~= s.skip(position + 1));
                match part {
                    Part::Head => {
                        if c == '(' {
                            if open == MARKER_NESTING_LIMIT {
                                assert(open_after(s, position + 1) > MARKER_NESTING_LIMIT);
                                return false;
                            }
                            open = open + 1;
                        } else if c == ')' && open > 0 {
                            open = open - 1;
                        }
                        if c == ';' {
                            part = Part::Marker;
                        } else if c == '@' {
                            part = Part::UrlGap;
                        }
                    },
                    Part::UrlGap => {
                        if !separates(c) {
                            part = Part::Url;
                        }
                    },
                    Part::Url => {
                        if separates(c) {
                            part = Part::Marker;
                        }
                    },
                    Part::Marker => {
                        if c == '(' {
                            if open == MARKER_NESTING_LIMIT {
                                assert(open_after(s, position + 1) > MARKER_NESTING_LIMIT);
                                return false;
                            }
                            open = open + 1;
                        } else if c == ')' && open > 0 {
                            open = open - 1;
                        }
                        if c == '"' || c == '\'' {
                            part = Part::Quoted(c);
                        }
                    },
                    Part::Quoted(quote) => {
                        if c == quote {
                            part = Part::Marker;
                        }
                    },
                }
                proof {
                    position = position + 1;
                }
            },
        }
    }
}

} // verus!
