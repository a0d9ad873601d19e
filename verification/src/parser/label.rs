//! Identifiers and labels.

use super::model::{Line, LineView};
use super::scan::{
    at_char, char_at, in_class, is_letter, lemma_run_bounds, run_end, skip, text_between, Class,
    Expected, ParseError,
};
use vstd::prelude::*;

verus! {

/// The view of a parsing result that holds a line.
pub open spec fn parsed(r: Result<(Line, usize), ParseError>) -> Result<
    (LineView, usize),
    ParseError,
> {
    match r {
        Ok(done) => Ok((done.0@, done.1)),
        Err(e) => Err(e),
    }
}

/// Where the identifier that starts at `at` ends: a letter or `_`, then
/// letters, digits and `_`.
pub open spec fn identifier_end(s: Seq<char>, at: usize) -> Option<usize> {
    match char_at(s, at) {
        Some(c) => if is_letter(c) || c == '_' {
            Some(run_end(s, at, Class::Identifier))
        } else {
            None
        },
        None => None,
    }
}

/// Finds the end of the identifier that starts at `at`.
pub fn identifier(input: &[char], at: usize) -> (r: Option<usize>)
    ensures
        r == identifier_end(input@, at),
        r matches Some(end) ==> at < end <= input.len(),
{
    if at < input.len() {
        let c = input[at];
        if ('a' <= c && c <= 'z') || ('A' <= c && c <= 'Z') || c == '_' {
            let end = skip(input, at, Class::Identifier);
            proof {
                assert(in_class(Class::Identifier, c));
                lemma_run_bounds(input@, (at + 1) as usize, Class::Identifier);
            }
            return Some(end);
        }
    }
    None
}

/// The label at `at`: an identifier behind any whitespace, and a `:`.
pub open spec fn label_at(s: Seq<char>, at: usize) -> Result<(LineView, usize), ParseError> {
    let start = run_end(s, at, Class::Multispace);
    match identifier_end(s, start) {
        None => Err(ParseError { at: start, expected: Expected::Identifier }),
        Some(end) => if char_at(s, end) == Some(':') {
            Ok((LineView::Label(s.subrange(start as int, end as int)), (end + 1) as usize))
        } else {
            Err(ParseError { at: end, expected: Expected::Colon })
        },
    }
}

/// Reads a label.
pub fn label(input: &[char], at: usize) -> (r: Result<(Line, usize), ParseError>)
    requires
        at <= input.len(),
    ensures
        parsed(r) == label_at(input@, at),
        r matches Ok(done) ==> at < done.1 <= input.len(),
{
    let start = skip(input, at, Class::Multispace);
    match identifier(input, start) {
        None => Err(ParseError { at: start, expected: Expected::Identifier }),
        Some(end) => {
            if at_char(input, end, ':') {
                Ok((Line::Label(text_between(input, start, end)), end + 1))
            } else {
                Err(ParseError { at: end, expected: Expected::Colon })
            }
        },
    }
}

} // verus!
