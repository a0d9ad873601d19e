//! Scanning primitives: character classes, runs of characters, and the
//! errors that the parser reports.

use crate::text::{is_whitespace, unicode_whitespace};
use vstd::prelude::*;
use vstd::slice::slice_subrange;
use vstd::string::StrSliceExecFns;

verus! {

/// What the parser was looking for where it gave up.
#[derive(Debug, Clone, Copy, PartialEq, Eq, Structural)]
pub enum Expected {
    /// A `#`.
    Comment,
    /// The line break that ends a comment.
    EndOfComment,
    /// A name: a letter or `_`, then letters, digits and `_`.
    Identifier,
    /// The `:` behind the name of a label.
    Colon,
    /// A mnemonic or a directive.
    Opcode,
    /// Whitespace behind the mnemonic.
    Operands,
    /// The `$` in front of a register.
    Dollar,
    /// The name or the number of a register.
    Register,
    /// A number or a label.
    Immediate,
    /// A number.
    Number,
    /// The `(` in front of a base register.
    OpenParenthesis,
    /// The `)` behind a base register.
    CloseParenthesis,
    /// A `"`.
    Quote,
    /// Operands for a mnemonic that takes none the parser knows of.
    NoParser,
    /// The end of the line.
    EndOfLine,
}

impl Expected {
    /// The words that name the expectation in a message.
    pub open spec fn words(self) -> Seq<char> {
        match self {
            Expected::Comment => "Comments begin with a #"@,
            Expected::EndOfComment => "Comments end with the line"@,
            Expected::Identifier => "Identifier"@,
            Expected::Colon => "Label must be terminated by a colon"@,
            Expected::Opcode => "Unknown Opcode"@,
            Expected::Operands => "Expected whitespace after the opcode"@,
            Expected::Dollar => "Expected '$' to prepend register"@,
            Expected::Register => "Unknown register"@,
            Expected::Immediate => "Expected immediate value"@,
            Expected::Number => "Expected number"@,
            Expected::OpenParenthesis => "Expected '(' before the base register"@,
            Expected::CloseParenthesis => "Expected ')' after the base register"@,
            Expected::Quote => "Expected a double quote around the string"@,
            Expected::NoParser => "No parser for instruction"@,
            Expected::EndOfLine => "Instructions must be on their own lines"@,
        }
    }

    /// The words that name the expectation in a message.
    pub fn text(&self) -> (t: &'static str)
        ensures
            t@ == self.words(),
    {
        match self {
            Expected::Comment => "Comments begin with a #",
            Expected::EndOfComment => "Comments end with the line",
            Expected::Identifier => "Identifier",
            Expected::Colon => "Label must be terminated by a colon",
            Expected::Opcode => "Unknown Opcode",
            Expected::Operands => "Expected whitespace after the opcode",
            Expected::Dollar => "Expected '$' to prepend register",
            Expected::Register => "Unknown register",
            Expected::Immediate => "Expected immediate value",
            Expected::Number => "Expected number",
            Expected::OpenParenthesis => "Expected '(' before the base register",
            Expected::CloseParenthesis => "Expected ')' after the base register",
            Expected::Quote => "Expected a double quote around the string",
            Expected::NoParser => "No parser for instruction",
            Expected::EndOfLine => "Instructions must be on their own lines",
        }
    }
}

/// A parse failure: where in the input, counted in characters, and what was
/// expected there.
#[derive(Debug, Clone, Copy, PartialEq, Eq, Structural)]
pub struct ParseError {
    pub at: usize,
    pub expected: Expected,
}

/// The trace that `nom::error::convert_error` renders for the input `input`
/// and a single entry: the context `context` at character `at`.
pub uninterp spec fn error_trace(input: Seq<char>, at: usize, context: Seq<char>) -> Seq<char>;

/// Calls `nom::error::convert_error` with one entry, the context `context`
/// at the rest of the input from character `at` on. Trusted: the text that
/// comes back is a function of these three alone, which [`error_trace`]
/// names; it holds the line number, the line and a caret under the place.
#[verifier::external_body]
fn render_trace(input: &str, at: usize, context: &'static str) -> (text: String)
    ensures
        text@ == error_trace(input@, at, context@),
{
    let offset = input.char_indices().nth(at).map_or(input.len(), |found| found.0);
    let entry = (&input[offset..], nom::error::VerboseErrorKind::Context(context));
    nom::error::convert_error(input, nom::error::VerboseError { errors: vec![entry] })
}

impl ParseError {
    /// The message for the user: the line of `input` in which the parser
    /// gave up, the place in it, and what was expected there.
    pub fn message(&self, input: &str) -> (text: String)
        ensures
            text@ == error_trace(input@, self.at, self.expected.words()),
    {
        render_trace(input, self.at, self.expected.text())
    }
}

/// A class of characters.
#[derive(Debug, Clone, Copy, PartialEq, Eq, Structural)]
pub enum Class {
    /// Space and tab.
    Space,
    /// Space, tab, carriage return and line feed.
    Multispace,
    /// Everything but whitespace.
    Word,
    /// Everything but whitespace, `,`, `)` and `#`.
    RegisterName,
    /// Letters, digits and `_`.
    Identifier,
    /// The characters of a number, and `_`.
    Numeral,
    /// Everything but the line feed.
    CommentBody,
    /// Everything but `"`.
    StringBody,
}

/// Whether `c` is an ASCII letter.
pub open spec fn is_letter(c: char) -> bool {
    'a' <= c <= 'z' || 'A' <= c <= 'Z'
}

/// Whether `c` can stand in a number: a sign, a decimal digit, or an
/// upper-case hexadecimal digit.
pub open spec fn is_numeral_char(c: char) -> bool {
    c == '-' || c == '+' || '0' <= c <= '9' || 'A' <= c <= 'F'
}

/// Whether `c` belongs to `class`.
pub open spec fn in_class(class: Class, c: char) -> bool {
    match class {
        Class::Space => c == ' ' || c == '\t',
        Class::Multispace => c == ' ' || c == '\t' || c == '\r' || c == '\n',
        Class::Word => !unicode_whitespace(c),
        Class::RegisterName => !unicode_whitespace(c) && c != ',' && c != ')' && c != '#',
        Class::Identifier => is_letter(c) || '0' <= c <= '9' || c == '_',
        Class::Numeral => is_numeral_char(c) || c == '_',
        Class::CommentBody => c != '\n',
        Class::StringBody => c != '"',
    }
}

/// The end of the run of characters of `class` that starts at `at`.
pub open spec fn run_end(s: Seq<char>, at: usize, class: Class) -> usize
    decreases s.len() - at,
{
    if at < s.len() && at < usize::MAX && in_class(class, s[at as int]) {
        run_end(s, (at + 1) as usize, class)
    } else {
        at
    }
}

/// The character at `at`, if the input reaches that far.
pub open spec fn char_at(s: Seq<char>, at: usize) -> Option<char> {
    if at < s.len() {
        Some(s[at as int])
    } else {
        None
    }
}

/// Whether the input holds `word` at `at`.
pub open spec fn has_prefix(s: Seq<char>, at: usize, word: Seq<char>) -> bool {
    at + word.len() <= s.len() && s.subrange(at as int, at + word.len()) == word
}

/// A run never ends before it starts, nor behind the input.
pub proof fn lemma_run_bounds(s: Seq<char>, at: usize, class: Class)
    requires
        s.len() <= usize::MAX,
    ensures
        at <= run_end(s, at, class),
        at <= s.len() ==> run_end(s, at, class) <= s.len(),
        forall|i: int| at <= i < run_end(s, at, class) ==> in_class(class, #[trigger] s[i]),
        run_end(s, at, class) < s.len() ==> !in_class(class, s[run_end(s, at, class) as int]),
    decreases s.len() - at,
{
    if at < s.len() && in_class(class, s[at as int]) {
        lemma_run_bounds(s, (at + 1) as usize, class);
    }
}

/// Whether `c` belongs to `class`.
pub fn member(class: Class, c: char) -> (b: bool)
    ensures
        b == in_class(class, c),
{
    match class {
        Class::Space => c == ' ' || c == '\t',
        Class::Multispace => c == ' ' || c == '\t' || c == '\r' || c == '\n',
        Class::Word => !is_whitespace(c),
        Class::RegisterName => !is_whitespace(c) && c != ',' && c != ')' && c != '#',
        Class::Identifier => ('a' <= c && c <= 'z') || ('A' <= c && c <= 'Z') || ('0' <= c && c
            <= '9') || c == '_',
        Class::Numeral => c == '-' || c == '+' || ('0' <= c && c <= '9') || ('A' <= c && c
            <= 'F') || c == '_',
        Class::CommentBody => c != '\n',
        Class::StringBody => c != '"',
    }
}

/// Skips the run of characters of `class` that starts at `at`.
pub fn skip(input: &[char], at: usize, class: Class) -> (end: usize)
    ensures
        end == run_end(input@, at, class),
        at <= end,
        at <= input.len() ==> end <= input.len(),
{
    let mut end = at;
    while end < input.len() && member(class, input[end])
        invariant
            at <= end,
            at <= input.len() ==> end <= input.len(),
            run_end(input@, at, class) == run_end(input@, end, class),
        decreases input.len() - end,
    {
        end += 1;
    }
    end
}

/// Whether the input holds the character `c` at `at`.
pub fn at_char(input: &[char], at: usize, c: char) -> (b: bool)
    ensures
        b == (char_at(input@, at) == Some(c)),
{
    at < input.len() && input[at] == c
}

/// Whether the input holds `word` at `at`.
pub fn starts_with(input: &[char], at: usize, word: &str) -> (b: bool)
    ensures
        b == has_prefix(input@, at, word@),
{
    let n = word.unicode_len();
    if at > input.len() || n > input.len() - at {
        return false;
    }
    let mut i: usize = 0;
    while i < n
        invariant
            i <= n,
            n == word@.len(),
            at + n <= input.len(),
            forall|j: int| 0 <= j < i ==> input@[at + j] == word@[j],
        decreases n - i,
    {
        if input[at + i] != word.get_char(i) {
            assert(input@.subrange(at as int, at + n)[i as int] != word@[i as int]);
            return false;
        }
        i += 1;
    }
    assert(input@.subrange(at as int, at + n) =~= word@);
    true
}

/// The characters from `from` up to `to`, as a string.
pub fn text_between(input: &[char], from: usize, to: usize) -> (text: String)
    requires
        from <= to <= input.len(),
    ensures
        text@ == input@.subrange(from as int, to as int),
{
    crate::text::string_of(slice_subrange(input, from, to))
}

} // verus!
