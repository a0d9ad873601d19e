//! Register operands.

use super::scan::{at_char, char_at, run_end, skip, text_between, Class, Expected, ParseError};
use crate::register::{register_from_text, Register};
use vstd::prelude::*;

verus! {

/// The register whose name starts at `at` and runs up to whitespace, `,`,
/// `)` or `#`.
pub open spec fn register_name_at(s: Seq<char>, at: usize) -> Result<
    (Register, usize),
    ParseError,
> {
    let end = run_end(s, at, Class::RegisterName);
    match register_from_text(s.subrange(at as int, end as int)) {
        Ok(register) => Ok((register, end)),
        Err(_) => Err(ParseError { at, expected: Expected::Register }),
    }
}

/// The register operand at `at`: a `$` and the name of a register.
pub open spec fn register_at(s: Seq<char>, at: usize) -> Result<(Register, usize), ParseError> {
    if char_at(s, at) == Some('$') {
        register_name_at(s, (at + 1) as usize)
    } else {
        Err(ParseError { at, expected: Expected::Dollar })
    }
}

/// Reads the name of a register.
pub fn register_name(input: &[char], at: usize) -> (r: Result<(Register, usize), ParseError>)
    requires
        at <= input.len(),
    ensures
        r == register_name_at(input@, at),
        r matches Ok(done) ==> at <= done.1 <= input.len() && done.0.valid(),
{
    let end = skip(input, at, Class::RegisterName);
    let name = text_between(input, at, end);
    match Register::from_name(name.as_str()) {
        Ok(register) => Ok((register, end)),
        Err(_) => Err(ParseError { at, expected: Expected::Register }),
    }
}

/// Reads a register operand.
pub fn register(input: &[char], at: usize) -> (r: Result<(Register, usize), ParseError>)
    requires
        at <= input.len(),
    ensures
        r == register_at(input@, at),
        r matches Ok(done) ==> at < done.1 <= input.len() && done.0.valid(),
{
    if at_char(input, at, '$') {
        register_name(input, at + 1)
    } else {
        Err(ParseError { at, expected: Expected::Dollar })
    }
}

} // verus!
