//! Numbers: decimal, or hexadecimal, octal or binary behind `0x`, `0o` or
//! `0b`, with `_` between digits where the writer likes.

use super::scan::{
    char_at, has_prefix, in_class, is_numeral_char, lemma_run_bounds, run_end, skip, starts_with,
    Class,
};
use crate::text::{signed_numeral, string_of, unsigned_numeral, within};
use vstd::prelude::*;
use vstd::slice::slice_subrange;

verus! {

/// The integer type that a number is read as.
#[derive(Debug, Clone, Copy, PartialEq, Eq, Structural)]
pub enum NumberKind {
    /// A signed 64-bit number.
    I64,
    /// An unsigned 32-bit number.
    U32,
    /// An unsigned number of the machine's word size.
    Usize,
}

impl NumberKind {
    /// Whether numbers of the kind take a `-`.
    pub open spec fn signed(self) -> bool {
        self == NumberKind::I64
    }

    /// The least number of the kind.
    pub open spec fn low(self) -> int {
        match self {
            NumberKind::I64 => i64::MIN as int,
            NumberKind::U32 => 0,
            NumberKind::Usize => 0,
        }
    }

    /// The greatest number of the kind.
    pub open spec fn high(self) -> int {
        match self {
            NumberKind::I64 => i64::MAX as int,
            NumberKind::U32 => u32::MAX as int,
            NumberKind::Usize => usize::MAX as int,
        }
    }
}

/// The number that the numeral `text` denotes in `radix` as a number of
/// `kind`, where it denotes one that the kind holds.
pub open spec fn number_value(text: Seq<char>, radix: u32, kind: NumberKind) -> Option<int> {
    within(
        if kind.signed() {
            signed_numeral(text, radix)
        } else {
            unsigned_numeral(text, radix)
        },
        kind.low(),
        kind.high(),
    )
}

/// Calls `num::Num::from_str_radix` for `i64`. Trusted: the text is
/// accepted where it is an optional sign followed by digits of the radix and
/// the number fits, and then that number is returned.
#[verifier::external_body]
fn radix_i64(text: &str, radix: u32) -> (r: Option<i64>)
    requires
        2 <= radix <= 36,
    ensures
        match number_value(text@, radix, NumberKind::I64) {
            Some(v) => r == Some(v as i64),
            None => r is None,
        },
{
    <i64 as num::Num>::from_str_radix(text, radix).ok()
}

/// Calls `num::Num::from_str_radix` for `u32`. Trusted: the text is
/// accepted where it is an optional `+` followed by digits of the radix and
/// the number fits, and then that number is returned.
#[verifier::external_body]
fn radix_u32(text: &str, radix: u32) -> (r: Option<u32>)
    requires
        2 <= radix <= 36,
    ensures
        match number_value(text@, radix, NumberKind::U32) {
            Some(v) => r == Some(v as u32),
            None => r is None,
        },
{
    <u32 as num::Num>::from_str_radix(text, radix).ok()
}

/// Calls `num::Num::from_str_radix` for `usize`. Trusted: the text is
/// accepted where it is an optional `+` followed by digits of the radix and
/// the number fits, and then that number is returned.
#[verifier::external_body]
fn radix_usize(text: &str, radix: u32) -> (r: Option<usize>)
    requires
        2 <= radix <= 36,
    ensures
        match number_value(text@, radix, NumberKind::Usize) {
            Some(v) => r == Some(v as usize),
            None => r is None,
        },
{
    <usize as num::Num>::from_str_radix(text, radix).ok()
}

/// The text without its `_` characters.
pub open spec fn without_underscores(s: Seq<char>) -> Seq<char>
    decreases s.len(),
{
    if s.len() == 0 {
        Seq::empty()
    } else if s.last() == '_' {
        without_underscores(s.drop_last())
    } else {
        without_underscores(s.drop_last()).push(s.last())
    }
}

/// Where the number text that starts at `at` ends: it starts with a sign or
/// a digit and goes on through signs, digits and `_`.
pub open spec fn number_text_end(s: Seq<char>, at: usize) -> Option<usize> {
    match char_at(s, at) {
        Some(c) => if is_numeral_char(c) {
            Some(run_end(s, at, Class::Numeral))
        } else {
            None
        },
        None => None,
    }
}

/// The number of `kind` that stands at `at` in `radix`, and where it ends.
pub open spec fn radix_number(s: Seq<char>, at: usize, radix: u32, kind: NumberKind) -> Option<
    (int, usize),
> {
    match number_text_end(s, at) {
        Some(end) => match number_value(
            without_underscores(s.subrange(at as int, end as int)),
            radix,
            kind,
        ) {
            Some(v) => Some((v, end)),
            None => None,
        },
        None => None,
    }
}

/// The number of `kind` with the two-character `prefix` that stands at `at`.
pub open spec fn prefixed_number(
    s: Seq<char>,
    at: usize,
    prefix: Seq<char>,
    radix: u32,
    kind: NumberKind,
) -> Option<(int, usize)> {
    if has_prefix(s, at, prefix) && at + 2 <= usize::MAX {
        radix_number(s, (at + 2) as usize, radix, kind)
    } else {
        None
    }
}

/// The number of `kind` that stands at `at`: hexadecimal, octal or binary
/// where the prefix says so and digits follow, else decimal.
pub open spec fn number_at(s: Seq<char>, at: usize, kind: NumberKind) -> Option<(int, usize)> {
    if prefixed_number(s, at, "0x"@, 16, kind) is Some {
        prefixed_number(s, at, "0x"@, 16, kind)
    } else if prefixed_number(s, at, "0o"@, 8, kind) is Some {
        prefixed_number(s, at, "0o"@, 8, kind)
    } else if prefixed_number(s, at, "0b"@, 2, kind) is Some {
        prefixed_number(s, at, "0b"@, 2, kind)
    } else {
        radix_number(s, at, 10, kind)
    }
}

/// Whether `r` is the number that `expected` describes.
pub open spec fn same_number(r: Option<(i128, usize)>, expected: Option<(int, usize)>) -> bool {
    match (r, expected) {
        (Some(got), Some(want)) => got.0 == want.0 && got.1 == want.1,
        (None, None) => true,
        _ => false,
    }
}

/// Finds the end of the number text that starts at `at`.
pub fn num_str(input: &[char], at: usize) -> (r: Option<usize>)
    ensures
        r == number_text_end(input@, at),
        r matches Some(end) ==> at < end <= input.len(),
{
    if at < input.len() {
        let c = input[at];
        if c == '-' || c == '+' || ('0' <= c && c <= '9') || ('A' <= c && c <= 'F') {
            let end = skip(input, at, Class::Numeral);
            proof {
                assert(in_class(Class::Numeral, c));
                lemma_run_bounds(input@, (at + 1) as usize, Class::Numeral);
            }
            return Some(end);
        }
    }
    None
}

/// The characters of `input` without the `_` among them.
fn strip(input: &[char]) -> (out: Vec<char>)
    ensures
        out@ == without_underscores(input@),
{
    let mut out: Vec<char> = Vec::new();
    let mut i: usize = 0;
    while i < input.len()
        invariant
            i <= input.len(),
            out@ == without_underscores(input@.take(i as int)),
        decreases input.len() - i,
    {
        proof {
            assert(input@.take(i + 1).drop_last() =~= input@.take(i as int));
        }
        if input[i] != '_' {
            out.push(input[i]);
        }
        i += 1;
    }
    assert(input@.take(i as int) =~= input@);
    out
}

/// Reads the number of `kind` that stands at `at` in `radix`.
fn number_in(input: &[char], at: usize, radix: u32, kind: NumberKind) -> (r: Option<
    (i128, usize),
>)
    requires
        2 <= radix <= 36,
    ensures
        same_number(r, radix_number(input@, at, radix, kind)),
        r matches Some(n) ==> kind.low() <= n.0 <= kind.high() && at < n.1 <= input.len(),
{
    let end = match num_str(input, at) {
        Some(end) => end,
        None => {
            return None;
        },
    };
    let digits = strip(slice_subrange(input, at, end));
    let text = string_of(digits.as_slice());
    match kind {
        NumberKind::I64 => match radix_i64(text.as_str(), radix) {
            Some(v) => Some((v as i128, end)),
            None => None,
        },
        NumberKind::U32 => match radix_u32(text.as_str(), radix) {
            Some(v) => Some((v as i128, end)),
            None => None,
        },
        NumberKind::Usize => match radix_usize(text.as_str(), radix) {
            Some(v) => Some((v as i128, end)),
            None => None,
        },
    }
}

/// Reads a number behind a two-character prefix.
fn number_behind(input: &[char], at: usize, prefix: &str, radix: u32, kind: NumberKind) -> (r:
    Option<(i128, usize)>)
    requires
        2 <= radix <= 36,
        prefix@.len() == 2,
    ensures
        same_number(r, prefixed_number(input@, at, prefix@, radix, kind)),
        r matches Some(n) ==> kind.low() <= n.0 <= kind.high() && at < n.1 <= input.len(),
{
    if starts_with(input, at, prefix) {
        let n = input.len();
        assert(at + 2 <= n);
        number_in(input, at + 2, radix, kind)
    } else {
        None
    }
}

/// Reads a decimal number of `kind` at `at`.
pub fn dec(input: &[char], at: usize, kind: NumberKind) -> (r: Option<(i128, usize)>)
    ensures
        same_number(r, radix_number(input@, at, 10, kind)),
        r matches Some(n) ==> kind.low() <= n.0 <= kind.high() && at < n.1 <= input.len(),
{
    number_in(input, at, 10, kind)
}

/// Reads a hexadecimal number of `kind` behind `0x` at `at`.
pub fn hex(input: &[char], at: usize, kind: NumberKind) -> (r: Option<(i128, usize)>)
    ensures
        same_number(r, prefixed_number(input@, at, "0x"@, 16, kind)),
        r matches Some(n) ==> kind.low() <= n.0 <= kind.high() && at < n.1 <= input.len(),
{
    proof {
        reveal_strlit("0x");
    }
    number_behind(input, at, "0x", 16, kind)
}

/// Reads an octal number of `kind` behind `0o` at `at`.
pub fn oct(input: &[char], at: usize, kind: NumberKind) -> (r: Option<(i128, usize)>)
    ensures
        same_number(r, prefixed_number(input@, at, "0o"@, 8, kind)),
        r matches Some(n) ==> kind.low() <= n.0 <= kind.high() && at < n.1 <= input.len(),
{
    proof {
        reveal_strlit("0o");
    }
    number_behind(input, at, "0o", 8, kind)
}

/// Reads a binary number of `kind` behind `0b` at `at`.
pub fn bin(input: &[char], at: usize, kind: NumberKind) -> (r: Option<(i128, usize)>)
    ensures
        same_number(r, prefixed_number(input@, at, "0b"@, 2, kind)),
        r matches Some(n) ==> kind.low() <= n.0 <= kind.high() && at < n.1 <= input.len(),
{
    proof {
        reveal_strlit("0b");
    }
    number_behind(input, at, "0b", 2, kind)
}

/// Reads the number of `kind` that stands at `at`, in whichever of the four
/// notations it is written.
pub fn integer(input: &[char], at: usize, kind: NumberKind) -> (r: Option<(i128, usize)>)
    ensures
        same_number(r, number_at(input@, at, kind)),
        r matches Some(n) ==> kind.low() <= n.0 <= kind.high() && at < n.1 <= input.len(),
{
    match hex(input, at, kind) {
        Some(n) => Some(n),
        None => match oct(input, at, kind) {
            Some(n) => Some(n),
            None => match bin(input, at, kind) {
                Some(n) => Some(n),
                None => dec(input, at, kind),
            },
        },
    }
}

} // verus!
