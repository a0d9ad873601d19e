//! The data directives.

use super::label::parsed;
use super::model::instruction::{le_bytes, word_bytes};
use super::model::{Instruction, InstructionView, Line, LineView, Segment};
use super::numbers::{integer, number_at, NumberKind};
use super::scan::{at_char, char_at, run_end, skip, Class, Expected, ParseError};
use crate::text::string_of;
use vstd::prelude::*;
use vstd::slice::slice_subrange;
use vstd::string::StringSliceAdditionalSpecFns;
use vstd::utf8::encode_utf8;

verus! {

/// The text of a string literal with its escapes resolved: `\n` is a line
/// feed and `\0` the zero character.
pub open spec fn unescaped(s: Seq<char>) -> Seq<char>
    decreases s.len(),
{
    if s.len() == 0 {
        Seq::empty()
    } else if s.len() >= 2 && s[0] == '\\' && s[1] == 'n' {
        seq!['\n'] + unescaped(s.skip(2))
    } else if s.len() >= 2 && s[0] == '\\' && s[1] == '0' {
        seq!['\0'] + unescaped(s.skip(2))
    } else {
        seq![s[0]] + unescaped(s.skip(1))
    }
}

/// Resolves the escapes of a string literal.
pub fn unescape(text: &[char]) -> (out: Vec<char>)
    ensures
        out@ == unescaped(text@),
{
    let mut out: Vec<char> = Vec::new();
    let mut i: usize = 0;
    proof {
        assert(text@.skip(0) =~= text@);
        assert(out@ + unescaped(text@) =~= unescaped(text@));
    }
    while i < text.len()
        invariant
            i <= text.len(),
            unescaped(text@) == out@ + unescaped(text@.skip(i as int)),
        decreases text.len() - i,
    {
        let rest = Ghost(text@.skip(i as int));
        let escape = text[i] == '\\' && i + 1 < text.len();
        if escape && text[i + 1] == 'n' {
            proof {
                assert(rest@.skip(2) =~= text@.skip(i + 2));
                assert(out@.push('\n') + unescaped(rest@.skip(2)) =~= out@ + (seq!['\n']
                    + unescaped(rest@.skip(2))));
            }
            out.push('\n');
            i += 2;
        } else if escape && text[i + 1] == '0' {
            proof {
                assert(rest@.skip(2) =~= text@.skip(i + 2));
                assert(out@.push('\0') + unescaped(rest@.skip(2)) =~= out@ + (seq!['\0']
                    + unescaped(rest@.skip(2))));
            }
            out.push('\0');
            i += 2;
        } else {
            proof {
                assert(rest@.skip(1) =~= text@.skip(i + 1));
                assert(out@.push(text@[i as int]) + unescaped(rest@.skip(1)) =~= out@ + (
                seq![text@[i as int]] + unescaped(rest@.skip(1))));
            }
            out.push(text[i]);
            i += 1;
        }
    }
    assert(out@ + Seq::<char>::empty() =~= out@);
    out
}

/// Word `index` of `bytes`: four bytes from `4 * index` on, with zeros
/// where the bytes run out.
pub open spec fn padded_word(bytes: Seq<u8>, index: int) -> InstructionView {
    InstructionView::Literal {
        data: Seq::new(
            4,
            |k: int|
                if 4 * index + k < bytes.len() {
                    bytes[4 * index + k]
                } else {
                    0u8
                },
        ),
    }
}

/// `bytes` cut into words of four bytes, the last one filled up with zeros.
pub open spec fn in_words(bytes: Seq<u8>) -> Seq<InstructionView> {
    Seq::new(((bytes.len() + 3) / 4) as nat, |i: int| padded_word(bytes, i))
}

/// Byte `at` of `bytes`, or zero behind their end.
fn byte_or_zero(bytes: &[u8], at: usize) -> (b: u8)
    ensures
        b == (if at < bytes@.len() {
            bytes@[at as int]
        } else {
            0u8
        }),
{
    if at < bytes.len() {
        bytes[at]
    } else {
        0
    }
}

/// Cuts `bytes` into words of four bytes.
pub fn words_of(bytes: &[u8]) -> (line: Line)
    ensures
        line@ == LineView::Instruction(in_words(bytes@)),
{
    let mut words: Vec<Instruction> = Vec::new();
    let n = bytes.len();
    let extra: usize = if n % 4 == 0 {
        0
    } else {
        1
    };
    let count = n / 4 + extra;
    while words.len() < count
        invariant
            n == bytes@.len(),
            count == (n + 3) / 4,
            words@.len() <= count,
            forall|i: int| 0 <= i < words@.len() ==> (#[trigger] words@[i])@ == padded_word(bytes@, i),
        decreases (n + 3) / 4 - words@.len(),
    {
        let i = words.len() * 4;
        let mut data: Vec<u8> = Vec::new();
        data.push(byte_or_zero(bytes, i));
        data.push(byte_or_zero(bytes, i + 1));
        data.push(byte_or_zero(bytes, i + 2));
        data.push(byte_or_zero(bytes, i + 3));
        let word = Instruction::Literal { data };
        proof {
            assert(word@->Literal_data =~= padded_word(bytes@, words@.len() as int)->Literal_data);
        }
        words.push(word);
    }
    let line = Line::Instruction(words);
    assert(line@->Instruction_0 =~= in_words(bytes@));
    line
}

/// The string literal at `at`: behind any whitespace, text between two `"`,
/// and an optional comma. Gives the text between the quotes and where the
/// literal ends.
pub open spec fn string_literal_at(s: Seq<char>, at: usize) -> Result<
    (Seq<char>, usize),
    ParseError,
> {
    let open = run_end(s, at, Class::Multispace);
    if char_at(s, open) != Some('"') {
        Err(ParseError { at: open, expected: Expected::Quote })
    } else {
        let close = run_end(s, (open + 1) as usize, Class::StringBody);
        if char_at(s, close) != Some('"') {
            Err(ParseError { at: close, expected: Expected::Quote })
        } else if char_at(s, (close + 1) as usize) == Some(',') {
            Ok((s.subrange(open + 1, close as int), (close + 2) as usize))
        } else {
            Ok((s.subrange(open + 1, close as int), (close + 1) as usize))
        }
    }
}

/// Finds the string literal at `at`: where its text starts and ends, and
/// where the literal ends.
fn string_literal(input: &[char], at: usize) -> (r: Result<(usize, usize, usize), ParseError>)
    requires
        at <= input.len(),
    ensures
        match r {
            Ok(found) => string_literal_at(input@, at) == Ok::<(Seq<char>, usize), ParseError>(
                (input@.subrange(found.0 as int, found.1 as int), found.2),
            ) && at < found.0 <= found.1 < found.2 <= input.len(),
            Err(e) => string_literal_at(input@, at) == Err::<(Seq<char>, usize), ParseError>(e),
        },
{
    let open = skip(input, at, Class::Multispace);
    if !at_char(input, open, '"') {
        return Err(ParseError { at: open, expected: Expected::Quote });
    }
    let close = skip(input, open + 1, Class::StringBody);
    if !at_char(input, close, '"') {
        return Err(ParseError { at: close, expected: Expected::Quote });
    }
    if at_char(input, close + 1, ',') {
        Ok((open + 1, close, close + 2))
    } else {
        Ok((open + 1, close, close + 1))
    }
}

/// `.ascii "<text>"`: the bytes of the text in UTF-8, in words.
pub open spec fn ascii_at(s: Seq<char>, at: usize) -> Result<(LineView, usize), ParseError> {
    match string_literal_at(s, at) {
        Err(e) => Err(e),
        Ok(found) => Ok(
            (LineView::Instruction(in_words(encode_utf8(unescaped(found.0)))), found.1),
        ),
    }
}

/// `.asciiz "<text>"`: the bytes of the text in UTF-8 and a zero byte, in
/// words.
pub open spec fn asciiz_at(s: Seq<char>, at: usize) -> Result<(LineView, usize), ParseError> {
    match string_literal_at(s, at) {
        Err(e) => Err(e),
        Ok(found) => Ok(
            (
                LineView::Instruction(in_words(encode_utf8(unescaped(found.0)).push(0u8))),
                found.1,
            ),
        ),
    }
}

/// Reads the operand of `.ascii`.
pub fn ascii_lit(input: &[char], at: usize) -> (r: Result<(Line, usize), ParseError>)
    requires
        at <= input.len(),
    ensures
        parsed(r) == ascii_at(input@, at),
        r matches Ok(done) ==> at <= done.1 <= input.len(),
{
    let (from, to, end) = string_literal(input, at)?;
    let chars = unescape(slice_subrange(input, from, to));
    let text = string_of(chars.as_slice());
    Ok((words_of(text.as_str().as_bytes()), end))
}

/// Reads the operand of `.asciiz`.
pub fn asciiz_lit(input: &[char], at: usize) -> (r: Result<(Line, usize), ParseError>)
    requires
        at <= input.len(),
    ensures
        parsed(r) == asciiz_at(input@, at),
        r matches Ok(done) ==> at <= done.1 <= input.len(),
{
    let (from, to, end) = string_literal(input, at)?;
    let chars = unescape(slice_subrange(input, from, to));
    let text = string_of(chars.as_slice());
    let mut bytes = text.as_str().as_bytes_vec();
    bytes.push(0);
    Ok((words_of(bytes.as_slice()), end))
}

/// The low `width` bytes of the number `v`, least significant first.
pub open spec fn number_bytes(v: int, width: int) -> Seq<u8> {
    le_bytes((v as i64) as u32).take(width)
}

/// The numbers from `at` on, each behind any whitespace and with an
/// optional comma behind it, each as `width` bytes; and where they end.
pub open spec fn numbers_at(s: Seq<char>, at: usize, width: int) -> (Seq<InstructionView>, usize)
    decreases s.len() - at,
{
    match number_at(s, run_end(s, at, Class::Multispace), NumberKind::I64) {
        None => (Seq::empty(), at),
        Some(n) => {
            let next = if char_at(s, n.1) == Some(',') {
                (n.1 + 1) as usize
            } else {
                n.1
            };
            if at < next <= s.len() {
                let rest = numbers_at(s, next, width);
                (
                    seq![InstructionView::Literal { data: number_bytes(n.0, width) }] + rest.0,
                    rest.1,
                )
            } else {
                (Seq::empty(), at)
            }
        },
    }
}

/// A directive that takes one number or more, each laid down in `width`
/// bytes.
pub open spec fn literals_at(s: Seq<char>, at: usize, width: int) -> Result<
    (LineView, usize),
    ParseError,
> {
    if numbers_at(s, at, width).0.len() == 0 {
        Err(ParseError { at: run_end(s, at, Class::Multispace), expected: Expected::Number })
    } else {
        Ok((LineView::Instruction(numbers_at(s, at, width).0), numbers_at(s, at, width).1))
    }
}

/// Reads the numbers of a directive.
fn literals(input: &[char], at: usize, width: usize) -> (r: Result<(Line, usize), ParseError>)
    requires
        at <= input.len(),
        width == 1 || width == 2 || width == 4,
    ensures
        parsed(r) == literals_at(input@, at, width as int),
        r matches Ok(done) ==> at <= done.1 <= input.len(),
{
    let mut units: Vec<Instruction> = Vec::new();
    let mut next = at;
    let ghost mut views: Seq<InstructionView> = Seq::empty();
    proof {
        assert(views + numbers_at(input@, at, width as int).0 =~= numbers_at(
            input@,
            at,
            width as int,
        ).0);
    }
    loop
        invariant
            at <= next <= input.len(),
            width == 1 || width == 2 || width == 4,
            views.len() == units@.len(),
            forall|i: int| 0 <= i < units@.len() ==> (#[trigger] units@[i])@ == views[i],
            numbers_at(input@, at, width as int).0 == views + numbers_at(
                input@,
                next,
                width as int,
            ).0,
            numbers_at(input@, at, width as int).1 == numbers_at(input@, next, width as int).1,
            at < next || units@.len() == 0,
        ensures
            numbers_at(input@, next, width as int).0.len() == 0,
            numbers_at(input@, next, width as int).1 == next,
        decreases input.len() - next,
    {
        let start = skip(input, next, Class::Multispace);
        match integer(input, start, NumberKind::I64) {
            None => {
                proof {
                    assert(views + Seq::<InstructionView>::empty() =~= views);
                }
                break ;
            },
            Some(n) => {
                let number = n.0 as i64;
                #[verifier::truncate]
                let word = number as u32;
                let mut data = word_bytes(word);
                data.truncate(width);
                let unit = Instruction::Literal { data };
                let after = if at_char(input, n.1, ',') {
                    n.1 + 1
                } else {
                    n.1
                };
                proof {
                    let rest = numbers_at(input@, after, width as int).0;
                    assert(unit@ == (InstructionView::Literal {
                        data: number_bytes(n.0 as int, width as int),
                    }));
                    assert(views.push(unit@) + rest =~= views + (seq![unit@] + rest));
                    views = views.push(unit@);
                }
                units.push(unit);
                next = after;
            },
        }
    }
    if units.len() == 0 {
        proof {
            assert(views + numbers_at(input@, next, width as int).0 =~= views);
        }
        Err(ParseError { at: skip(input, at, Class::Multispace), expected: Expected::Number })
    } else {
        let line = Line::Instruction(units);
        proof {
            assert(line@->Instruction_0 =~= views);
            assert(views + numbers_at(input@, next, width as int).0 =~= views);
        }
        Ok((line, next))
    }
}

/// `.word <n>[,<n>]*`: each number as four bytes.
pub open spec fn word_at(s: Seq<char>, at: usize) -> Result<(LineView, usize), ParseError> {
    literals_at(s, at, 4)
}

/// Reads the operands of `.word`.
pub fn word_lit(input: &[char], at: usize) -> (r: Result<(Line, usize), ParseError>)
    requires
        at <= input.len(),
    ensures
        parsed(r) == word_at(input@, at),
        r matches Ok(done) ==> at <= done.1 <= input.len(),
{
    literals(input, at, 4)
}

/// `.half <n>[,<n>]*`: each number as two bytes.
pub open spec fn half_at(s: Seq<char>, at: usize) -> Result<(LineView, usize), ParseError> {
    literals_at(s, at, 2)
}

/// Reads the operands of `.half`.
pub fn half_lit(input: &[char], at: usize) -> (r: Result<(Line, usize), ParseError>)
    requires
        at <= input.len(),
    ensures
        parsed(r) == half_at(input@, at),
        r matches Ok(done) ==> at <= done.1 <= input.len(),
{
    literals(input, at, 2)
}

/// `.byte <n>[,<n>]*`: each number as one byte.
pub open spec fn byte_at(s: Seq<char>, at: usize) -> Result<(LineView, usize), ParseError> {
    literals_at(s, at, 1)
}

/// Reads the operands of `.byte`.
pub fn byte_lit(input: &[char], at: usize) -> (r: Result<(Line, usize), ParseError>)
    requires
        at <= input.len(),
    ensures
        parsed(r) == byte_at(input@, at),
        r matches Ok(done) ==> at <= done.1 <= input.len(),
{
    literals(input, at, 1)
}

/// `.space <n>`: `n` zero bytes.
pub open spec fn space_at(s: Seq<char>, at: usize) -> Result<(LineView, usize), ParseError> {
    match number_at(s, at, NumberKind::Usize) {
        None => Err(ParseError { at, expected: Expected::Number }),
        Some(n) => Ok(
            (
                LineView::Instruction(
                    seq![InstructionView::Literal { data: Seq::new(n.0 as nat, |i: int| 0u8) }],
                ),
                n.1,
            ),
        ),
    }
}

/// Reads the operand of `.space`.
pub fn space(input: &[char], at: usize) -> (r: Result<(Line, usize), ParseError>)
    requires
        at <= input.len(),
    ensures
        parsed(r) == space_at(input@, at),
        r matches Ok(done) ==> at <= done.1 <= input.len(),
{
    match integer(input, at, NumberKind::Usize) {
        None => Err(ParseError { at, expected: Expected::Number }),
        Some(n) => {
            let count = n.0 as usize;
            let mut data: Vec<u8> = Vec::new();
            while data.len() < count
                invariant
                    data@.len() <= count,
                    forall|i: int| 0 <= i < data@.len() ==> data@[i] == 0u8,
                decreases count - data@.len(),
            {
                data.push(0);
            }
            assert(data@ =~= Seq::new(n.0 as nat, |i: int| 0u8));
            let mut units: Vec<Instruction> = Vec::new();
            units.push(Instruction::Literal { data });
            let line = Line::Instruction(units);
            assert(line@->Instruction_0 =~= seq![
                InstructionView::Literal { data: Seq::new(n.0 as nat, |i: int| 0u8) },
            ]);
            Ok((line, n.1))
        },
    }
}

/// `.text` or `.data`: a switch to the segment.
pub open spec fn segment_at(at: usize, seg: Segment) -> Result<(LineView, usize), ParseError> {
    Ok((LineView::Segment(seg), at))
}

/// Makes the line of a segment directive, which takes no operand.
pub fn segment(input: &[char], at: usize, seg: Segment) -> (r: Result<(Line, usize), ParseError>)
    ensures
        parsed(r) == segment_at(at, seg),
{
    Ok((Line::Segment(seg), at))
}

} // verus!
