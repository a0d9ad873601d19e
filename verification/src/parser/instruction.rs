//! The operand forms of the instructions and pseudo-instructions.

use super::label::{identifier, identifier_end, parsed};
use super::model::{Imm, ImmView, Instruction, InstructionView, Line, LineView, Opcode, Symbol, SymbolView};
use super::numbers::{integer, number_at, NumberKind};
use super::register::{register, register_at};
use super::scan::{
    at_char, char_at, run_end, skip, text_between, Class, Expected, ParseError,
};
use crate::register::{Register, AT, ZERO};
use vstd::prelude::*;

verus! {

/// Where the separator that starts at `at` ends: spaces, an optional comma,
/// spaces.
pub open spec fn separator_end(s: Seq<char>, at: usize) -> usize {
    let comma = run_end(s, at, Class::Space);
    if char_at(s, comma) == Some(',') {
        run_end(s, (comma + 1) as usize, Class::Space)
    } else {
        comma
    }
}

/// Skips a separator.
pub fn separator(input: &[char], at: usize) -> (end: usize)
    requires
        at <= input.len(),
    ensures
        end == separator_end(input@, at),
        at <= end <= input.len(),
{
    let comma = skip(input, at, Class::Space);
    if at_char(input, comma, ',') {
        skip(input, comma + 1, Class::Space)
    } else {
        comma
    }
}

/// The register operand behind the separator at `at`.
pub open spec fn next_register_at(s: Seq<char>, at: usize) -> Result<(Register, usize), ParseError> {
    register_at(s, separator_end(s, at))
}

/// Reads a separator and a register operand.
fn next_register(input: &[char], at: usize) -> (r: Result<(Register, usize), ParseError>)
    requires
        at <= input.len(),
    ensures
        r == next_register_at(input@, at),
        r matches Ok(done) ==> at < done.1 <= input.len(),
{
    register(input, separator(input, at))
}

/// The immediate operand at `at`: behind any spaces, a number or the name
/// of a label.
pub open spec fn immediate_at(s: Seq<char>, at: usize) -> Result<(ImmView, usize), ParseError> {
    let start = run_end(s, at, Class::Space);
    match number_at(s, start, NumberKind::I64) {
        Some(n) => Ok((ImmView::Value(n.0 as i64), n.1)),
        None => match identifier_end(s, start) {
            Some(end) => Ok((ImmView::Label(s.subrange(start as int, end as int)), end)),
            None => Err(ParseError { at: start, expected: Expected::Immediate }),
        },
    }
}

/// The view of a parsing result that holds an immediate.
pub open spec fn parsed_immediate(r: Result<(Imm, usize), ParseError>) -> Result<
    (ImmView, usize),
    ParseError,
> {
    match r {
        Ok(done) => Ok((done.0@, done.1)),
        Err(e) => Err(e),
    }
}

/// Reads an immediate operand.
pub fn immediate(input: &[char], at: usize) -> (r: Result<(Imm, usize), ParseError>)
    requires
        at <= input.len(),
    ensures
        parsed_immediate(r) == immediate_at(input@, at),
        r matches Ok(done) ==> at < done.1 <= input.len(),
{
    let start = skip(input, at, Class::Space);
    match integer(input, start, NumberKind::I64) {
        Some(n) => Ok((Imm::Value(n.0 as i64), n.1)),
        None => match identifier(input, start) {
            Some(end) => Ok((Imm::Label(text_between(input, start, end)), end)),
            None => Err(ParseError { at: start, expected: Expected::Immediate }),
        },
    }
}

/// The jump target at `at`: behind any spaces, an address or the name of a
/// label.
pub open spec fn symbol_at(s: Seq<char>, at: usize) -> Result<(SymbolView, usize), ParseError> {
    let start = run_end(s, at, Class::Space);
    match number_at(s, start, NumberKind::U32) {
        Some(n) => Ok((SymbolView::Address(n.0 as u32), n.1)),
        None => match identifier_end(s, start) {
            Some(end) => Ok((SymbolView::Label(s.subrange(start as int, end as int)), end)),
            None => Err(ParseError { at: start, expected: Expected::Immediate }),
        },
    }
}

/// The view of a parsing result that holds a jump target.
pub open spec fn parsed_symbol(r: Result<(Symbol, usize), ParseError>) -> Result<
    (SymbolView, usize),
    ParseError,
> {
    match r {
        Ok(done) => Ok((done.0@, done.1)),
        Err(e) => Err(e),
    }
}

/// Reads a jump target.
pub fn symbol(input: &[char], at: usize) -> (r: Result<(Symbol, usize), ParseError>)
    requires
        at <= input.len(),
    ensures
        parsed_symbol(r) == symbol_at(input@, at),
        r matches Ok(done) ==> at < done.1 <= input.len(),
{
    let start = skip(input, at, Class::Space);
    match integer(input, start, NumberKind::U32) {
        Some(n) => Ok((Symbol::Address(n.0 as u32), n.1)),
        None => match identifier(input, start) {
            Some(end) => Ok((Symbol::Label(text_between(input, start, end)), end)),
            None => Err(ParseError { at: start, expected: Expected::Immediate }),
        },
    }
}

/// The word of zeros that fills a slot behind a branch or a jump.
pub open spec fn shadow() -> InstructionView {
    InstructionView::Literal { data: seq![0u8, 0u8, 0u8, 0u8] }
}

/// A word of zeros.
pub fn shadow_word() -> (word: Instruction)
    ensures
        word@ == shadow(),
{
    let mut data: Vec<u8> = Vec::new();
    data.push(0);
    data.push(0);
    data.push(0);
    data.push(0);
    assert(data@ =~= seq![0u8, 0u8, 0u8, 0u8]);
    Instruction::Literal { data }
}

/// One instruction as a line.
pub open spec fn one(first: InstructionView) -> LineView {
    LineView::Instruction(seq![first])
}

/// An instruction and the two words that fill the slots behind it.
pub open spec fn shadowed(first: InstructionView) -> LineView {
    LineView::Instruction(seq![first, shadow(), shadow()])
}

/// Makes a line of one instruction.
fn line_of_one(first: Instruction) -> (line: Line)
    ensures
        line@ == one(first@),
{
    let mut units: Vec<Instruction> = Vec::new();
    units.push(first);
    let line = Line::Instruction(units);
    assert(line@->Instruction_0 =~= seq![first@]);
    line
}

/// Makes a line of two instructions.
fn line_of_two(first: Instruction, second: Instruction) -> (line: Line)
    ensures
        line@ == LineView::Instruction(seq![first@, second@]),
{
    let mut units: Vec<Instruction> = Vec::new();
    units.push(first);
    units.push(second);
    let line = Line::Instruction(units);
    assert(line@->Instruction_0 =~= seq![first@, second@]);
    line
}

/// Makes a line of an instruction and its two shadow words.
fn line_with_shadows(first: Instruction) -> (line: Line)
    ensures
        line@ == shadowed(first@),
{
    let mut units: Vec<Instruction> = Vec::new();
    units.push(first);
    units.push(shadow_word());
    units.push(shadow_word());
    let line = Line::Instruction(units);
    assert(line@->Instruction_0 =~= seq![first@, shadow(), shadow()]);
    line
}

/// A jump: `<op> <target>`, and two shadow words.
pub open spec fn j_type_at(s: Seq<char>, at: usize, op: Opcode) -> Result<
    (LineView, usize),
    ParseError,
> {
    match symbol_at(s, at) {
        Err(e) => Err(e),
        Ok(target) => Ok((shadowed(InstructionView::J { op, addr: target.0 }), target.1)),
    }
}

/// Reads the operand of a jump.
pub fn j_type(input: &[char], at: usize, op: Opcode) -> (r: Result<(Line, usize), ParseError>)
    requires
        at <= input.len(),
    ensures
        parsed(r) == j_type_at(input@, at, op),
        r matches Ok(done) ==> at <= done.1 <= input.len(),
{
    let (addr, end) = symbol(input, at)?;
    Ok((line_with_shadows(Instruction::J { op, addr }), end))
}

/// A jump through a register: `<op> <rs>`, and two shadow words.
pub open spec fn jr_type_at(s: Seq<char>, at: usize, op: Opcode) -> Result<
    (LineView, usize),
    ParseError,
> {
    match register_at(s, at) {
        Err(e) => Err(e),
        Ok(rs) => Ok(
            (
                shadowed(
                    InstructionView::R {
                        op,
                        rd: Register(ZERO),
                        rs: rs.0,
                        rt: Register(ZERO),
                        shamt: 0,
                    },
                ),
                rs.1,
            ),
        ),
    }
}

/// Reads the operand of a jump through a register.
pub fn jr_type(input: &[char], at: usize, op: Opcode) -> (r: Result<(Line, usize), ParseError>)
    requires
        at <= input.len(),
    ensures
        parsed(r) == jr_type_at(input@, at, op),
        r matches Ok(done) ==> at <= done.1 <= input.len(),
{
    let (rs, end) = register(input, at)?;
    Ok(
        (
            line_with_shadows(
                Instruction::R { op, rd: Register(ZERO), rs, rt: Register(ZERO), shamt: 0 },
            ),
            end,
        ),
    )
}

/// Three registers: `<op> <rd>, <rs>, <rt>`.
pub open spec fn r_type_at(s: Seq<char>, at: usize, op: Opcode) -> Result<
    (LineView, usize),
    ParseError,
> {
    match register_at(s, at) {
        Err(e) => Err(e),
        Ok(rd) => match next_register_at(s, rd.1) {
            Err(e) => Err(e),
            Ok(rs) => match next_register_at(s, rs.1) {
                Err(e) => Err(e),
                Ok(rt) => Ok(
                    (one(InstructionView::R { op, rd: rd.0, rs: rs.0, rt: rt.0, shamt: 0 }), rt.1),
                ),
            },
        },
    }
}

/// Reads the operands of an instruction on three registers.
pub fn r_type(input: &[char], at: usize, op: Opcode) -> (r: Result<(Line, usize), ParseError>)
    requires
        at <= input.len(),
    ensures
        parsed(r) == r_type_at(input@, at, op),
        r matches Ok(done) ==> at <= done.1 <= input.len(),
{
    let (rd, a) = register(input, at)?;
    let (rs, b) = next_register(input, a)?;
    let (rt, end) = next_register(input, b)?;
    Ok((line_of_one(Instruction::R { op, rd, rs, rt, shamt: 0 }), end))
}

/// The number that the shift amount `v` puts into an instruction.
pub open spec fn shift_amount(v: int) -> u32 {
    (v as i64) as u32
}

/// A shift: `<op> <rd>, <rt>, <amount>`.
pub open spec fn shift_type_at(s: Seq<char>, at: usize, op: Opcode) -> Result<
    (LineView, usize),
    ParseError,
> {
    match register_at(s, at) {
        Err(e) => Err(e),
        Ok(rd) => match next_register_at(s, rd.1) {
            Err(e) => Err(e),
            Ok(rt) => match number_at(s, separator_end(s, rt.1), NumberKind::I64) {
                None => Err(
                    ParseError { at: separator_end(s, rt.1), expected: Expected::Number },
                ),
                Some(amount) => Ok(
                    (
                        one(
                            InstructionView::R {
                                op,
                                rd: rd.0,
                                rs: Register(ZERO),
                                rt: rt.0,
                                shamt: shift_amount(amount.0),
                            },
                        ),
                        amount.1,
                    ),
                ),
            },
        },
    }
}

/// Reads the operands of a shift.
pub fn shift_type(input: &[char], at: usize, op: Opcode) -> (r: Result<(Line, usize), ParseError>)
    requires
        at <= input.len(),
    ensures
        parsed(r) == shift_type_at(input@, at, op),
        r matches Ok(done) ==> at <= done.1 <= input.len(),
{
    let (rd, a) = register(input, at)?;
    let (rt, b) = next_register(input, a)?;
    let start = separator(input, b);
    match integer(input, start, NumberKind::I64) {
        None => Err(ParseError { at: start, expected: Expected::Number }),
        Some(amount) => {
            #[verifier::truncate]
            let shamt = (amount.0 as i64) as u32;
            Ok(
                (
                    line_of_one(Instruction::R { op, rd, rs: Register(ZERO), rt, shamt }),
                    amount.1,
                ),
            )
        },
    }
}

/// An immediate operation: `<op> <rt>, <rs>, <imm>`.
pub open spec fn i_type_at(s: Seq<char>, at: usize, op: Opcode) -> Result<
    (LineView, usize),
    ParseError,
> {
    match register_at(s, at) {
        Err(e) => Err(e),
        Ok(rt) => match next_register_at(s, rt.1) {
            Err(e) => Err(e),
            Ok(rs) => match immediate_at(s, separator_end(s, rs.1)) {
                Err(e) => Err(e),
                Ok(imm) => Ok(
                    (one(InstructionView::I { op, rt: rt.0, rs: rs.0, imm: imm.0 }), imm.1),
                ),
            },
        },
    }
}

/// Reads the operands of an instruction with an immediate.
pub fn i_type(input: &[char], at: usize, op: Opcode) -> (r: Result<(Line, usize), ParseError>)
    requires
        at <= input.len(),
    ensures
        parsed(r) == i_type_at(input@, at, op),
        r matches Ok(done) ==> at <= done.1 <= input.len(),
{
    let (rt, a) = register(input, at)?;
    let (rs, b) = next_register(input, a)?;
    let (imm, end) = immediate(input, separator(input, b))?;
    Ok((line_of_one(Instruction::I { op, rt, rs, imm }), end))
}

/// Load upper immediate: `<op> <rt>, <imm>`.
pub open spec fn lui_at(s: Seq<char>, at: usize, op: Opcode) -> Result<
    (LineView, usize),
    ParseError,
> {
    match register_at(s, at) {
        Err(e) => Err(e),
        Ok(rt) => match immediate_at(s, separator_end(s, rt.1)) {
            Err(e) => Err(e),
            Ok(imm) => Ok(
                (
                    one(InstructionView::I { op, rt: rt.0, rs: Register(ZERO), imm: imm.0 }),
                    imm.1,
                ),
            ),
        },
    }
}

/// Reads the operands of `lui`.
pub fn lui(input: &[char], at: usize, op: Opcode) -> (r: Result<(Line, usize), ParseError>)
    requires
        at <= input.len(),
    ensures
        parsed(r) == lui_at(input@, at, op),
        r matches Ok(done) ==> at <= done.1 <= input.len(),
{
    let (rt, a) = register(input, at)?;
    let (imm, end) = immediate(input, separator(input, a))?;
    Ok((line_of_one(Instruction::I { op, rt, rs: Register(ZERO), imm }), end))
}

/// A load or a store: `<op> <rt>, <imm>(<rs>)`.
pub open spec fn load_type_at(s: Seq<char>, at: usize, op: Opcode) -> Result<
    (LineView, usize),
    ParseError,
> {
    match register_at(s, at) {
        Err(e) => Err(e),
        Ok(rt) => match immediate_at(s, separator_end(s, rt.1)) {
            Err(e) => Err(e),
            Ok(imm) => if char_at(s, imm.1) != Some('(') {
                Err(ParseError { at: imm.1, expected: Expected::OpenParenthesis })
            } else {
                match register_at(s, (imm.1 + 1) as usize) {
                    Err(e) => Err(e),
                    Ok(rs) => if char_at(s, rs.1) != Some(')') {
                        Err(ParseError { at: rs.1, expected: Expected::CloseParenthesis })
                    } else {
                        Ok(
                            (
                                one(InstructionView::I { op, rt: rt.0, rs: rs.0, imm: imm.0 }),
                                (rs.1 + 1) as usize,
                            ),
                        )
                    },
                }
            },
        },
    }
}

/// Reads the operands of a load or a store.
pub fn load_type(input: &[char], at: usize, op: Opcode) -> (r: Result<(Line, usize), ParseError>)
    requires
        at <= input.len(),
    ensures
        parsed(r) == load_type_at(input@, at, op),
        r matches Ok(done) ==> at <= done.1 <= input.len(),
{
    let (rt, a) = register(input, at)?;
    let (imm, b) = immediate(input, separator(input, a))?;
    if !at_char(input, b, '(') {
        return Err(ParseError { at: b, expected: Expected::OpenParenthesis });
    }
    let (rs, c) = register(input, b + 1)?;
    if !at_char(input, c, ')') {
        return Err(ParseError { at: c, expected: Expected::CloseParenthesis });
    }
    Ok((line_of_one(Instruction::I { op, rt, rs, imm }), c + 1))
}

/// The immediate of a branch: a label stands for its distance from the
/// branch.
pub open spec fn branch_target(imm: ImmView) -> ImmView {
    match imm {
        ImmView::Label(name) => ImmView::PcRelative(name),
        other => other,
    }
}

/// Makes the label of a branch relative to the program counter.
fn relative(imm: Imm) -> (r: Imm)
    ensures
        r@ == branch_target(imm@),
{
    match imm {
        Imm::Label(name) => Imm::PcRelative(name),
        other => other,
    }
}

/// A branch: `<op> <rt>, <rs>, <target>`, and two shadow words.
pub open spec fn branch_type_at(s: Seq<char>, at: usize, op: Opcode) -> Result<
    (LineView, usize),
    ParseError,
> {
    match register_at(s, at) {
        Err(e) => Err(e),
        Ok(rt) => match next_register_at(s, rt.1) {
            Err(e) => Err(e),
            Ok(rs) => match immediate_at(s, separator_end(s, rs.1)) {
                Err(e) => Err(e),
                Ok(imm) => Ok(
                    (
                        shadowed(
                            InstructionView::I {
                                op,
                                rt: rt.0,
                                rs: rs.0,
                                imm: branch_target(imm.0),
                            },
                        ),
                        imm.1,
                    ),
                ),
            },
        },
    }
}

/// Reads the operands of a branch.
pub fn branch_type(input: &[char], at: usize, op: Opcode) -> (r: Result<(Line, usize), ParseError>)
    requires
        at <= input.len(),
    ensures
        parsed(r) == branch_type_at(input@, at, op),
        r matches Ok(done) ==> at <= done.1 <= input.len(),
{
    let (rt, a) = register(input, at)?;
    let (rs, b) = next_register(input, a)?;
    let (imm, end) = immediate(input, separator(input, b))?;
    Ok((line_with_shadows(Instruction::I { op, rt, rs, imm: relative(imm) }), end))
}

// The operation codes that the pseudo-instructions expand to.
pub const FUNCT_ADD: u8 = 0x20;

pub const FUNCT_SLT: u8 = 0x2a;

pub const FUNCT_SYSCALL: u8 = 0x0c;

pub const OP_BEQ: u8 = 0x04;

pub const OP_BNE: u8 = 0x05;

pub const OP_ADDI: u8 = 0x08;

pub const OP_ORI: u8 = 0x0d;

pub const OP_LUI: u8 = 0x0f;

/// `move <rd>, <rs>`: an addition of zero.
pub open spec fn move_at(s: Seq<char>, at: usize) -> Result<(LineView, usize), ParseError> {
    match register_at(s, at) {
        Err(e) => Err(e),
        Ok(rd) => match next_register_at(s, rd.1) {
            Err(e) => Err(e),
            Ok(rs) => Ok(
                (
                    one(
                        InstructionView::R {
                            op: Opcode::Funct(FUNCT_ADD),
                            rd: rd.0,
                            rs: rs.0,
                            rt: Register(ZERO),
                            shamt: 0,
                        },
                    ),
                    rs.1,
                ),
            ),
        },
    }
}

/// Reads the operands of `move`.
pub fn move_ins(input: &[char], at: usize) -> (r: Result<(Line, usize), ParseError>)
    requires
        at <= input.len(),
    ensures
        parsed(r) == move_at(input@, at),
        r matches Ok(done) ==> at <= done.1 <= input.len(),
{
    let (rd, a) = register(input, at)?;
    let (rs, end) = next_register(input, a)?;
    Ok(
        (
            line_of_one(
                Instruction::R {
                    op: Opcode::Funct(FUNCT_ADD),
                    rd,
                    rs,
                    rt: Register(ZERO),
                    shamt: 0,
                },
            ),
            end,
        ),
    )
}

/// The upper half of a constant, as `li` splits it.
pub open spec fn upper_half(value: i64) -> i64 {
    (value & 0xffff_0000) >> 16
}

/// The lower half of a constant, as `li` splits it.
pub open spec fn lower_half(value: i64) -> i64 {
    value & 0xffff
}

/// `lui $at, <high>` and `ori <reg>, $at, <low>`.
pub open spec fn load_pair(reg: Register, high: ImmView, low: ImmView) -> LineView {
    LineView::Instruction(
        seq![
            InstructionView::I {
                op: Opcode::Op(OP_LUI),
                rt: Register(AT),
                rs: Register(ZERO),
                imm: high,
            },
            InstructionView::I { op: Opcode::Op(OP_ORI), rt: reg, rs: Register(AT), imm: low },
        ],
    )
}

/// What `li` or `la` with the operand `imm` stands for: one `addi` from
/// zero for a constant up to 0xffff, else `lui` of the upper half into
/// `$at` and `ori` of the lower half. The halves of a label's address are
/// filled in when the program is assembled.
pub open spec fn load_immediate(reg: Register, imm: ImmView) -> LineView {
    match imm {
        ImmView::Label(name) => load_pair(reg, ImmView::HighHWord(name), ImmView::LowHWord(name)),
        ImmView::Value(value) => if value > 0xffff {
            load_pair(reg, ImmView::Value(upper_half(value)), ImmView::Value(lower_half(value)))
        } else {
            one(
                InstructionView::I {
                    op: Opcode::Op(OP_ADDI),
                    rt: reg,
                    rs: Register(ZERO),
                    imm: ImmView::Value(value),
                },
            )
        },
        ImmView::HighHWord(name) => one(
            InstructionView::I {
                op: Opcode::Op(OP_LUI),
                rt: reg,
                rs: Register(ZERO),
                imm: ImmView::HighHWord(name),
            },
        ),
        other => one(
            InstructionView::I {
                op: Opcode::Op(OP_ADDI),
                rt: reg,
                rs: Register(ZERO),
                imm: other,
            },
        ),
    }
}

/// `li <reg>, <imm>` or `la <reg>, <label>`.
pub open spec fn li_at(s: Seq<char>, at: usize) -> Result<(LineView, usize), ParseError> {
    match register_at(s, at) {
        Err(e) => Err(e),
        Ok(reg) => match immediate_at(s, separator_end(s, reg.1)) {
            Err(e) => Err(e),
            Ok(imm) => Ok((load_immediate(reg.0, imm.0), imm.1)),
        },
    }
}

/// The two instructions that load a word in halves.
fn pair_of(reg: Register, high: Imm, low: Imm) -> (line: Line)
    ensures
        line@ == load_pair(reg, high@, low@),
{
    line_of_two(
        Instruction::I { op: Opcode::Op(OP_LUI), rt: Register(AT), rs: Register(ZERO), imm: high },
        Instruction::I { op: Opcode::Op(OP_ORI), rt: reg, rs: Register(AT), imm: low },
    )
}

/// The instructions that `li` or `la` with the operand `imm` stands for.
pub fn expand_load(reg: Register, imm: Imm) -> (line: Line)
    ensures
        line@ == load_immediate(reg, imm@),
{
    match imm {
        Imm::Label(name) => {
            let high = Imm::HighHWord(name.clone());
            pair_of(reg, high, Imm::LowHWord(name))
        },
        Imm::Value(value) => {
            if value > 0xffff {
                pair_of(
                    reg,
                    Imm::Value((value & 0xffff_0000) >> 16),
                    Imm::Value(value & 0xffff),
                )
            } else {
                line_of_one(
                    Instruction::I {
                        op: Opcode::Op(OP_ADDI),
                        rt: reg,
                        rs: Register(ZERO),
                        imm: Imm::Value(value),
                    },
                )
            }
        },
        Imm::HighHWord(name) => line_of_one(
            Instruction::I {
                op: Opcode::Op(OP_LUI),
                rt: reg,
                rs: Register(ZERO),
                imm: Imm::HighHWord(name),
            },
        ),
        other => line_of_one(
            Instruction::I { op: Opcode::Op(OP_ADDI), rt: reg, rs: Register(ZERO), imm: other },
        ),
    }
}

/// Reads the operands of `li` or `la`.
pub fn li_ins(input: &[char], at: usize) -> (r: Result<(Line, usize), ParseError>)
    requires
        at <= input.len(),
    ensures
        parsed(r) == li_at(input@, at),
        r matches Ok(done) ==> at <= done.1 <= input.len(),
{
    let (reg, a) = register(input, at)?;
    let (imm, end) = immediate(input, separator(input, a))?;
    Ok((expand_load(reg, imm), end))
}

/// What a comparing branch stands for: `slt` of the two registers into
/// `$at`, in the order that the comparison asks for, then a branch on `$at`
/// against zero and its two shadow words. `less` picks `blt` and `ble`,
/// `inclusive` picks `ble` and `bge`.
pub open spec fn compare_and_branch(
    less: bool,
    inclusive: bool,
    rs: Register,
    rt: Register,
    target: ImmView,
) -> LineView {
    LineView::Instruction(
        seq![
            InstructionView::R {
                op: Opcode::Funct(FUNCT_SLT),
                rd: Register(AT),
                rs: if less == inclusive {
                    rt
                } else {
                    rs
                },
                rt: if less == inclusive {
                    rs
                } else {
                    rt
                },
                shamt: 0,
            },
            InstructionView::I {
                op: if inclusive {
                    Opcode::Op(OP_BEQ)
                } else {
                    Opcode::Op(OP_BNE)
                },
                rt: Register(AT),
                rs: Register(ZERO),
                imm: branch_target(target),
            },
            shadow(),
            shadow(),
        ],
    )
}

/// `blt`, `bgt`, `ble` or `bge`: `<op> <rs>, <rt>, <target>`.
pub open spec fn multi_branch_at(s: Seq<char>, at: usize, less: bool, inclusive: bool) -> Result<
    (LineView, usize),
    ParseError,
> {
    match register_at(s, at) {
        Err(e) => Err(e),
        Ok(rs) => match next_register_at(s, rs.1) {
            Err(e) => Err(e),
            Ok(rt) => match immediate_at(s, separator_end(s, rt.1)) {
                Err(e) => Err(e),
                Ok(imm) => Ok((compare_and_branch(less, inclusive, rs.0, rt.0, imm.0), imm.1)),
            },
        },
    }
}

/// The instructions that a comparing branch stands for.
pub fn expand_branch(less: bool, inclusive: bool, rs: Register, rt: Register, target: Imm) -> (line:
    Line)
    ensures
        line@ == compare_and_branch(less, inclusive, rs, rt, target@),
{
    let swap = less == inclusive;
    let compare = Instruction::R {
        op: Opcode::Funct(FUNCT_SLT),
        rd: Register(AT),
        rs: if swap {
            rt
        } else {
            rs
        },
        rt: if swap {
            rs
        } else {
            rt
        },
        shamt: 0,
    };
    let branch = Instruction::I {
        op: if inclusive {
            Opcode::Op(OP_BEQ)
        } else {
            Opcode::Op(OP_BNE)
        },
        rt: Register(AT),
        rs: Register(ZERO),
        imm: relative(target),
    };
    let mut units: Vec<Instruction> = Vec::new();
    units.push(compare);
    units.push(branch);
    units.push(shadow_word());
    units.push(shadow_word());
    let line = Line::Instruction(units);
    assert(line@->Instruction_0 =~= seq![compare@, branch@, shadow(), shadow()]);
    line
}

/// Reads the operands of a comparing branch.
pub fn multi_branch(input: &[char], at: usize, less: bool, inclusive: bool) -> (r: Result<
    (Line, usize),
    ParseError,
>)
    requires
        at <= input.len(),
    ensures
        parsed(r) == multi_branch_at(input@, at, less, inclusive),
        r matches Ok(done) ==> at <= done.1 <= input.len(),
{
    let (rs, a) = register(input, at)?;
    let (rt, b) = next_register(input, a)?;
    let (imm, end) = immediate(input, separator(input, b))?;
    Ok((expand_branch(less, inclusive, rs, rt, imm), end))
}

/// `syscall`: it takes no operand.
pub open spec fn syscall_at(at: usize) -> Result<(LineView, usize), ParseError> {
    Ok(
        (
            one(
                InstructionView::R {
                    op: Opcode::Funct(FUNCT_SYSCALL),
                    rd: Register(ZERO),
                    rs: Register(ZERO),
                    rt: Register(ZERO),
                    shamt: 0,
                },
            ),
            at,
        ),
    )
}

/// Makes the line of `syscall`.
pub fn syscall(input: &[char], at: usize) -> (r: Result<(Line, usize), ParseError>)
    ensures
        parsed(r) == syscall_at(at),
{
    Ok(
        (
            line_of_one(
                Instruction::R {
                    op: Opcode::Funct(FUNCT_SYSCALL),
                    rd: Register(ZERO),
                    rs: Register(ZERO),
                    rt: Register(ZERO),
                    shamt: 0,
                },
            ),
            at,
        ),
    )
}

/// `nop`: a word of zeros.
pub open spec fn nop_at(at: usize) -> Result<(LineView, usize), ParseError> {
    Ok((one(shadow()), at))
}

/// Makes the line of `nop`.
pub fn nop(input: &[char], at: usize) -> (r: Result<(Line, usize), ParseError>)
    ensures
        parsed(r) == nop_at(at),
{
    Ok((line_of_one(shadow_word()), at))
}

} // verus!
