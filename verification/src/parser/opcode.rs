//! The table of mnemonics and directives, and the names of the operations
//! for display.

use super::directives::{
    ascii_at, ascii_lit, asciiz_at, asciiz_lit, byte_at, byte_lit, half_at, half_lit, segment,
    segment_at, space, space_at, word_at, word_lit,
};
use super::instruction::{
    branch_type, branch_type_at, i_type, i_type_at, j_type, j_type_at, jr_type, jr_type_at, li_at,
    li_ins, load_type, load_type_at, lui, lui_at, move_at, move_ins, multi_branch, multi_branch_at,
    nop, nop_at, r_type, r_type_at, shift_type, shift_type_at, syscall, syscall_at,
};
use super::label::parsed;
use super::model::instruction::{i_word, j_word, r_word};
use super::model::{InstructionView, Line, LineView, Opcode, Segment};
use super::scan::{
    at_char, char_at, run_end, skip, text_between, Class, Expected, ParseError,
};
use crate::stages::decode::{funct_field, op_field};
use crate::text::{lowercased, same_text, to_lowercase, trim, trimmed};
use vstd::prelude::*;

verus! {

/// How the operands of a mnemonic are written, or what a directive takes.
#[derive(Debug, Clone, Copy, PartialEq, Eq, Structural)]
pub enum Form {
    /// `<rd>, <rs>, <rt>`
    RType,
    /// `<rd>, <rt>, <amount>`
    Shift,
    /// `<rt>, <rs>, <imm>`
    IType,
    /// `<rt>, <imm>`
    Lui,
    /// `<rt>, <imm>(<rs>)`
    Load,
    /// `<rt>, <rs>, <target>`
    Branch,
    /// `<target>`
    Jump,
    /// `<rs>`
    JumpRegister,
    /// `move <rd>, <rs>`
    Move,
    /// `li <reg>, <imm>` and `la <reg>, <label>`
    LoadImmediate,
    /// `blt`, `bgt`, `ble` and `bge`
    MultiBranch { less: bool, inclusive: bool },
    Syscall,
    Nop,
    Word,
    Half,
    Byte,
    Ascii,
    Asciiz,
    Space,
    Segment(Segment),
    /// A mnemonic that is known by name only.
    NoParser,
}

/// A mnemonic that was recognised: its operation code, and how to read what
/// follows it.
#[derive(Debug, Clone, Copy, PartialEq, Eq, Structural)]
pub struct InstructionParser {
    pub op: Opcode,
    pub form: Form,
}

/// What follows the mnemonic of `parser` at `at`.
pub open spec fn operands_at(parser: InstructionParser, s: Seq<char>, at: usize) -> Result<
    (LineView, usize),
    ParseError,
> {
    match parser.form {
        Form::RType => r_type_at(s, at, parser.op),
        Form::Shift => shift_type_at(s, at, parser.op),
        Form::IType => i_type_at(s, at, parser.op),
        Form::Lui => lui_at(s, at, parser.op),
        Form::Load => load_type_at(s, at, parser.op),
        Form::Branch => branch_type_at(s, at, parser.op),
        Form::Jump => j_type_at(s, at, parser.op),
        Form::JumpRegister => jr_type_at(s, at, parser.op),
        Form::Move => move_at(s, at),
        Form::LoadImmediate => li_at(s, at),
        Form::MultiBranch { less, inclusive } => multi_branch_at(s, at, less, inclusive),
        Form::Syscall => syscall_at(at),
        Form::Nop => nop_at(at),
        Form::Word => word_at(s, at),
        Form::Half => half_at(s, at),
        Form::Byte => byte_at(s, at),
        Form::Ascii => ascii_at(s, at),
        Form::Asciiz => asciiz_at(s, at),
        Form::Space => space_at(s, at),
        Form::Segment(seg) => segment_at(at, seg),
        Form::NoParser => Err(ParseError { at, expected: Expected::NoParser }),
    }
}

impl InstructionParser {
    /// The parser of a machine instruction, which needs its operation code.
    pub fn new(op: Opcode, form: Form) -> (p: Self)
        ensures
            p == (InstructionParser { op, form }),
    {
        InstructionParser { op, form }
    }

    /// The parser of a pseudo-instruction or a directive, which has no
    /// operation code of its own.
    pub fn pseudo(form: Form) -> (p: Self)
        ensures
            p == pseudo_of(form),
    {
        InstructionParser { op: Opcode::Op(0), form }
    }

    /// Reads what follows the mnemonic.
    pub fn parse(&self, input: &[char], at: usize) -> (r: Result<(Line, usize), ParseError>)
        requires
            at <= input.len(),
        ensures
            parsed(r) == operands_at(*self, input@, at),
            r matches Ok(done) ==> at <= done.1 <= input.len(),
    {
        match self.form {
            Form::RType => r_type(input, at, self.op),
            Form::Shift => shift_type(input, at, self.op),
            Form::IType => i_type(input, at, self.op),
            Form::Lui => lui(input, at, self.op),
            Form::Load => load_type(input, at, self.op),
            Form::Branch => branch_type(input, at, self.op),
            Form::Jump => j_type(input, at, self.op),
            Form::JumpRegister => jr_type(input, at, self.op),
            Form::Move => move_ins(input, at),
            Form::LoadImmediate => li_ins(input, at),
            Form::MultiBranch { less, inclusive } => multi_branch(input, at, less, inclusive),
            Form::Syscall => syscall(input, at),
            Form::Nop => nop(input, at),
            Form::Word => word_lit(input, at),
            Form::Half => half_lit(input, at),
            Form::Byte => byte_lit(input, at),
            Form::Ascii => ascii_lit(input, at),
            Form::Asciiz => asciiz_lit(input, at),
            Form::Space => space(input, at),
            Form::Segment(seg) => segment(input, at, seg),
            Form::NoParser => Err(ParseError { at, expected: Expected::NoParser }),
        }
    }
}

/// The parser of a pseudo-instruction or a directive of the form `form`.
pub open spec fn pseudo_of(form: Form) -> InstructionParser {
    InstructionParser { op: Opcode::Op(0), form }
}

/// The parser for the mnemonic or directive `name`, which is in lower case.
pub open spec fn mnemonic(name: Seq<char>) -> Option<InstructionParser> {
    if name == "add"@ {
        Some(InstructionParser { op: Opcode::Funct(0x20), form: Form::RType })
    } else if name == "sub"@ {
        Some(InstructionParser { op: Opcode::Funct(0x22), form: Form::RType })
    } else if name == "addi"@ {
        Some(InstructionParser { op: Opcode::Op(0x08), form: Form::IType })
    } else if name == "addiu"@ {
        Some(InstructionParser { op: Opcode::Op(0x09), form: Form::IType })
    } else if name == "addu"@ {
        Some(InstructionParser { op: Opcode::Funct(0x21), form: Form::RType })
    } else if name == "and"@ {
        Some(InstructionParser { op: Opcode::Funct(0x24), form: Form::RType })
    } else if name == "andi"@ {
        Some(InstructionParser { op: Opcode::Op(0x0c), form: Form::IType })
    } else if name == "beq"@ {
        Some(InstructionParser { op: Opcode::Op(0x04), form: Form::Branch })
    } else if name == "bne"@ {
        Some(InstructionParser { op: Opcode::Op(0x05), form: Form::Branch })
    } else if name == "blt"@ {
        Some(pseudo_of(Form::MultiBranch { less: true, inclusive: false }))
    } else if name == "bgt"@ {
        Some(pseudo_of(Form::MultiBranch { less: false, inclusive: false }))
    } else if name == "ble"@ {
        Some(pseudo_of(Form::MultiBranch { less: true, inclusive: true }))
    } else if name == "bge"@ {
        Some(pseudo_of(Form::MultiBranch { less: false, inclusive: true }))
    } else if name == "div"@ {
        Some(InstructionParser { op: Opcode::Funct(0x1a), form: Form::NoParser })
    } else if name == "divu"@ {
        Some(InstructionParser { op: Opcode::Funct(0x1b), form: Form::NoParser })
    } else if name == "j"@ {
        Some(InstructionParser { op: Opcode::Op(0x02), form: Form::Jump })
    } else if name == "jal"@ {
        Some(InstructionParser { op: Opcode::Op(0x03), form: Form::Jump })
    } else if name == "jr"@ {
        Some(InstructionParser { op: Opcode::Funct(0x08), form: Form::JumpRegister })
    } else if name == "lw"@ {
        Some(InstructionParser { op: Opcode::Op(0x23), form: Form::Load })
    } else if name == "sw"@ {
        Some(InstructionParser { op: Opcode::Op(0x2b), form: Form::Load })
    } else if name == "lui"@ {
        Some(InstructionParser { op: Opcode::Op(0x0f), form: Form::Lui })
    } else if name == "slt"@ {
        Some(InstructionParser { op: Opcode::Funct(0x2a), form: Form::RType })
    } else if name == "ori"@ {
        Some(InstructionParser { op: Opcode::Op(0x0d), form: Form::IType })
    } else if name == "or"@ {
        Some(InstructionParser { op: Opcode::Funct(0x25), form: Form::RType })
    } else if name == "xor"@ {
        Some(InstructionParser { op: Opcode::Funct(0x26), form: Form::RType })
    } else if name == "nor"@ {
        Some(InstructionParser { op: Opcode::Funct(0x27), form: Form::RType })
    } else if name == "sll"@ {
        Some(InstructionParser { op: Opcode::Funct(0x00), form: Form::Shift })
    } else if name == "srl"@ {
        Some(InstructionParser { op: Opcode::Funct(0x02), form: Form::Shift })
    } else if name == "sra"@ {
        Some(InstructionParser { op: Opcode::Funct(0x03), form: Form::Shift })
    } else if name == "srlv"@ {
        Some(InstructionParser { op: Opcode::Funct(0x06), form: Form::RType })
    } else if name == "move"@ {
        Some(pseudo_of(Form::Move))
    } else if name == "li"@ {
        Some(pseudo_of(Form::LoadImmediate))
    } else if name == "la"@ {
        Some(pseudo_of(Form::LoadImmediate))
    } else if name == "syscall"@ {
        Some(pseudo_of(Form::Syscall))
    } else if name == "nop"@ {
        Some(pseudo_of(Form::Nop))
    } else if name == ".word"@ {
        Some(pseudo_of(Form::Word))
    } else if name == ".half"@ {
        Some(pseudo_of(Form::Half))
    } else if name == ".byte"@ {
        Some(pseudo_of(Form::Byte))
    } else if name == ".ascii"@ {
        Some(pseudo_of(Form::Ascii))
    } else if name == ".asciiz"@ {
        Some(pseudo_of(Form::Asciiz))
    } else if name == ".space"@ {
        Some(pseudo_of(Form::Space))
    } else if name == ".text"@ {
        Some(pseudo_of(Form::Segment(Segment::Text)))
    } else if name == ".data"@ {
        Some(pseudo_of(Form::Segment(Segment::Data)))
    } else {
        None
    }
}

/// Looks a mnemonic or a directive up by its name in lower case.
pub fn lookup(name: &str) -> (r: Option<InstructionParser>)
    ensures
        r == mnemonic(name@),
{
    if same_text(name, "add") {
        Some(InstructionParser::new(Opcode::Funct(0x20), Form::RType))
    } else if same_text(name, "sub") {
        Some(InstructionParser::new(Opcode::Funct(0x22), Form::RType))
    } else if same_text(name, "addi") {
        Some(InstructionParser::new(Opcode::Op(0x08), Form::IType))
    } else if same_text(name, "addiu") {
        Some(InstructionParser::new(Opcode::Op(0x09), Form::IType))
    } else if same_text(name, "addu") {
        Some(InstructionParser::new(Opcode::Funct(0x21), Form::RType))
    } else if same_text(name, "and") {
        Some(InstructionParser::new(Opcode::Funct(0x24), Form::RType))
    } else if same_text(name, "andi") {
        Some(InstructionParser::new(Opcode::Op(0x0c), Form::IType))
    } else if same_text(name, "beq") {
        Some(InstructionParser::new(Opcode::Op(0x04), Form::Branch))
    } else if same_text(name, "bne") {
        Some(InstructionParser::new(Opcode::Op(0x05), Form::Branch))
    } else if same_text(name, "blt") {
        Some(InstructionParser::pseudo(Form::MultiBranch { less: true, inclusive: false }))
    } else if same_text(name, "bgt") {
        Some(InstructionParser::pseudo(Form::MultiBranch { less: false, inclusive: false }))
    } else if same_text(name, "ble") {
        Some(InstructionParser::pseudo(Form::MultiBranch { less: true, inclusive: true }))
    } else if same_text(name, "bge") {
        Some(InstructionParser::pseudo(Form::MultiBranch { less: false, inclusive: true }))
    } else if same_text(name, "div") {
        Some(InstructionParser::new(Opcode::Funct(0x1a), Form::NoParser))
    } else if same_text(name, "divu") {
        Some(InstructionParser::new(Opcode::Funct(0x1b), Form::NoParser))
    } else if same_text(name, "j") {
        Some(InstructionParser::new(Opcode::Op(0x02), Form::Jump))
    } else if same_text(name, "jal") {
        Some(InstructionParser::new(Opcode::Op(0x03), Form::Jump))
    } else if same_text(name, "jr") {
        Some(InstructionParser::new(Opcode::Funct(0x08), Form::JumpRegister))
    } else if same_text(name, "lw") {
        Some(InstructionParser::new(Opcode::Op(0x23), Form::Load))
    } else if same_text(name, "sw") {
        Some(InstructionParser::new(Opcode::Op(0x2b), Form::Load))
    } else if same_text(name, "lui") {
        Some(InstructionParser::new(Opcode::Op(0x0f), Form::Lui))
    } else if same_text(name, "slt") {
        Some(InstructionParser::new(Opcode::Funct(0x2a), Form::RType))
    } else if same_text(name, "ori") {
        Some(InstructionParser::new(Opcode::Op(0x0d), Form::IType))
    } else if same_text(name, "or") {
        Some(InstructionParser::new(Opcode::Funct(0x25), Form::RType))
    } else if same_text(name, "xor") {
        Some(InstructionParser::new(Opcode::Funct(0x26), Form::RType))
    } else if same_text(name, "nor") {
        Some(InstructionParser::new(Opcode::Funct(0x27), Form::RType))
    } else if same_text(name, "sll") {
        Some(InstructionParser::new(Opcode::Funct(0x00), Form::Shift))
    } else if same_text(name, "srl") {
        Some(InstructionParser::new(Opcode::Funct(0x02), Form::Shift))
    } else if same_text(name, "sra") {
        Some(InstructionParser::new(Opcode::Funct(0x03), Form::Shift))
    } else if same_text(name, "srlv") {
        Some(InstructionParser::new(Opcode::Funct(0x06), Form::RType))
    } else if same_text(name, "move") {
        Some(InstructionParser::pseudo(Form::Move))
    } else if same_text(name, "li") {
        Some(InstructionParser::pseudo(Form::LoadImmediate))
    } else if same_text(name, "la") {
        Some(InstructionParser::pseudo(Form::LoadImmediate))
    } else if same_text(name, "syscall") {
        Some(InstructionParser::pseudo(Form::Syscall))
    } else if same_text(name, "nop") {
        Some(InstructionParser::pseudo(Form::Nop))
    } else if same_text(name, ".word") {
        Some(InstructionParser::pseudo(Form::Word))
    } else if same_text(name, ".half") {
        Some(InstructionParser::pseudo(Form::Half))
    } else if same_text(name, ".byte") {
        Some(InstructionParser::pseudo(Form::Byte))
    } else if same_text(name, ".ascii") {
        Some(InstructionParser::pseudo(Form::Ascii))
    } else if same_text(name, ".asciiz") {
        Some(InstructionParser::pseudo(Form::Asciiz))
    } else if same_text(name, ".space") {
        Some(InstructionParser::pseudo(Form::Space))
    } else if same_text(name, ".text") {
        Some(InstructionParser::pseudo(Form::Segment(Segment::Text)))
    } else if same_text(name, ".data") {
        Some(InstructionParser::pseudo(Form::Segment(Segment::Data)))
    } else {
        None
    }
}

/// The name of the operation that the word `word` encodes: `nop` for a word
/// of zeros, else by the `funct` field where the `op` field is zero, else by
/// the `op` field.
pub open spec fn operation_name(word: u32) -> Option<Seq<char>> {
    if word == 0 {
        Some("nop"@)
    } else if op_field(word) == 0 {
        let funct = funct_field(word);
        if funct == 0x00 {
            Some("sll"@)
        } else if funct == 0x02 {
            Some("srl"@)
        } else if funct == 0x03 {
            Some("sra"@)
        } else if funct == 0x06 {
            Some("srlv"@)
        } else if funct == 0x08 {
            Some("jr"@)
        } else if funct == 0x0c {
            Some("syscall"@)
        } else if funct == 0x1a {
            Some("div"@)
        } else if funct == 0x1b {
            Some("divu"@)
        } else if funct == 0x20 {
            Some("add"@)
        } else if funct == 0x21 {
            Some("addu"@)
        } else if funct == 0x22 {
            Some("sub"@)
        } else if funct == 0x24 {
            Some("and"@)
        } else if funct == 0x25 {
            Some("or"@)
        } else if funct == 0x26 {
            Some("xor"@)
        } else if funct == 0x27 {
            Some("nor"@)
        } else if funct == 0x2a {
            Some("slt"@)
        } else {
            None
        }
    } else {
        let op = op_field(word);
        if op == 0x02 {
            Some("j"@)
        } else if op == 0x03 {
            Some("jal"@)
        } else if op == 0x04 {
            Some("beq"@)
        } else if op == 0x05 {
            Some("bne"@)
        } else if op == 0x08 {
            Some("addi"@)
        } else if op == 0x09 {
            Some("addiu"@)
        } else if op == 0x0c {
            Some("andi"@)
        } else if op == 0x0d {
            Some("ori"@)
        } else if op == 0x0f {
            Some("lui"@)
        } else if op == 0x23 {
            Some("lw"@)
        } else if op == 0x2b {
            Some("sw"@)
        } else {
            None
        }
    }
}

/// Whether `r` is the name `expected`.
pub open spec fn same_name(r: Option<&'static str>, expected: Option<Seq<char>>) -> bool {
    match (r, expected) {
        (Some(got), Some(want)) => got@ == want,
        (None, None) => true,
        _ => false,
    }
}

/// The name of the operation that an instruction word encodes.
pub fn opcode_name(input: u32) -> (r: Option<&'static str>)
    ensures
        same_name(r, operation_name(input)),
{
    if input == 0 {
        return Some("nop");
    }
    let funct = input & 0x0000_003f;
    let op = (input & 0xfc00_0000) >> 26;
    if op == 0 {
        if funct == 0x00 {
            Some("sll")
        } else if funct == 0x02 {
            Some("srl")
        } else if funct == 0x03 {
            Some("sra")
        } else if funct == 0x06 {
            Some("srlv")
        } else if funct == 0x08 {
            Some("jr")
        } else if funct == 0x0c {
            Some("syscall")
        } else if funct == 0x1a {
            Some("div")
        } else if funct == 0x1b {
            Some("divu")
        } else if funct == 0x20 {
            Some("add")
        } else if funct == 0x21 {
            Some("addu")
        } else if funct == 0x22 {
            Some("sub")
        } else if funct == 0x24 {
            Some("and")
        } else if funct == 0x25 {
            Some("or")
        } else if funct == 0x26 {
            Some("xor")
        } else if funct == 0x27 {
            Some("nor")
        } else if funct == 0x2a {
            Some("slt")
        } else {
            None
        }
    } else {
        if op == 0x02 {
            Some("j")
        } else if op == 0x03 {
            Some("jal")
        } else if op == 0x04 {
            Some("beq")
        } else if op == 0x05 {
            Some("bne")
        } else if op == 0x08 {
            Some("addi")
        } else if op == 0x09 {
            Some("addiu")
        } else if op == 0x0c {
            Some("andi")
        } else if op == 0x0d {
            Some("ori")
        } else if op == 0x0f {
            Some("lui")
        } else if op == 0x23 {
            Some("lw")
        } else if op == 0x2b {
            Some("sw")
        } else {
            None
        }
    }
}

impl Form {
    /// Whether the form is that of a machine instruction, which is encoded
    /// under its own operation code.
    pub open spec fn is_machine(self) -> bool {
        self == Form::RType || self == Form::Shift || self == Form::IType || self == Form::Lui
            || self == Form::Load || self == Form::Branch || self == Form::Jump || self
            == Form::JumpRegister
    }
}

/// Whether `unit` is an instruction that `parser` reads: of the format of
/// the parser's form, with the parser's operation code.
pub open spec fn reads(parser: InstructionParser, unit: InstructionView) -> bool {
    match unit {
        InstructionView::R { op, .. } => op == parser.op && (parser.form == Form::RType
            || parser.form == Form::Shift || parser.form == Form::JumpRegister),
        InstructionView::I { op, .. } => op == parser.op && (parser.form == Form::IType
            || parser.form == Form::Lui || parser.form == Form::Load || parser.form
            == Form::Branch),
        InstructionView::J { op, .. } => op == parser.op && parser.form == Form::Jump,
        InstructionView::Literal { .. } => false,
    }
}

/// The fields of an R-format word: the `op` field is zero and the `funct`
/// field is the low six bits of the operation code.
pub proof fn lemma_r_word_fields(funct: u32, rd: u32, rs: u32, rt: u32, shamt: u32)
    ensures
        op_field(r_word(funct, rd, rs, rt, shamt)) == 0,
        funct_field(r_word(funct, rd, rs, rt, shamt)) == funct & 0x3f,
{
    assert((1u32 << 6) == 64 && (1u32 << 5) == 32) by (bit_vector);
    let word = ((funct & 63) << 0) | ((rd & 31) << 11) | ((rt & 31) << 16) | ((rs & 31) << 21) | ((
    shamt & 31) << 6);
    assert(r_word(funct, rd, rs, rt, shamt) == word);
    assert((word & 0xfc00_0000) >> 26 == 0 && word & 0x3f == funct & 0x3f) by (bit_vector)
        requires
            word == ((funct & 63) << 0) | ((rd & 31) << 11) | ((rt & 31) << 16) | ((rs & 31)
                << 21) | ((shamt & 31) << 6),
    ;
}

/// The `op` field of an I-format word is the low six bits of the operation
/// code.
pub proof fn lemma_i_word_op(op: u32, rt: u32, rs: u32, imm: u32)
    ensures
        op_field(i_word(op, rt, rs, imm)) == op & 0x3f,
{
    assert((1u32 << 6) == 64 && (1u32 << 5) == 32 && (1u32 << 16) == 65536) by (bit_vector);
    let word = ((op & 63) << 26) | ((imm & 65535) << 0) | ((rt & 31) << 16) | ((rs & 31) << 21);
    assert(i_word(op, rt, rs, imm) == word);
    assert((word & 0xfc00_0000) >> 26 == op & 0x3f) by (bit_vector)
        requires
            word == ((op & 63) << 26) | ((imm & 65535) << 0) | ((rt & 31) << 16) | ((rs & 31)
                << 21),
    ;
}

/// The `op` field of a J-format word is the low six bits of the operation
/// code.
pub proof fn lemma_j_word_op(op: u32, target: u32)
    ensures
        op_field(j_word(op, target)) == op & 0x3f,
{
    assert((1u32 << 6) == 64 && (1u32 << 26) == 0x0400_0000) by (bit_vector);
    let word = ((op & 63) << 26) | ((target & 0x03ff_ffff) << 0);
    assert(j_word(op, target) == word);
    assert((word & 0xfc00_0000) >> 26 == op & 0x3f) by (bit_vector)
        requires
            word == ((op & 63) << 26) | ((target & 0x03ff_ffff) << 0),
    ;
}

/// An operation code below 64 is its own low six bits.
proof fn lemma_low_six(code: u32)
    requires
        code < 64,
    ensures
        code & 0x3f == code,
{
    assert(code < 64 ==> code & 0x3f == code) by (bit_vector);
}

/// Disassembly recovers the mnemonic: where `name` is the mnemonic of a
/// machine instruction and `unit` an instruction that its parser reads, the
/// word that `unit` is encoded as carries the name `name`. The one word
/// that is left out is the word of zeros, which is shown as `nop`.
pub proof fn lemma_mnemonic_recovered(
    name: Seq<char>,
    unit: InstructionView,
    labels: Map<Seq<char>, u32>,
    pc: u32,
)
    requires
        mnemonic(name) matches Some(parser) && reads(parser, unit),
        unit.word(labels, pc) != 0,
    ensures
        operation_name(unit.word(labels, pc)) == Some(name),
{
    let parser = mnemonic(name)->0;
    let word = unit.word(labels, pc);
    assert(parser.op.code() < 64);
    lemma_low_six(parser.op.code());
    match unit {
        InstructionView::R { op, rd, rs, rt, shamt } => {
            lemma_r_word_fields(op.code(), rd.0, rs.0, rt.0, shamt);
        },
        InstructionView::I { op, rt, rs, imm } => {
            lemma_i_word_op(op.code(), rt.0, rs.0, imm.value(labels, pc));
        },
        InstructionView::J { op, addr } => {
            lemma_j_word_op(op.code(), addr.value(labels));
        },
        InstructionView::Literal { .. } => {},
    }
}

/// The recognised mnemonic at `at`: the word up to the next whitespace, in
/// any case.
pub open spec fn opcode_at(s: Seq<char>, at: usize) -> Result<(InstructionParser, usize), ParseError> {
    let end = run_end(s, at, Class::Word);
    match mnemonic(trimmed(lowercased(s.subrange(at as int, end as int)))) {
        Some(parser) => Ok((parser, end)),
        None => Err(ParseError { at, expected: Expected::Opcode }),
    }
}

/// Reads a mnemonic or the name of a directive.
pub fn opcode(input: &[char], at: usize) -> (r: Result<(InstructionParser, usize), ParseError>)
    requires
        at <= input.len(),
    ensures
        r == opcode_at(input@, at),
        r matches Ok(done) ==> at <= done.1 <= input.len(),
{
    let end = skip(input, at, Class::Word);
    let word = text_between(input, at, end);
    let lowered = to_lowercase(word.as_str());
    match lookup(trim(lowered.as_str())) {
        Some(parser) => Ok((parser, end)),
        None => Err(ParseError { at, expected: Expected::Opcode }),
    }
}

/// The instruction at `at`: behind any spaces a mnemonic, then spaces or
/// the end of the line, then the operands.
pub open spec fn instruction_at(s: Seq<char>, at: usize) -> Result<(LineView, usize), ParseError> {
    match opcode_at(s, run_end(s, at, Class::Space)) {
        Err(e) => Err(e),
        Ok(found) => {
            let operands = run_end(s, found.1, Class::Space);
            if operands > found.1 || char_at(s, found.1) == Some('\n') {
                operands_at(found.0, s, operands)
            } else {
                Err(ParseError { at: found.1, expected: Expected::Operands })
            }
        },
    }
}

/// Reads an instruction, a pseudo-instruction or a directive.
pub fn instruction(input: &[char], at: usize) -> (r: Result<(Line, usize), ParseError>)
    requires
        at <= input.len(),
    ensures
        parsed(r) == instruction_at(input@, at),
        r matches Ok(done) ==> at <= done.1 <= input.len(),
{
    let (parser, end) = opcode(input, skip(input, at, Class::Space))?;
    let operands = skip(input, end, Class::Space);
    if operands > end || at_char(input, end, '\n') {
        parser.parse(input, operands)
    } else {
        Err(ParseError { at: end, expected: Expected::Operands })
    }
}

/// What a machine instruction's operands are read into starts with an
/// instruction of the mnemonic's format and operation code.
pub proof fn lemma_operands_are_read(parser: InstructionParser, s: Seq<char>, at: usize)
    requires
        parser.form.is_machine(),
        operands_at(parser, s, at) is Ok,
    ensures
        operands_at(parser, s, at)->Ok_0.0 matches LineView::Instruction(units) && units.len() > 0
            && reads(parser, units[0]),
{
}

/// Disassembly recovers the mnemonic of a parsed instruction: where the
/// text at `at` is read as a machine instruction, the word that its first
/// unit is encoded as carries the instruction's mnemonic, in lower case. The
/// one word that is left out is the word of zeros, which is shown as `nop`.
pub proof fn lemma_instruction_round_trip(
    s: Seq<char>,
    at: usize,
    labels: Map<Seq<char>, u32>,
    pc: u32,
)
    requires
        instruction_at(s, at) is Ok,
        opcode_at(s, run_end(s, at, Class::Space)) matches Ok(found) && found.0.form.is_machine(),
    ensures
        ({
            let start = run_end(s, at, Class::Space);
            let name = trimmed(lowercased(s.subrange(start as int, run_end(s, start, Class::Word) as int)));
            &&& instruction_at(s, at)->Ok_0.0 matches LineView::Instruction(units)
            &&& units.len() > 0
            &&& units[0].word(labels, pc) != 0 ==> operation_name(units[0].word(labels, pc))
                == Some(name)
        }),
{
    let start = run_end(s, at, Class::Space);
    let found = opcode_at(s, start)->Ok_0;
    let operands = run_end(s, found.1, Class::Space);
    let name = trimmed(lowercased(s.subrange(start as int, run_end(s, start, Class::Word) as int)));
    assert(mnemonic(name) == Some(found.0));
    lemma_operands_are_read(found.0, s, operands);
    let units = operands_at(found.0, s, operands)->Ok_0.0->Instruction_0;
    if units[0].word(labels, pc) != 0 {
        lemma_mnemonic_recovered(name, units[0], labels, pc);
    }
}

} // verus!
