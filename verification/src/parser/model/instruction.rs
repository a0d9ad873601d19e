//! Instructions as the assembler takes them, and their encoding.

use super::opcode::Opcode;
use super::LabelTable;
use crate::memory::byte_of_word;
use crate::register::Register;
use vstd::prelude::*;

verus! {

/// The address bound to `name`, or zero where the name is not bound.
pub open spec fn address_of(labels: Map<Seq<char>, u32>, name: Seq<char>) -> u32 {
    if labels.contains_key(name) {
        labels[name]
    } else {
        0
    }
}

/// The low `width` bits of `x`, moved up to bit `start`.
pub open spec fn field_bits(x: u32, start: u32, width: u32) -> u32 {
    (x & (((1u32 << width) - 1) as u32)) << start
}

/// Places the low `width` bits of `x` at bit `start` of a word.
pub fn field(x: u32, start: u32, width: u32) -> (bits: u32)
    requires
        start < 32,
        width < 32,
    ensures
        bits == field_bits(x, start, width),
{
    assert((1u32 << width) >= 1) by (bit_vector)
        requires
            width < 32,
    ;
    (x & ((1u32 << width) - 1)) << start
}

/// The target of a jump.
#[derive(Debug, Clone, PartialEq, Eq)]
pub enum Symbol {
    Label(String),
    Address(u32),
}

/// What a jump target holds, with the name as a sequence of characters.
pub enum SymbolView {
    Label(Seq<char>),
    Address(u32),
}

impl View for Symbol {
    type V = SymbolView;

    open spec fn view(&self) -> SymbolView {
        match self {
            Symbol::Label(name) => SymbolView::Label(name@),
            Symbol::Address(address) => SymbolView::Address(*address),
        }
    }
}

impl SymbolView {
    /// The word index that goes into a jump: the low 28 bits of the target
    /// address, without the two alignment bits.
    pub open spec fn value(self, labels: Map<Seq<char>, u32>) -> u32 {
        let address = match self {
            SymbolView::Label(name) => address_of(labels, name),
            SymbolView::Address(address) => address,
        };
        (address & 0x0fff_ffff) >> 2
    }
}

impl Symbol {
    /// The word index that the target puts into a jump.
    pub fn assemble(&self, labels: &LabelTable) -> (v: u32)
        ensures
            v == self@.value(labels@.labels),
    {
        let address = match self {
            Symbol::Label(name) => match labels.get_label(name.as_str()) {
                Some(address) => address,
                None => 0,
            },
            Symbol::Address(x) => *x,
        };
        (address & 0x0fff_ffff) >> 2
    }
}

/// The immediate operand of an I-format instruction.
#[derive(Debug, Clone, PartialEq, Eq)]
pub enum Imm {
    /// The address of a label.
    Label(String),
    /// The upper half of a label's address.
    HighHWord(String),
    /// The lower half of a label's address.
    LowHWord(String),
    /// A constant.
    Value(i64),
    /// The distance in words from the next instruction to a label.
    PcRelative(String),
}

/// What an immediate holds, with the name as a sequence of characters.
pub enum ImmView {
    Label(Seq<char>),
    HighHWord(Seq<char>),
    LowHWord(Seq<char>),
    Value(i64),
    PcRelative(Seq<char>),
}

impl View for Imm {
    type V = ImmView;

    open spec fn view(&self) -> ImmView {
        match self {
            Imm::Label(name) => ImmView::Label(name@),
            Imm::HighHWord(name) => ImmView::HighHWord(name@),
            Imm::LowHWord(name) => ImmView::LowHWord(name@),
            Imm::Value(x) => ImmView::Value(*x),
            Imm::PcRelative(name) => ImmView::PcRelative(name@),
        }
    }
}

/// The word distance from the instruction after `pc` to `target`, in 16
/// bits; decoding extends its sign.
pub open spec fn pc_relative(target: u32, pc: u32) -> u32 {
    (((target - (pc + 4)) % 0x1_0000_0000) as u32 >> 2) & 0xffff
}

impl ImmView {
    /// The number that the immediate stands for in an instruction at `pc`;
    /// the encoding keeps its low 16 bits.
    pub open spec fn value(self, labels: Map<Seq<char>, u32>, pc: u32) -> u32 {
        match self {
            ImmView::Label(name) => address_of(labels, name),
            ImmView::HighHWord(name) => (address_of(labels, name) >> 16) & 0xffff,
            ImmView::LowHWord(name) => address_of(labels, name) & 0xffff,
            ImmView::Value(x) => x as u32,
            ImmView::PcRelative(name) => pc_relative(address_of(labels, name), pc),
        }
    }
}

/// The address that `name` is bound to in `labels`, zero if it is not.
fn resolve(labels: &LabelTable, name: &String) -> (address: u32)
    ensures
        address == address_of(labels@.labels, name@),
{
    match labels.get_label(name.as_str()) {
        Some(address) => address,
        None => 0,
    }
}

impl Imm {
    /// The number that the immediate stands for in an instruction at `pc`.
    pub fn assemble(&self, labels: &LabelTable, pc: u32) -> (v: u32)
        ensures
            v == self@.value(labels@.labels, pc),
    {
        match self {
            Imm::Label(name) => resolve(labels, name),
            Imm::HighHWord(name) => (resolve(labels, name) >> 16) & 0xffff,
            Imm::LowHWord(name) => resolve(labels, name) & 0xffff,
            Imm::Value(x) => {
                #[verifier::truncate]
                let v = *x as u32;
                v
            },
            Imm::PcRelative(name) => {
                let target = resolve(labels, name);
                (target.wrapping_sub(pc.wrapping_add(4)) >> 2) & 0xffff
            },
        }
    }
}

/// One unit of assembler output: a machine instruction in one of the three
/// formats, or raw bytes.
#[derive(Debug, Clone, PartialEq, Eq)]
pub enum Instruction {
    R { op: Opcode, rd: Register, rs: Register, rt: Register, shamt: u32 },
    I { op: Opcode, rt: Register, rs: Register, imm: Imm },
    J { op: Opcode, addr: Symbol },
    Literal { data: Vec<u8> },
}

/// What an instruction holds, with names and bytes as sequences.
pub enum InstructionView {
    R { op: Opcode, rd: Register, rs: Register, rt: Register, shamt: u32 },
    I { op: Opcode, rt: Register, rs: Register, imm: ImmView },
    J { op: Opcode, addr: SymbolView },
    Literal { data: Seq<u8> },
}

impl View for Instruction {
    type V = InstructionView;

    open spec fn view(&self) -> InstructionView {
        match self {
            Instruction::R { op, rd, rs, rt, shamt } => InstructionView::R {
                op: *op,
                rd: *rd,
                rs: *rs,
                rt: *rt,
                shamt: *shamt,
            },
            Instruction::I { op, rt, rs, imm } => InstructionView::I {
                op: *op,
                rt: *rt,
                rs: *rs,
                imm: imm@,
            },
            Instruction::J { op, addr } => InstructionView::J { op: *op, addr: addr@ },
            Instruction::Literal { data } => InstructionView::Literal { data: data@ },
        }
    }
}

/// The R-format word: `funct` in bits 0-5, `shamt` in 6-10, `rd` in 11-15,
/// `rt` in 16-20, `rs` in 21-25, and a zero `op`.
pub open spec fn r_word(funct: u32, rd: u32, rs: u32, rt: u32, shamt: u32) -> u32 {
    field_bits(funct, 0, 6) | field_bits(rd, 11, 5) | field_bits(rt, 16, 5) | field_bits(
        rs,
        21,
        5,
    ) | field_bits(shamt, 6, 5)
}

/// The I-format word: `imm` in bits 0-15, `rt` in 16-20, `rs` in 21-25,
/// `op` in 26-31.
pub open spec fn i_word(op: u32, rt: u32, rs: u32, imm: u32) -> u32 {
    field_bits(op, 26, 6) | field_bits(imm, 0, 16) | field_bits(rt, 16, 5) | field_bits(rs, 21, 5)
}

/// The J-format word: the target in bits 0-25, `op` in 26-31.
pub open spec fn j_word(op: u32, target: u32) -> u32 {
    field_bits(op, 26, 6) | field_bits(target, 0, 26)
}

/// The four bytes of a word, least significant first.
pub open spec fn le_bytes(word: u32) -> Seq<u8> {
    seq![
        byte_of_word(word, 0),
        byte_of_word(word, 1),
        byte_of_word(word, 2),
        byte_of_word(word, 3),
    ]
}

impl InstructionView {
    /// The machine word of an instruction at `pc`; zero for raw bytes,
    /// which have none.
    pub open spec fn word(self, labels: Map<Seq<char>, u32>, pc: u32) -> u32 {
        match self {
            InstructionView::R { op, rd, rs, rt, shamt } => r_word(
                op.code(),
                rd.0,
                rs.0,
                rt.0,
                shamt,
            ),
            InstructionView::I { op, rt, rs, imm } => i_word(
                op.code(),
                rt.0,
                rs.0,
                imm.value(labels, pc),
            ),
            InstructionView::J { op, addr } => j_word(op.code(), addr.value(labels)),
            InstructionView::Literal { data } => 0,
        }
    }

    /// The bytes that the instruction puts into memory at `pc`.
    pub open spec fn encoding(self, labels: Map<Seq<char>, u32>, pc: u32) -> Seq<u8> {
        match self {
            InstructionView::Literal { data } => data,
            _ => le_bytes(self.word(labels, pc)),
        }
    }

    /// How many bytes the instruction takes.
    pub open spec fn size(self) -> nat {
        match self {
            InstructionView::Literal { data } => data.len(),
            _ => 4,
        }
    }
}

/// The bytes of `word`, least significant first.
pub fn word_bytes(word: u32) -> (bytes: Vec<u8>)
    ensures
        bytes@ == le_bytes(word),
{
    let mut bytes: Vec<u8> = Vec::new();
    bytes.push((word & 0xff) as u8);
    bytes.push(((word >> 8) & 0xff) as u8);
    bytes.push(((word >> 16) & 0xff) as u8);
    bytes.push(((word >> 24) & 0xff) as u8);
    proof {
        assert((word & 0xff) as u8 == ((word >> 0u32) & 0xff) as u8) by (bit_vector);
        assert(bytes@ =~= le_bytes(word));
    }
    bytes
}

impl Instruction {
    /// The bytes of the instruction when it is placed at `pc`, with label
    /// references resolved against `labels`.
    pub fn assemble(&self, labels: &LabelTable, pc: u32) -> (bytes: Vec<u8>)
        ensures
            bytes@ == self@.encoding(labels@.labels, pc),
            bytes@.len() == self@.size(),
    {
        match self {
            Instruction::R { op, rd, rs, rt, shamt } => {
                let word = field(op.value(), 0, 6) | field(rd.value(), 11, 5) | field(
                    rt.value(),
                    16,
                    5,
                ) | field(rs.value(), 21, 5) | field(*shamt, 6, 5);
                word_bytes(word)
            },
            Instruction::I { op, rt, rs, imm } => {
                let word = field(op.value(), 26, 6) | field(imm.assemble(labels, pc), 0, 16) | field(
                    rt.value(),
                    16,
                    5,
                ) | field(rs.value(), 21, 5);
                word_bytes(word)
            },
            Instruction::Literal { data } => data.clone(),
            Instruction::J { op, addr } => {
                let word = field(op.value(), 26, 6) | field(addr.assemble(labels), 0, 26);
                word_bytes(word)
            },
        }
    }

    /// How many bytes the instruction takes.
    pub fn len(&self) -> (n: usize)
        ensures
            n == self@.size(),
    {
        match self {
            Instruction::Literal { data } => data.len(),
            _ => 4,
        }
    }
}

} // verus!
