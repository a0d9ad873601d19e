//! Instruction decode: fields, register reads and control signals.

use super::execute::op_ctrl::{OP_ADD, OP_AND, OP_OR, OP_R, OP_SUB, OP_UNKNOWN, OP_UPPER};
use super::execute::IdEx;
use crate::register::{Register, RegisterFile};
use vstd::prelude::*;

verus! {

/// What fetch hands to decode.
#[derive(Debug, Clone, Copy, PartialEq, Eq, Structural)]
pub struct IfId {
    pub instruction: u32,
    /// The address that the instruction was fetched from.
    pub pc: u32,
}

impl IfId {
    /// The empty latch.
    pub open spec fn empty() -> IfId {
        IfId { instruction: 0, pc: 0 }
    }
}

impl Default for IfId {
    fn default() -> (l: Self)
        ensures
            l == IfId::empty(),
    {
        IfId { instruction: 0, pc: 0 }
    }
}

// The operation codes that the pipeline executes.
pub const OPCODE_J: u32 = 0x02;

pub const OPCODE_BEQ: u32 = 0x04;

pub const OPCODE_BNE: u32 = 0x05;

pub const OPCODE_ADDI: u32 = 0x08;

pub const OPCODE_ANDI: u32 = 0x0c;

pub const OPCODE_ORI: u32 = 0x0d;

pub const OPCODE_LUI: u32 = 0x0f;

pub const OPCODE_LW: u32 = 0x23;

pub const OPCODE_SW: u32 = 0x2b;

/// The `funct` code of `syscall`.
pub const FUNCT_SYSCALL: u32 = 0x0c;

/// Bits 26-31 of a word.
pub open spec fn op_field(word: u32) -> u32 {
    (word & 0xfc00_0000) >> 26
}

/// Bits 21-25 of a word.
pub open spec fn rs_field(word: u32) -> u32 {
    (word & 0x03e0_0000) >> 21
}

/// Bits 16-20 of a word.
pub open spec fn rt_field(word: u32) -> u32 {
    (word & 0x001f_0000) >> 16
}

/// Bits 11-15 of a word.
pub open spec fn rd_field(word: u32) -> u32 {
    (word & 0x0000_f800) >> 11
}

/// Bits 6-10 of a word.
pub open spec fn shamt_field(word: u32) -> u32 {
    (word & 0x0000_07c0) >> 6
}

/// Bits 0-5 of a word.
pub open spec fn funct_field(word: u32) -> u32 {
    word & 0x0000_003f
}

/// Whether `op` is one of the operation codes that the pipeline executes.
pub open spec fn known_op(op: u32) -> bool {
    op == 0 || op == OPCODE_J || op == OPCODE_BEQ || op == OPCODE_BNE || op == OPCODE_ADDI || op
        == OPCODE_ANDI || op == OPCODE_ORI || op == OPCODE_LUI || op == OPCODE_LW || op
        == OPCODE_SW
}

/// What the ALU is asked to do for operation code `op`.
pub open spec fn alu_op_of(op: u32) -> u8 {
    if op == 0 {
        OP_R
    } else if op == OPCODE_BEQ || op == OPCODE_BNE {
        OP_SUB
    } else if op == OPCODE_J || op == OPCODE_ADDI || op == OPCODE_LW || op == OPCODE_SW {
        OP_ADD
    } else if op == OPCODE_ANDI {
        OP_AND
    } else if op == OPCODE_ORI {
        OP_OR
    } else if op == OPCODE_LUI {
        OP_UPPER
    } else {
        OP_UNKNOWN
    }
}

/// The latch that decode produces from the fetched word and the register
/// contents `regs`: the fields of the word, the values of `rs` and `rt`, and
/// one control signal per column of the instruction table. A word whose
/// operation code is not known gets no signal but `OP_UNKNOWN`.
pub open spec fn decoded(regs: Seq<u32>, input: IfId) -> IdEx {
    let word = input.instruction;
    let op = op_field(word);
    IdEx {
        alu_src: op == OPCODE_ADDI || op == OPCODE_ANDI || op == OPCODE_ORI || op == OPCODE_LUI
            || op == OPCODE_LW || op == OPCODE_SW,
        reg_dst: op == 0,
        alu_op: alu_op_of(op),
        op_funct: funct_field(word) as u8,
        reg_1: regs[Register(rs_field(word)).slot()],
        reg_2: regs[Register(rt_field(word)).slot()],
        imm: if op == OPCODE_J {
            word & 0x03ff_ffff
        } else {
            word & 0x0000_ffff
        },
        shamt: shamt_field(word),
        rt: Register(rt_field(word)),
        rd: Register(rd_field(word)),
        syscall: op == 0 && funct_field(word) == FUNCT_SYSCALL,
        branch: op == OPCODE_BEQ || op == OPCODE_BNE,
        branch_not: op == OPCODE_BNE,
        jump: op == OPCODE_J,
        pc: input.pc,
        mem_write: op == OPCODE_SW,
        mem_read: op == OPCODE_LW,
        mem_to_reg: op == OPCODE_LW,
        reg_write: op == 0 || op == OPCODE_ADDI || op == OPCODE_ANDI || op == OPCODE_ORI || op
            == OPCODE_LUI || op == OPCODE_LW,
        rs: Register(rs_field(word)),
        instruction: word,
    }
}

/// The register indices that decode extracts are those of real registers.
pub proof fn lemma_decoded_registers(regs: Seq<u32>, input: IfId)
    ensures
        decoded(regs, input).rs.valid(),
        decoded(regs, input).rt.valid(),
        decoded(regs, input).rd.valid(),
        decoded(regs, input).shamt < 32,
{
    let word = input.instruction;
    assert(((word & 0x03e0_0000) >> 21) < 32 && ((word & 0x001f_0000) >> 16) < 32 && ((word
        & 0x0000_f800) >> 11) < 32 && ((word & 0x0000_07c0) >> 6) < 32) by (bit_vector);
}

/// Decodes the fetched instruction and reads its source registers.
pub fn decode(reg_file: &mut RegisterFile, input: IfId) -> (out: IdEx)
    ensures
        out == decoded(old(reg_file)@, input),
        *final(reg_file) == *old(reg_file),
{
    let word = input.instruction;
    let rd = (word & 0x0000_f800) >> 11;
    let rt = (word & 0x001f_0000) >> 16;
    let rs = (word & 0x03e0_0000) >> 21;
    let funct = word & 0x0000_003f;
    let shamt = (word & 0x0000_07c0) >> 6;
    let op = (word & 0xfc00_0000) >> 26;
    let mut imm = word & 0x0000_ffff;

    let rs = Register(rs);
    let rt = Register(rt);
    let rd = Register(rd);

    let read_rs = reg_file.read_register(rs);
    let read_rt = reg_file.read_register(rt);

    let mut reg_dst = false;
    let mut alu_src = false;
    let mut mem_to_reg = false;
    let mut reg_write = false;
    let mut mem_write = false;
    let mut mem_read = false;
    let mut alu_op = OP_UNKNOWN;
    let mut branch = false;
    let mut branch_not = false;
    let mut jump = false;
    let mut syscall = false;

    if op == 0 {
        // R-format: the funct field picks the operation.
        syscall = funct == FUNCT_SYSCALL;
        reg_dst = true;
        reg_write = true;
        alu_op = OP_R;
    } else if op == OPCODE_LW {
        alu_src = true;
        mem_to_reg = true;
        reg_write = true;
        mem_read = true;
        alu_op = OP_ADD;
    } else if op == OPCODE_SW {
        alu_src = true;
        mem_write = true;
        alu_op = OP_ADD;
    } else if op == OPCODE_ADDI {
        alu_src = true;
        reg_write = true;
        alu_op = OP_ADD;
    } else if op == OPCODE_ANDI {
        alu_src = true;
        reg_write = true;
        alu_op = OP_AND;
    } else if op == OPCODE_LUI {
        alu_src = true;
        reg_write = true;
        alu_op = OP_UPPER;
    } else if op == OPCODE_ORI {
        alu_src = true;
        reg_write = true;
        alu_op = OP_OR;
    } else if op == OPCODE_BEQ {
        branch = true;
        alu_op = OP_SUB;
    } else if op == OPCODE_BNE {
        branch = true;
        branch_not = true;
        alu_op = OP_SUB;
    } else if op == OPCODE_J {
        jump = true;
        alu_op = OP_ADD;
        imm = word & 0x03ff_ffff;
    }
    assert(word & 0x0000_003f < 256) by (bit_vector);

    IdEx {
        alu_src,
        reg_dst,
        alu_op,
        op_funct: funct as u8,
        reg_1: read_rs,
        reg_2: read_rt,
        imm,
        shamt,
        rt,
        rd,
        syscall,
        branch,
        branch_not,
        jump,
        pc: input.pc,
        mem_write,
        mem_read,
        mem_to_reg,
        reg_write,
        rs,
        instruction: word,
    }
}

} // verus!
