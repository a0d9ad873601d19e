//! The execute stage: operand selection, forwarding and the ALU.

use super::memory::ExMem;
use crate::pipeline::ForwardingUnit;
use crate::register::Register;
use crate::text::{numeral, render};
use alu_signals::{ALU_ADD, ALU_AND, ALU_OR, ALU_SLL, ALU_SLT, ALU_SRA, ALU_SRL, ALU_UPPER};
use op_ctrl::{OP_ADD, OP_AND, OP_OR, OP_R, OP_SUB, OP_UPPER};
use vstd::prelude::*;
use vstd::string::StringExecFns;

pub mod alu_signals;
pub mod op_ctrl;

verus! {

/// What decode hands to execute.
#[derive(Debug, Clone, Copy, PartialEq, Eq, Structural)]
pub struct IdEx {
    /// The second ALU operand is the immediate, not `rt`.
    pub alu_src: bool,
    /// The destination register is `rd`, not `rt`.
    pub reg_dst: bool,
    pub alu_op: u8,
    pub op_funct: u8,
    /// The value of `rs` read at decode.
    pub reg_1: u32,
    /// The value of `rt` read at decode.
    pub reg_2: u32,
    pub imm: u32,
    pub shamt: u32,
    pub rt: Register,
    pub rd: Register,
    pub syscall: bool,
    pub branch: bool,
    /// The branch is taken on inequality.
    pub branch_not: bool,
    pub jump: bool,
    /// The address that the instruction was fetched from.
    pub pc: u32,
    pub mem_write: bool,
    pub mem_read: bool,
    pub mem_to_reg: bool,
    pub reg_write: bool,
    pub rs: Register,
    pub instruction: u32,
}

impl IdEx {
    /// The bubble: the latch of an instruction that does nothing.
    pub open spec fn empty() -> IdEx {
        IdEx {
            alu_src: false,
            reg_dst: false,
            alu_op: 0,
            op_funct: 0,
            reg_1: 0,
            reg_2: 0,
            imm: 0,
            shamt: 0,
            rt: Register(0),
            rd: Register(0),
            syscall: false,
            branch: false,
            branch_not: false,
            jump: false,
            pc: 0,
            mem_write: false,
            mem_read: false,
            mem_to_reg: false,
            reg_write: false,
            rs: Register(0),
            instruction: 0,
        }
    }
}

impl Default for IdEx {
    fn default() -> (l: Self)
        ensures
            l == IdEx::empty(),
    {
        IdEx {
            alu_src: false,
            reg_dst: false,
            alu_op: 0,
            op_funct: 0,
            reg_1: 0,
            reg_2: 0,
            imm: 0,
            shamt: 0,
            rt: Register(0),
            rd: Register(0),
            syscall: false,
            branch: false,
            branch_not: false,
            jump: false,
            pc: 0,
            mem_write: false,
            mem_read: false,
            mem_to_reg: false,
            reg_write: false,
            rs: Register(0),
            instruction: 0,
        }
    }
}

/// Why the execute stage refused an instruction.
#[derive(Debug, Clone, Copy, PartialEq, Eq, Structural)]
pub enum ExecuteError {
    /// An R-format word whose `funct` field names no known operation.
    UnknownFunct { funct: u8 },
    /// A word whose operation code is not known.
    UnknownInstruction,
}

impl ExecuteError {
    /// The message that goes to the console.
    pub open spec fn words(self) -> Seq<char> {
        match self {
            ExecuteError::UnknownFunct { funct } => "Unknown funct: "@ + numeral(funct as nat, 10),
            ExecuteError::UnknownInstruction => "Unknown Instruction"@,
        }
    }

    /// The message that goes to the console.
    pub fn message(&self) -> (text: String)
        ensures
            text@ == self.words(),
    {
        match self {
            ExecuteError::UnknownFunct { funct } => {
                let mut text = String::from_str("Unknown funct: ");
                text.append(render(*funct as u32, 10).as_str());
                text
            },
            ExecuteError::UnknownInstruction => String::from_str("Unknown Instruction"),
        }
    }
}

/// The ALU control lines for an instruction: whether each operand is
/// inverted, and the operation.
pub open spec fn alu_control(alu_op: u8, funct: u8) -> Result<(bool, bool, u8), ExecuteError> {
    if alu_op == OP_R {
        if funct == 0x20 {
            Ok((false, false, ALU_ADD))
        } else if funct == 0x22 {
            Ok((false, true, ALU_ADD))
        } else if funct == 0x24 {
            Ok((false, false, ALU_AND))
        } else if funct == 0x2a {
            Ok((false, false, ALU_SLT))
        } else if funct == 0x25 {
            Ok((false, false, ALU_OR))
        } else if funct == 0x27 {
            Ok((true, true, ALU_AND))
        } else if funct == 0x00 {
            Ok((false, false, ALU_SLL))
        } else if funct == 0x02 {
            Ok((false, false, ALU_SRL))
        } else if funct == 0x03 {
            Ok((false, false, ALU_SRA))
        } else if funct == 0x0c {
            Ok((false, false, ALU_ADD))
        } else {
            Err(ExecuteError::UnknownFunct { funct })
        }
    } else if alu_op == OP_ADD {
        Ok((false, false, ALU_ADD))
    } else if alu_op == OP_SUB {
        Ok((false, true, ALU_ADD))
    } else if alu_op == OP_AND {
        Ok((false, false, ALU_AND))
    } else if alu_op == OP_OR {
        Ok((false, false, ALU_OR))
    } else if alu_op == OP_UPPER {
        Ok((false, false, ALU_UPPER))
    } else {
        Err(ExecuteError::UnknownInstruction)
    }
}

/// The value of `reg` that execute works with: the result of the
/// instruction one ahead if that instruction writes `reg`, else that of the
/// instruction two ahead if that one does, else `value`, which decode read.
pub open spec fn forwarded(fwd: ForwardingUnit, reg: Register, value: u32) -> u32 {
    if fwd.ex_mem.0 && reg == fwd.ex_mem.1 {
        fwd.ex_mem.2
    } else if fwd.mem_wb.0 && reg == fwd.mem_wb.1 {
        fwd.mem_wb.2
    } else {
        value
    }
}

/// A 16-bit immediate, extended to a word by its sign.
pub open spec fn sign_extended(imm: u32) -> u32 {
    if imm & 0x8000 != 0 {
        imm | 0xffff_0000
    } else {
        imm & 0x0000_ffff
    }
}

/// The sum of two words, modulo 2^32.
pub open spec fn wrapping_sum(a: u32, b: u32) -> u32 {
    ((a + b) % 0x1_0000_0000) as u32
}

/// The two's-complement number that a word holds.
pub open spec fn signed(word: u32) -> int {
    if word < 0x8000_0000 {
        word as int
    } else {
        word - 0x1_0000_0000
    }
}

/// The word that the ALU computes from `a` and `b` under the control lines
/// `op`. An inverted operand is complemented bit by bit; for addition it is
/// incremented as well, so that it is negated.
pub open spec fn alu_value(a: u32, b: u32, op: (bool, bool, u8)) -> u32 {
    let a1 = if op.0 {
        !a
    } else {
        a
    };
    let b1 = if op.1 {
        !b
    } else {
        b
    };
    if op.2 == ALU_AND {
        a1 & b1
    } else if op.2 == ALU_OR {
        a1 | b1
    } else if op.2 == ALU_ADD {
        wrapping_sum(
            if op.0 {
                wrapping_sum(a1, 1)
            } else {
                a1
            },
            if op.1 {
                wrapping_sum(b1, 1)
            } else {
                b1
            },
        )
    } else if op.2 == ALU_SLL {
        a1 << (b1 % 32)
    } else if op.2 == ALU_SRL {
        a1 >> (b1 % 32)
    } else if op.2 == ALU_SRA {
        if a1 < 0x8000_0000 {
            a1 >> (b1 % 32)
        } else {
            (a1 >> (b1 % 32)) | !(0xffff_ffffu32 >> (b1 % 32))
        }
    } else if op.2 == ALU_UPPER {
        b1 << 16
    } else {
        if signed(a1) < signed(b1) {
            1
        } else {
            0
        }
    }
}

/// With the second operand inverted, addition subtracts.
pub proof fn lemma_alu_subtracts(a: u32, b: u32)
    ensures
        alu_value(a, b, (false, true, ALU_ADD)) == ((a - b) % 0x1_0000_0000) as u32,
{
    assert(!b == 0xffff_ffff - b) by (bit_vector);
}

/// With both operands inverted, AND computes NOR.
pub proof fn lemma_alu_nor(a: u32, b: u32)
    ensures
        alu_value(a, b, (true, true, ALU_AND)) == !(a | b),
{
    assert(!a & !b == !(a | b)) by (bit_vector);
}

/// An arithmetic right shift keeps the sign and halves the number once per
/// position.
pub proof fn lemma_alu_shift_keeps_sign(a: u32, b: u32)
    ensures
        signed(a) < 0 <==> signed(alu_value(a, b, (false, false, ALU_SRA))) < 0,
{
    let s = b % 32;
    assert(a < 0x8000_0000u32 ==> (a >> s) < 0x8000_0000u32) by (bit_vector)
        requires
            s < 32,
    ;
    assert(a >= 0x8000_0000u32 ==> ((a >> s) | !(0xffff_ffffu32 >> s)) >= 0x8000_0000u32)
        by (bit_vector)
        requires
            s < 32,
    ;
}

/// The ALU.
pub fn alu(a: u32, b: u32, op: (bool, bool, u8)) -> (r: u32)
    requires
        op.2 <= ALU_UPPER,
    ensures
        r == alu_value(a, b, op),
{
    let a = if op.0 {
        !a
    } else {
        a
    };
    let b = if op.1 {
        !b
    } else {
        b
    };
    // Two's-complement negation: the complement, plus one.
    let arith_a = if op.0 {
        a.wrapping_add(1)
    } else {
        a
    };
    let arith_b = if op.1 {
        b.wrapping_add(1)
    } else {
        b
    };
    if op.2 == ALU_AND {
        a & b
    } else if op.2 == ALU_OR {
        a | b
    } else if op.2 == ALU_ADD {
        arith_a.wrapping_add(arith_b)
    } else if op.2 == ALU_SLL {
        a << (b % 32)
    } else if op.2 == ALU_SRL {
        // A logical shift: zeros come in from the left.
        a >> (b % 32)
    } else if op.2 == ALU_SRA {
        // An arithmetic shift: copies of the sign bit come in from the left.
        if a < 0x8000_0000 {
            a >> (b % 32)
        } else {
            (a >> (b % 32)) | !(0xffff_ffffu32 >> (b % 32))
        }
    } else if op.2 == ALU_UPPER {
        b << 16
    } else {
        let a_negative = a >= 0x8000_0000;
        let b_negative = b >= 0x8000_0000;
        let less = if a_negative != b_negative {
            a_negative
        } else {
            a < b
        };
        if less {
            1
        } else {
            0
        }
    }
}

/// The latch that execute produces, or the reason why it refuses.
///
/// The ALU works on the value of `rs` and, unless the instruction takes an
/// immediate, that of `rt`, each taken from the forwarding unit where a
/// result is on its way; a shift works on the value of `rt` and the shift
/// amount. A store writes the value of `rt`.
pub open spec fn executed(input: IdEx, fwd: ForwardingUnit) -> Result<ExMem, ExecuteError> {
    match alu_control(input.alu_op, input.op_funct) {
        Err(e) => Err(e),
        Ok(ctrl) => {
            let rs_value = forwarded(fwd, input.rs, input.reg_1);
            let rt_value = forwarded(fwd, input.rt, input.reg_2);
            let shift = ctrl.2 == ALU_SLL || ctrl.2 == ALU_SRL || ctrl.2 == ALU_SRA;
            let arg1 = if shift {
                rt_value
            } else {
                rs_value
            };
            let arg2 = if shift {
                input.shamt
            } else if input.alu_src {
                sign_extended(input.imm)
            } else {
                rt_value
            };
            let result = alu_value(arg1, arg2, ctrl);
            Ok(
                ExMem {
                    alu_result: result,
                    zero: result == 0,
                    branch: input.branch,
                    branch_not: input.branch_not,
                    jump: input.jump,
                    write_data: rt_value,
                    mem_write: input.mem_write,
                    mem_read: input.mem_read,
                    branch_pc: wrapping_sum(input.pc, sign_extended(input.imm) << 2),
                    jump_pc: input.imm << 2,
                    mem_to_reg: input.mem_to_reg,
                    write_register: if input.reg_dst {
                        input.rd
                    } else {
                        input.rt
                    },
                    reg_write: input.reg_write,
                    syscall: input.syscall,
                    instruction: input.instruction,
                    pc: input.pc,
                },
            )
        },
    }
}

/// Picks the ALU control lines for an instruction.
fn control_lines(alu_op: u8, funct: u8) -> (r: Result<(bool, bool, u8), ExecuteError>)
    ensures
        r == alu_control(alu_op, funct),
        r matches Ok(ctrl) ==> ctrl.2 <= ALU_UPPER,
{
    if alu_op == OP_R {
        match funct {
            0x20 => Ok((false, false, ALU_ADD)),
            0x22 => Ok((false, true, ALU_ADD)),
            0x24 => Ok((false, false, ALU_AND)),
            0x2a => Ok((false, false, ALU_SLT)),
            0x25 => Ok((false, false, ALU_OR)),
            0x27 => Ok((true, true, ALU_AND)),
            0x00 => Ok((false, false, ALU_SLL)),
            0x02 => Ok((false, false, ALU_SRL)),
            0x03 => Ok((false, false, ALU_SRA)),
            0x0c => Ok((false, false, ALU_ADD)),
            _ => Err(ExecuteError::UnknownFunct { funct }),
        }
    } else if alu_op == OP_ADD {
        Ok((false, false, ALU_ADD))
    } else if alu_op == OP_SUB {
        Ok((false, true, ALU_ADD))
    } else if alu_op == OP_AND {
        Ok((false, false, ALU_AND))
    } else if alu_op == OP_OR {
        Ok((false, false, ALU_OR))
    } else if alu_op == OP_UPPER {
        Ok((false, false, ALU_UPPER))
    } else {
        Err(ExecuteError::UnknownInstruction)
    }
}

/// Extends a 16-bit immediate to a word by its sign.
fn sign_extend(imm: u32) -> (r: u32)
    ensures
        r == sign_extended(imm),
{
    if imm & 0x8000 != 0 {
        imm | 0xffff_0000
    } else {
        imm & 0x0000_ffff
    }
}

/// Runs the execute stage. An instruction whose operation is not known is
/// refused.
pub fn execute(input: IdEx, fwd_unit: ForwardingUnit) -> (r: Result<ExMem, ExecuteError>)
    ensures
        r == executed(input, fwd_unit),
{
    let alu_ctrl = match control_lines(input.alu_op, input.op_funct) {
        Ok(ctrl) => ctrl,
        Err(e) => {
            return Err(e);
        },
    };

    let mut arg1 = input.reg_1;
    let mut arg2 = input.reg_2;

    // The older result first, so that the newer one wins where both match.
    if fwd_unit.mem_wb.0 && input.rs == fwd_unit.mem_wb.1 {
        arg1 = fwd_unit.mem_wb.2;
    }
    if fwd_unit.ex_mem.0 && input.rs == fwd_unit.ex_mem.1 {
        arg1 = fwd_unit.ex_mem.2;
    }
    if fwd_unit.mem_wb.0 && input.rt == fwd_unit.mem_wb.1 {
        arg2 = fwd_unit.mem_wb.2;
    }
    if fwd_unit.ex_mem.0 && input.rt == fwd_unit.ex_mem.1 {
        arg2 = fwd_unit.ex_mem.2;
    }
    let write_data = arg2;

    if input.alu_src {
        arg2 = sign_extend(input.imm);
    }
    if alu_ctrl.2 == ALU_SLL || alu_ctrl.2 == ALU_SRL || alu_ctrl.2 == ALU_SRA {
        arg1 = write_data;
        arg2 = input.shamt;
    }
    let result = alu(arg1, arg2, alu_ctrl);

    Ok(
        ExMem {
            alu_result: result,
            zero: result == 0,
            branch: input.branch,
            branch_not: input.branch_not,
            jump: input.jump,
            write_data,
            mem_write: input.mem_write,
            mem_read: input.mem_read,
            branch_pc: input.pc.wrapping_add(sign_extend(input.imm) << 2),
            jump_pc: input.imm << 2,
            mem_to_reg: input.mem_to_reg,
            write_register: if input.reg_dst {
                input.rd
            } else {
                input.rt
            },
            reg_write: input.reg_write,
            syscall: input.syscall,
            instruction: input.instruction,
            pc: input.pc,
        },
    )
}

} // verus!
