//! Memory access, and the point where branches and jumps take effect.

use super::writeback::MemWb;
use crate::memory::{load_word, store_word, Memory, MemoryError};
use crate::register::Register;
use vstd::prelude::*;

verus! {

/// What execute hands to the memory stage.
#[derive(Debug, Clone, Copy, PartialEq, Eq, Structural)]
pub struct ExMem {
    pub alu_result: u32,
    /// The ALU result was zero.
    pub zero: bool,
    pub branch: bool,
    /// The branch is taken on a non-zero result instead of a zero one.
    pub branch_not: bool,
    pub jump: bool,
    pub write_data: u32,
    pub mem_write: bool,
    pub mem_read: bool,
    pub branch_pc: u32,
    pub jump_pc: u32,
    pub mem_to_reg: bool,
    pub write_register: Register,
    pub reg_write: bool,
    pub syscall: bool,
    pub instruction: u32,
    /// The address that the instruction was fetched from.
    pub pc: u32,
}

impl ExMem {
    /// The empty latch.
    pub open spec fn empty() -> ExMem {
        ExMem {
            alu_result: 0,
            zero: false,
            branch: false,
            branch_not: false,
            jump: false,
            write_data: 0,
            mem_write: false,
            mem_read: false,
            branch_pc: 0,
            jump_pc: 0,
            mem_to_reg: false,
            write_register: Register(0),
            reg_write: false,
            syscall: false,
            instruction: 0,
            pc: 0,
        }
    }

    /// Whether the instruction redirects the program counter: a jump always,
    /// a branch when the comparison came out its way.
    pub open spec fn taken(self) -> bool {
        self.jump || (self.branch && self.zero != self.branch_not)
    }

    /// The program counter after the instruction's memory stage.
    pub open spec fn pc_after(self, pc: u32) -> u32 {
        if self.jump {
            self.jump_pc
        } else if self.branch && self.zero != self.branch_not {
            self.branch_pc
        } else {
            pc
        }
    }

    /// The memory after the instruction's memory stage.
    pub open spec fn memory_after(self, bytes: Map<u32, u8>) -> Map<u32, u8> {
        if self.mem_write {
            store_word(bytes, self.alu_result, self.write_data)
        } else {
            bytes
        }
    }

    /// Whether the instruction loads from an address that is no multiple of
    /// four, which the memory refuses.
    pub open spec fn faults(self) -> bool {
        self.mem_read && self.alu_result % 4 != 0
    }

    /// What the memory stage hands on, given the memory as the stage leaves
    /// it.
    pub open spec fn passed_on(self, bytes: Map<u32, u8>) -> MemWb {
        MemWb {
            mem_to_reg: self.mem_to_reg,
            mem_data: if self.mem_read {
                load_word(bytes, self.alu_result)
            } else {
                0
            },
            alu_data: self.alu_result,
            write_register: self.write_register,
            reg_write: self.reg_write,
            syscall: self.syscall,
            instruction: self.instruction,
            pc: self.pc,
        }
    }
}

impl Default for ExMem {
    fn default() -> (l: Self)
        ensures
            l == ExMem::empty(),
    {
        ExMem {
            alu_result: 0,
            zero: false,
            branch: false,
            branch_not: false,
            jump: false,
            write_data: 0,
            mem_write: false,
            mem_read: false,
            branch_pc: 0,
            jump_pc: 0,
            mem_to_reg: false,
            write_register: Register(0),
            reg_write: false,
            syscall: false,
            instruction: 0,
            pc: 0,
        }
    }
}

/// Performs the store or the load of an instruction and redirects the
/// program counter for a jump or a taken branch.
///
/// A store is laid out byte by byte and is accepted at every address. A load
/// from an address that is no multiple of four fails; the store, if any,
/// has then been done and the program counter is left as it was.
pub fn memory(pc: &mut u32, mem: &mut Memory, input: ExMem) -> (r: Result<MemWb, MemoryError>)
    ensures
        final(mem)@ == input.memory_after(old(mem)@),
        input.faults() ==> r == Err::<MemWb, MemoryError>(
            MemoryError::Unaligned { address: input.alu_result },
        ) && *final(pc) == *old(pc),
        !input.faults() ==> r == Ok::<MemWb, MemoryError>(input.passed_on(final(mem)@))
            && *final(pc) == input.pc_after(*old(pc)),
{
    let mut read_data: u32 = 0;
    if input.mem_write {
        mem.set_word(input.alu_result, input.write_data);
    }
    if input.mem_read {
        match mem.get(input.alu_result) {
            Ok(word) => {
                read_data = word;
            },
            Err(e) => {
                return Err(e);
            },
        }
    }
    if input.branch && input.zero != input.branch_not {
        *pc = input.branch_pc;
    }
    if input.jump {
        *pc = input.jump_pc;
    }
    Ok(
        MemWb {
            mem_to_reg: input.mem_to_reg,
            mem_data: read_data,
            alu_data: input.alu_result,
            write_register: input.write_register,
            reg_write: input.reg_write,
            syscall: input.syscall,
            instruction: input.instruction,
            pc: input.pc,
        },
    )
}

} // verus!
