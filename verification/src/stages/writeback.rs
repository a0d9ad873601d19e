//! Register writeback.

use crate::register::{Register, RegisterFile};
use vstd::prelude::*;

verus! {

/// What the memory stage hands to writeback.
#[derive(Debug, Clone, Copy, PartialEq, Eq, Structural)]
pub struct MemWb {
    pub mem_to_reg: bool,
    pub mem_data: u32,
    pub alu_data: u32,
    pub write_register: Register,
    pub reg_write: bool,
    pub syscall: bool,
    pub instruction: u32,
    /// The address that the instruction was fetched from.
    pub pc: u32,
}

impl MemWb {
    /// The empty latch.
    pub open spec fn empty() -> MemWb {
        MemWb {
            mem_to_reg: false,
            mem_data: 0,
            alu_data: 0,
            write_register: Register(0),
            reg_write: false,
            syscall: false,
            instruction: 0,
            pc: 0,
        }
    }

    /// The value that goes to the register file: what was loaded for a
    /// load, else what the ALU computed.
    pub open spec fn selected(self) -> u32 {
        if self.mem_to_reg {
            self.mem_data
        } else {
            self.alu_data
        }
    }
}

impl Default for MemWb {
    fn default() -> (l: Self)
        ensures
            l == MemWb::empty(),
    {
        MemWb {
            mem_to_reg: false,
            mem_data: 0,
            alu_data: 0,
            write_register: Register(0),
            reg_write: false,
            syscall: false,
            instruction: 0,
            pc: 0,
        }
    }
}

/// What leaves the pipeline; kept for display only.
#[derive(Debug, Clone, Copy, PartialEq, Eq, Structural)]
pub struct PipelineOutput {
    pub syscall: bool,
    pub instruction: u32,
    /// The address that the instruction was fetched from.
    pub pc: u32,
}

impl PipelineOutput {
    /// The empty latch.
    pub open spec fn empty() -> PipelineOutput {
        PipelineOutput { syscall: false, instruction: 0, pc: 0 }
    }
}

impl Default for PipelineOutput {
    fn default() -> (l: Self)
        ensures
            l == PipelineOutput::empty(),
    {
        PipelineOutput { syscall: false, instruction: 0, pc: 0 }
    }
}

/// The register contents after the writeback of `input`.
pub open spec fn written_back(regs: Seq<u32>, input: MemWb) -> Seq<u32> {
    if input.reg_write && input.write_register.slot() != 0 {
        regs.update(input.write_register.slot(), input.selected())
    } else {
        regs
    }
}

/// What writeback passes on from `input`.
pub open spec fn retired(input: MemWb) -> PipelineOutput {
    PipelineOutput { syscall: input.syscall, instruction: input.instruction, pc: input.pc }
}

/// Writes the result of an instruction into its destination register, if it
/// has one.
pub fn writeback(reg_file: &mut RegisterFile, input: MemWb) -> (out: PipelineOutput)
    ensures
        final(reg_file)@ == written_back(old(reg_file)@, input),
        out == retired(input),
{
    if input.reg_write {
        if input.mem_to_reg {
            reg_file.write_register(input.write_register, input.mem_data);
        } else {
            reg_file.write_register(input.write_register, input.alu_data);
        }
    }
    PipelineOutput { syscall: input.syscall, instruction: input.instruction, pc: input.pc }
}

} // verus!
