//! The pipeline driver: one cycle of the five stages.

use crate::memory::{load_word, Memory, MemoryError};
use crate::register::{Register, RegisterFile, ZERO};
use crate::stages;
use crate::stages::decode::{decoded, IfId};
use crate::stages::execute::{executed, ExecuteError, IdEx};
use crate::stages::fetch::next_pc;
use crate::stages::memory::ExMem;
use crate::stages::writeback::{retired, written_back, MemWb, PipelineOutput};
use crate::syscall::{pending_view, trap, trapped, Syscall, SyscallView};
use vstd::prelude::*;
use vstd::string::StringExecFns;

verus! {

/// The five latches.
#[derive(Debug, Clone, Copy, PartialEq, Eq, Structural)]
pub struct PipelineState {
    pub if_id: IfId,
    pub id_ex: IdEx,
    pub ex_mem: ExMem,
    pub mem_wb: MemWb,
    pub pipe_out: PipelineOutput,
}

impl PipelineState {
    /// The state in which every latch is empty.
    pub open spec fn empty() -> PipelineState {
        PipelineState {
            if_id: IfId::empty(),
            id_ex: IdEx::empty(),
            ex_mem: ExMem::empty(),
            mem_wb: MemWb::empty(),
            pipe_out: PipelineOutput::empty(),
        }
    }
}

impl Default for PipelineState {
    fn default() -> (s: Self)
        ensures
            s == PipelineState::empty(),
    {
        PipelineState {
            if_id: IfId::default(),
            id_ex: IdEx::default(),
            ex_mem: ExMem::default(),
            mem_wb: MemWb::default(),
            pipe_out: PipelineOutput::default(),
        }
    }
}

/// The results that are on their way to the register file. Each entry holds
/// whether the instruction writes a register, which one, and the value.
#[derive(Clone, Copy)]
pub struct ForwardingUnit {
    /// From the instruction one ahead.
    pub ex_mem: (bool, Register, u32),
    /// From the instruction two ahead.
    pub mem_wb: (bool, Register, u32),
}

impl ForwardingUnit {
    /// The unit that forwards nothing.
    pub open spec fn idle() -> ForwardingUnit {
        ForwardingUnit { ex_mem: (false, Register(ZERO), 0), mem_wb: (false, Register(ZERO), 0) }
    }

    /// The unit as the latches of `state` fill it.
    pub open spec fn of(state: PipelineState) -> ForwardingUnit {
        ForwardingUnit {
            ex_mem: (state.ex_mem.reg_write, state.ex_mem.write_register, state.ex_mem.alu_result),
            mem_wb: (state.mem_wb.reg_write, state.mem_wb.write_register, state.mem_wb.selected()),
        }
    }
}

/// Why a cycle failed.
#[derive(Debug, Clone, Copy, PartialEq, Eq, Structural)]
pub enum CycleError {
    /// The memory stage refused a load.
    Memory(MemoryError),
    /// The execute stage met an instruction that it does not know.
    Execute(ExecuteError),
    /// The program counter is no multiple of four.
    Fetch(MemoryError),
}

impl CycleError {
    /// The message that goes to the console.
    pub open spec fn words(self) -> Seq<char> {
        match self {
            CycleError::Memory(e) => e.words(),
            CycleError::Execute(e) => e.words(),
            CycleError::Fetch(e) => "In instruction fetch stage: "@ + e.words(),
        }
    }

    /// The message that goes to the console.
    pub fn message(&self) -> (text: String)
        ensures
            text@ == self.words(),
    {
        match self {
            CycleError::Memory(e) => e.message(),
            CycleError::Execute(e) => e.message(),
            CycleError::Fetch(e) => {
                let mut text = String::from_str("In instruction fetch stage: ");
                text.append(e.message().as_str());
                text
            },
        }
    }
}

/// Whether the instruction that leaves decode needs what the load just
/// ahead of it has yet to read.
pub open spec fn load_use_hazard(ahead: IdEx, behind: IdEx) -> bool {
    ahead.mem_read && (ahead.rt == behind.rs || ahead.rt == behind.rt)
}

/// What one cycle leaves behind.
pub struct Cycled {
    pub pc: u32,
    pub regs: Seq<u32>,
    pub mem: Map<u32, u8>,
    /// The new latches and the system call that the cycle raised, or the
    /// first failure of the cycle.
    pub result: Result<(PipelineState, Option<SyscallView>), CycleError>,
}

/// The state with the two front stages held back: the instruction in
/// `if_id` stays, and a bubble follows `ex_mem`.
pub open spec fn stalled(
    state: PipelineState,
    ex_mem: ExMem,
    mem_wb: MemWb,
    pipe_out: PipelineOutput,
) -> PipelineState {
    PipelineState { if_id: state.if_id, id_ex: IdEx::empty(), ex_mem, mem_wb, pipe_out }
}

/// One cycle of the pipeline, from the program counter, the register
/// contents, the memory and the latches at its start.
///
/// The stages run from the back of the pipeline to the front, each on the
/// latch that the stage before it filled in the cycle before:
/// writeback, and the trap if a `syscall` retires, which ends the cycle and
/// empties `mem_wb`; the memory stage; execute, with what the old latches
/// forward; a stall while a `syscall` is in the back half; decode, on the
/// registers as writeback left them; a stall for a load-use hazard; fetch.
/// The first failure ends the cycle with what was done before it.
pub open spec fn cycled(pc: u32, regs: Seq<u32>, mem: Map<u32, u8>, state: PipelineState) -> Cycled {
    let regs1 = written_back(regs, state.mem_wb);
    let pipe_out = retired(state.mem_wb);
    if pipe_out.syscall {
        Cycled {
            pc,
            regs: regs1,
            mem,
            result: Ok(
                (
                    PipelineState {
                        if_id: state.if_id,
                        id_ex: state.id_ex,
                        ex_mem: state.ex_mem,
                        mem_wb: MemWb::empty(),
                        pipe_out,
                    },
                    Some(trapped(regs1, mem)),
                ),
            ),
        }
    } else {
        let mem1 = state.ex_mem.memory_after(mem);
        if state.ex_mem.faults() {
            Cycled {
                pc,
                regs: regs1,
                mem: mem1,
                result: Err(
                    CycleError::Memory(MemoryError::Unaligned { address: state.ex_mem.alu_result }),
                ),
            }
        } else {
            let mem_wb = state.ex_mem.passed_on(mem1);
            let pc1 = state.ex_mem.pc_after(pc);
            match executed(state.id_ex, ForwardingUnit::of(state)) {
                Err(e) => Cycled {
                    pc: pc1,
                    regs: regs1,
                    mem: mem1,
                    result: Err(CycleError::Execute(e)),
                },
                Ok(ex_mem) => {
                    let id_ex = decoded(regs1, state.if_id);
                    if ex_mem.syscall || mem_wb.syscall || load_use_hazard(state.id_ex, id_ex) {
                        Cycled {
                            pc: pc1,
                            regs: regs1,
                            mem: mem1,
                            result: Ok((stalled(state, ex_mem, mem_wb, pipe_out), None)),
                        }
                    } else if pc1 % 4 != 0 {
                        Cycled {
                            pc: pc1,
                            regs: regs1,
                            mem: mem1,
                            result: Err(
                                CycleError::Fetch(MemoryError::Unaligned { address: pc1 }),
                            ),
                        }
                    } else {
                        Cycled {
                            pc: next_pc(pc1),
                            regs: regs1,
                            mem: mem1,
                            result: Ok(
                                (
                                    PipelineState {
                                        if_id: IfId {
                                            instruction: load_word(mem1, pc1),
                                            pc: pc1,
                                        },
                                        id_ex,
                                        ex_mem,
                                        mem_wb,
                                        pipe_out,
                                    },
                                    None,
                                ),
                            ),
                        }
                    }
                },
            }
        }
    }
}

/// Register 0 reads as zero after every cycle, whatever the instructions in
/// flight write.
pub proof fn lemma_zero_register_stays_zero(
    pc: u32,
    regs: Seq<u32>,
    mem: Map<u32, u8>,
    state: PipelineState,
)
    requires
        regs.len() == 32,
        regs[0] == 0,
    ensures
        cycled(pc, regs, mem, state).regs.len() == 32,
        cycled(pc, regs, mem, state).regs[0] == 0,
{
}

/// A cycle in which a `syscall` retires moves nothing but the trap: the
/// latches in front of writeback stay, and `mem_wb` is emptied.
pub proof fn lemma_trap_parks(pc: u32, regs: Seq<u32>, mem: Map<u32, u8>, state: PipelineState)
    requires
        state.mem_wb.syscall,
    ensures
        cycled(pc, regs, mem, state).pc == pc,
        cycled(pc, regs, mem, state).mem == mem,
        cycled(pc, regs, mem, state).result matches Ok(next) && next.1 is Some && next.0.mem_wb
            == MemWb::empty() && next.0.if_id == state.if_id && next.0.id_ex == state.id_ex
            && next.0.ex_mem == state.ex_mem,
{
}

/// Whether the result of a cycle is the one that `expected` describes.
pub open spec fn same_result(
    r: Result<(PipelineState, Option<Syscall>), CycleError>,
    expected: Result<(PipelineState, Option<SyscallView>), CycleError>,
) -> bool {
    match (r, expected) {
        (Ok(got), Ok(want)) => got.0 == want.0 && pending_view(got.1) == want.1,
        (Err(e), Err(want)) => e == want,
        _ => false,
    }
}

/// Steps the machine forward by one cycle.
///
/// Returns the latches after the cycle, to be handed back for the next one,
/// and the system call that the cycle raised, if it raised one.
pub fn pipe_cycle(
    pc: &mut u32,
    regs: &mut RegisterFile,
    mem: &mut Memory,
    state: PipelineState,
) -> (r: Result<(PipelineState, Option<Syscall>), CycleError>)
    ensures
        same_result(r, cycled(*old(pc), old(regs)@, old(mem)@, state).result),
        *final(pc) == cycled(*old(pc), old(regs)@, old(mem)@, state).pc,
        final(regs)@ == cycled(*old(pc), old(regs)@, old(mem)@, state).regs,
        final(mem)@ == cycled(*old(pc), old(regs)@, old(mem)@, state).mem,
{
    let fwd_unit = ForwardingUnit {
        ex_mem: (state.ex_mem.reg_write, state.ex_mem.write_register, state.ex_mem.alu_result),
        mem_wb: (
            state.mem_wb.reg_write,
            state.mem_wb.write_register,
            if state.mem_wb.mem_to_reg {
                state.mem_wb.mem_data
            } else {
                state.mem_wb.alu_data
            },
        ),
    };

    let pipe_out = stages::writeback(regs, state.mem_wb);

    if pipe_out.syscall {
        let syscall = trap(regs, mem);
        // The latch that raised the call is emptied, so that the call is not
        // raised a second time.
        return Ok(
            (
                PipelineState {
                    if_id: state.if_id,
                    id_ex: state.id_ex,
                    ex_mem: state.ex_mem,
                    mem_wb: MemWb::default(),
                    pipe_out,
                },
                Some(syscall),
            ),
        );
    }
    let mem_wb = match stages::memory(pc, mem, state.ex_mem) {
        Ok(latch) => latch,
        Err(e) => {
            return Err(CycleError::Memory(e));
        },
    };

    let ex_mem = match stages::execute(state.id_ex, fwd_unit) {
        Ok(latch) => latch,
        Err(e) => {
            return Err(CycleError::Execute(e));
        },
    };

    // Nothing is fetched or decoded behind a system call.
    if ex_mem.syscall || mem_wb.syscall {
        return Ok(
            (
                PipelineState {
                    if_id: state.if_id,
                    id_ex: IdEx::default(),
                    ex_mem,
                    mem_wb,
                    pipe_out,
                },
                None,
            ),
        );
    }
    let id_ex = stages::decode(regs, state.if_id);
    if state.id_ex.mem_read && (state.id_ex.rt == id_ex.rs || state.id_ex.rt == id_ex.rt) {
        return Ok(
            (
                PipelineState {
                    if_id: state.if_id,
                    id_ex: IdEx::default(),
                    ex_mem,
                    mem_wb,
                    pipe_out,
                },
                None,
            ),
        );
    }
    let if_id = match stages::fetch(pc, mem) {
        Ok(latch) => latch,
        Err(e) => {
            return Err(CycleError::Fetch(e));
        },
    };

    Ok((PipelineState { if_id, id_ex, ex_mem, mem_wb, pipe_out }, None))
}

/// What one instruction does when it runs through all five stages at once,
/// with nothing forwarded.
pub open spec fn single_cycled(pc: u32, regs: Seq<u32>, mem: Map<u32, u8>) -> Cycled {
    if pc % 4 != 0 {
        Cycled {
            pc,
            regs,
            mem,
            result: Err(CycleError::Fetch(MemoryError::Unaligned { address: pc })),
        }
    } else {
        let if_id = IfId { instruction: load_word(mem, pc), pc };
        let id_ex = decoded(regs, if_id);
        match executed(id_ex, ForwardingUnit::idle()) {
            Err(e) => Cycled { pc: next_pc(pc), regs, mem, result: Err(CycleError::Execute(e)) },
            Ok(ex_mem) => {
                let mem1 = ex_mem.memory_after(mem);
                if ex_mem.faults() {
                    Cycled {
                        pc: next_pc(pc),
                        regs,
                        mem: mem1,
                        result: Err(
                            CycleError::Memory(
                                MemoryError::Unaligned { address: ex_mem.alu_result },
                            ),
                        ),
                    }
                } else {
                    let mem_wb = ex_mem.passed_on(mem1);
                    let regs1 = written_back(regs, mem_wb);
                    Cycled {
                        pc: ex_mem.pc_after(next_pc(pc)),
                        regs: regs1,
                        mem: mem1,
                        result: Ok(
                            (
                                PipelineState {
                                    if_id,
                                    id_ex,
                                    ex_mem,
                                    mem_wb,
                                    pipe_out: retired(mem_wb),
                                },
                                if mem_wb.syscall {
                                    Some(trapped(regs1, mem1))
                                } else {
                                    None
                                },
                            ),
                        ),
                    }
                }
            },
        }
    }
}

/// Whether `r` is the system call, or the failure, of `expected`.
pub open spec fn same_call(
    r: Result<Option<Syscall>, CycleError>,
    expected: Result<(PipelineState, Option<SyscallView>), CycleError>,
) -> bool {
    match (r, expected) {
        (Ok(got), Ok(want)) => pending_view(got) == want.1,
        (Err(e), Err(want)) => e == want,
        _ => false,
    }
}

/// Runs one whole instruction: fetch, decode, execute, memory and writeback
/// in a single step, without pipelining and so without forwarding.
pub fn _single_cycle(pc: &mut u32, regs: &mut RegisterFile, mem: &mut Memory) -> (r: Result<
    Option<Syscall>,
    CycleError,
>)
    ensures
        same_call(r, single_cycled(*old(pc), old(regs)@, old(mem)@).result),
        *final(pc) == single_cycled(*old(pc), old(regs)@, old(mem)@).pc,
        final(regs)@ == single_cycled(*old(pc), old(regs)@, old(mem)@).regs,
        final(mem)@ == single_cycled(*old(pc), old(regs)@, old(mem)@).mem,
{
    let fwd_unit = ForwardingUnit {
        ex_mem: (false, Register(ZERO), 0),
        mem_wb: (false, Register(ZERO), 0),
    };
    let if_id = match stages::fetch(pc, mem) {
        Ok(latch) => latch,
        Err(e) => {
            return Err(CycleError::Fetch(e));
        },
    };
    let id_ex = stages::decode(regs, if_id);
    let ex_mem = match stages::execute(id_ex, fwd_unit) {
        Ok(latch) => latch,
        Err(e) => {
            return Err(CycleError::Execute(e));
        },
    };
    let mem_wb = match stages::memory(pc, mem, ex_mem) {
        Ok(latch) => latch,
        Err(e) => {
            return Err(CycleError::Memory(e));
        },
    };
    let pipe_out = stages::writeback(regs, mem_wb);
    if pipe_out.syscall {
        Ok(Some(trap(regs, mem)))
    } else {
        Ok(None)
    }
}

} // verus!
