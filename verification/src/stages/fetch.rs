//! Instruction fetch.

use super::decode::IfId;
use crate::memory::{load_word, Memory, MemoryError};
use vstd::prelude::*;

verus! {

/// The address of the instruction after the one at `pc`.
pub open spec fn next_pc(pc: u32) -> u32 {
    ((pc + 4) % 0x1_0000_0000) as u32
}

/// Reads the word that the program counter points at and moves the counter
/// to the next word. A counter that is no multiple of four is refused and
/// left as it is.
pub fn fetch(pc: &mut u32, mem: &mut Memory) -> (r: Result<IfId, MemoryError>)
    ensures
        final(mem)@ == old(mem)@,
        *old(pc) % 4 == 0 ==> r == Ok::<IfId, MemoryError>(
            IfId { instruction: load_word(old(mem)@, *old(pc)), pc: *old(pc) },
        ) && *final(pc) == next_pc(*old(pc)),
        *old(pc) % 4 != 0 ==> r == Err::<IfId, MemoryError>(
            MemoryError::Unaligned { address: *old(pc) },
        ) && *final(pc) == *old(pc),
{
    let at = *pc;
    match mem.get(at) {
        Ok(instruction) => {
            *pc = at.wrapping_add(4);
            Ok(IfId { instruction, pc: at })
        },
        Err(e) => Err(e),
    }
}

} // verus!
