//! What the decode stage asks of the ALU.

use vstd::prelude::*;

verus! {

/// The `funct` field decides.
pub const OP_R: u8 = 0;

pub const OP_AND: u8 = 1;

pub const OP_OR: u8 = 2;

pub const OP_ADD: u8 = 3;

pub const OP_SUB: u8 = 4;

pub const OP_UPPER: u8 = 5;

/// The word's `op` field names no known instruction.
pub const OP_UNKNOWN: u8 = 0xff;

} // verus!
