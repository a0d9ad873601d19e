//! The operations of the ALU.

use vstd::prelude::*;

verus! {

pub const ALU_AND: u8 = 0;

pub const ALU_OR: u8 = 1;

pub const ALU_ADD: u8 = 2;

pub const ALU_SLT: u8 = 3;

pub const ALU_SLL: u8 = 4;

pub const ALU_SRL: u8 = 5;

pub const ALU_SRA: u8 = 6;

pub const ALU_UPPER: u8 = 7;

} // verus!
