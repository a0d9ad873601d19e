//! Operation codes.

use vstd::prelude::*;

verus! {

/// The code that selects an operation: the `op` field of an I- or J-format
/// word, or the `funct` field of an R-format word.
#[derive(Debug, Clone, Copy, PartialEq, Eq, Structural)]
pub enum Opcode {
    Op(u8),
    Funct(u8),
}

impl Opcode {
    /// The numeric code, whichever field it goes into.
    pub open spec fn code(self) -> u32 {
        match self {
            Opcode::Op(op) => op as u32,
            Opcode::Funct(funct) => funct as u32,
        }
    }

    /// The numeric code.
    pub fn value(&self) -> (v: u32)
        ensures
            v == self.code(),
    {
        match self {
            Opcode::Op(op) => *op as u32,
            Opcode::Funct(op) => *op as u32,
        }
    }
}

} // verus!
