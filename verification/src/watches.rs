//! Watches: a register or a word of memory that the user keeps an eye on.

use crate::machine::Machine;
use crate::memory::{load_word, store_word};
use crate::register::Register;
use vstd::prelude::*;

verus! {

/// What a watch looks at.
#[derive(Debug, PartialEq, Eq, Clone, Copy, Structural)]
pub enum WatchType {
    Register,
    Memory,
}

impl Default for WatchType {
    fn default() -> (ty: Self)
        ensures
            ty == WatchType::Register,
    {
        WatchType::Register
    }
}

impl WatchType {
    /// The name of the kind of watch.
    pub fn label(&self) -> (name: &'static str)
        ensures
            name@ == (match self {
                WatchType::Register => "Register"@,
                WatchType::Memory => "Memory"@,
            }),
    {
        match self {
            WatchType::Register => "Register",
            WatchType::Memory => "Memory",
        }
    }
}

/// A watch: the register with index `val`, or the word at address `val`.
#[derive(Debug, PartialEq, Eq, Clone, Copy, Structural)]
pub struct Watch {
    pub ty: WatchType,
    pub val: u32,
}

impl Default for Watch {
    fn default() -> (watch: Self)
        ensures
            watch == (Watch { ty: WatchType::Register, val: 0 }),
    {
        Watch { ty: WatchType::Register, val: 0 }
    }
}

/// The register contents after `val` is stored into the register with
/// index `index`; a store into register 0 is dropped.
pub open spec fn stored(regs: Seq<u32>, index: u32, val: u32) -> Seq<u32> {
    if Register(index).slot() == 0 {
        regs
    } else {
        regs.update(Register(index).slot(), val)
    }
}

impl Watch {
    /// What the watch shows: the value of its register, or the word at its
    /// address, which is zero where the address is no multiple of four.
    pub fn read(&self, vm: &Machine) -> (v: u32)
        ensures
            v == (match self.ty {
                WatchType::Register => vm.registers()[Register(self.val).slot()],
                WatchType::Memory => if self.val % 4 == 0 {
                    load_word(vm.memory(), self.val)
                } else {
                    0
                },
            }),
    {
        match self.ty {
            WatchType::Register => vm.register(Register::from(self.val)),
            WatchType::Memory => match vm.read_word(self.val) {
                Ok(word) => word,
                Err(_) => 0,
            },
        }
    }

    /// Stores `val` into what the watch looks at.
    pub fn write(&self, vm: &mut Machine, val: u32)
        ensures
            match self.ty {
                WatchType::Register => {
                    &&& old(vm).same_but_registers(final(vm))
                    &&& final(vm).registers() == stored(old(vm).registers(), self.val, val)
                },
                WatchType::Memory => {
                    &&& old(vm).same_but_memory(final(vm))
                    &&& final(vm).memory() == store_word(old(vm).memory(), self.val, val)
                },
            },
    {
        match self.ty {
            WatchType::Register => {
                let slot = vm.register_mut(Register::from(self.val));
                *slot = val;
            },
            WatchType::Memory => vm.write_word(self.val, val),
        }
    }
}

} // verus!
