//! A cycle-level simulator for a subset of the 32-bit MIPS instruction set:
//! an assembler, a sparse paged memory, a register file and a five-stage
//! in-order pipeline with forwarding, a load-use stall and a cooperative
//! system-call trap.

pub mod console;
pub mod machine;
pub mod memory;
pub mod parser;
pub mod pipeline;
pub mod register;
pub mod stages;
pub mod syscall;
pub mod text;
pub mod watches;

pub use machine::{assembler, Machine};
pub use memory::{Memory, MemoryError};
pub use register::{
    Register, RegisterFile, A0, A1, A2, A3, AT, FP, GP, K0, K1, RA, S0, S1, S2, S3, S4, S5, S6,
    S7, SP, T0, T1, T2, T3, T4, T5, T6, T7, T8, T9, V0, V1, ZERO,
};
