//! The latches, gathered under one path.

pub use super::decode::IfId;
pub use super::execute::IdEx;
pub use super::memory::ExMem;
pub use super::writeback::{MemWb, PipelineOutput};
