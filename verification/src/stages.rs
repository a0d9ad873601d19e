//! The five pipeline stages and the latches between them.

pub mod decode;
pub mod execute;
pub mod fetch;
pub mod inputs;
pub mod memory;
pub mod writeback;

pub use decode::decode;
pub use execute::{alu, execute};
pub use fetch::fetch;
pub use memory::memory;
pub use writeback::writeback;
