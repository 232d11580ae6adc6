//! A CHIP-8 virtual machine whose every instruction is proved against a
//! mathematical model of the machine.

pub mod font;
pub mod host;
pub mod laws;
pub mod machine;
mod random;
pub mod vm;

pub use crate::machine::Fault;
pub use crate::machine::Machine;
pub use crate::machine::Op;
pub use crate::vm::Core;
