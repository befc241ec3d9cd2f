//! An interpreter for the CHIP-8 virtual machine: machine state, instruction
//! decoding, instruction semantics and the timing model, each with a contract.

pub mod machine;
pub mod decode;
pub mod execute;
pub mod clock;
pub mod laws;
