//! A small stack machine: a flat program of 32-bit integers, an operand stack
//! that also carries subroutine linkage, and a stepping interpreter whose
//! every outcome is reported as a value.

pub mod arith;
pub mod laws;
pub mod machine;
pub mod opcode;
pub mod outcome;
pub mod state;

pub use crate::machine::Machine;
pub use crate::opcode::Opcode;
pub use crate::outcome::Outcome;
