//! What a step, or a bounded run, reports.

use vstd::prelude::*;

verus! {

/// How one step, or a bounded run, ended. Every way of not producing a value
/// has a variant of its own.
#[derive(Clone, Copy, Debug, PartialEq, Eq, Structural)]
pub enum Outcome {
    /// Nothing final yet: the machine can be stepped again.
    Running,
    /// HLT took this value from the stack; the program is over.
    Halted(i32),
    /// An operation needed more values than the stack held.
    Underflow,
    /// The instruction pointer addressed no position of the program.
    OutOfRange,
    /// The integer fetched as an opcode stands for no operation.
    InvalidOpcode,
    /// The result of an operation does not fit in 32 bits.
    Overflow,
    /// DIV met a zero divisor.
    DivideByZero,
}

impl Outcome {
    /// A fault ends the program without a value.
    pub open spec fn is_fault(self) -> bool {
        !(self is Running) && !(self is Halted)
    }
}

} // verus!
