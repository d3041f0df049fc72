//! The machine as mathematics: its state, and what one step and a bounded run
//! make of a state. The executable machine is held to these functions.

use vstd::prelude::*;
use crate::arith::compute;
use crate::opcode::Opcode;
use crate::outcome::Outcome;

verus! {

/// Everything that an execution can change or read.
pub struct State {
    /// Opcodes and their immediate operands, interleaved by position.
    pub prog: Seq<i32>,
    /// The operand stack; its last element is the top.
    pub stack: Seq<i32>,
    /// The position of the next fetch.
    pub ip: int,
    /// What DBG has shown so far, oldest first.
    pub output: Seq<i32>,
}

impl State {
    /// A machine that has not run yet: empty stack, pointer at the start.
    pub open spec fn initial(prog: Seq<i32>) -> State {
        State { prog, stack: Seq::empty(), ip: 0, output: Seq::empty() }
    }

    /// Whether the pointer addresses a position of the program from which
    /// it can move on by one.
    pub open spec fn can_fetch(self) -> bool {
        0 <= self.ip < self.prog.len() && self.ip < i32::MAX
    }

    /// Whether position `at` can be fetched and holds `value`.
    pub open spec fn holds(self, at: int, value: i32) -> bool {
        0 <= at < self.prog.len() && at < i32::MAX && self.prog[at] == value
    }

    /// What a fetch finds at the pointer.
    pub open spec fn fetched(self) -> Option<i32> {
        if self.can_fetch() {
            Some(self.prog[self.ip])
        } else {
            None
        }
    }

    /// The operation that the next step carries out, if the step gets that
    /// far: its opcode can be fetched and stands for an operation, and so can
    /// its immediate operand where it has one.
    pub open spec fn next_op(self) -> Option<Opcode> {
        match self.fetched() {
            None => None,
            Some(code) => match Opcode::spec_decode(code) {
                None => None,
                Some(op) => if op.spec_has_immediate() && !self.advance().can_fetch() {
                    None
                } else {
                    Some(op)
                },
            },
        }
    }

    /// The state after a fetch: the pointer is one position on, whether or
    /// not anything was found; only the largest pointer stays where it is.
    pub open spec fn advance(self) -> State {
        State { ip: if self.ip < i32::MAX { self.ip + 1 } else { self.ip }, ..self }
    }

    /// The same state with another stack.
    pub open spec fn with_stack(self, stack: Seq<i32>) -> State {
        State { stack, ..self }
    }

    /// The same state without the `k` topmost values of the stack, or with an
    /// empty stack where it holds fewer.
    pub open spec fn popped(self, k: nat) -> State {
        if k <= self.stack.len() {
            self.with_stack(self.stack.take(self.stack.len() - k))
        } else {
            self.with_stack(Seq::empty())
        }
    }

    /// The same state with `v` on top of the stack.
    pub open spec fn pushed(self, v: i32) -> State {
        self.with_stack(self.stack.push(v))
    }

    /// The same state with the pointer set to `ip`.
    pub open spec fn jump(self, ip: int) -> State {
        State { ip, ..self }
    }

    /// The effect of `op` on a state whose pointer is already past the opcode
    /// and, where it has one, past its immediate operand `imm`.
    ///
    /// An operation that finds too few values has taken those that were
    /// there, in the order in which it reads them, before it reports
    /// `Underflow`; INC, DEC and DBG read the top where it lies.
    pub open spec fn execute(self, op: Opcode, imm: i32) -> (State, Outcome) {
        let n = self.stack.len() as int;
        let top = self.stack[n - 1];
        let below = self.stack[n - 2];
        if n < op.operands() {
            if op.operands() == 2 {
                (self.popped(2), Outcome::Underflow)
            } else {
                (self, Outcome::Underflow)
            }
        } else {
            match op {
                Opcode::Push => (self.pushed(imm), Outcome::Running),
                Opcode::Add | Opcode::Sub | Opcode::Mul | Opcode::Div | Opcode::Cmp => {
                    match compute(op, top, below) {
                        Ok(v) => (self.popped(2).pushed(v), Outcome::Running),
                        Err(fault) => (self.popped(2), fault),
                    }
                },
                Opcode::Inc => {
                    if top < i32::MAX {
                        (self.popped(1).pushed((top + 1) as i32), Outcome::Running)
                    } else {
                        (self, Outcome::Overflow)
                    }
                },
                Opcode::Dec => {
                    if top > i32::MIN {
                        (self.popped(1).pushed((top - 1) as i32), Outcome::Running)
                    } else {
                        (self, Outcome::Overflow)
                    }
                },
                Opcode::Jmp => (self.popped(1).jump(top as int), Outcome::Running),
                Opcode::Jl => {
                    if top < 0 {
                        (self.popped(1).jump(imm as int), Outcome::Running)
                    } else {
                        (self.popped(1), Outcome::Running)
                    }
                },
                Opcode::Call => {
                    let link = (self.ip - 1) as i32;
                    (self.popped(1).pushed(link).pushed(top).jump(imm as int), Outcome::Running)
                },
                Opcode::Ret => {
                    if below < i32::MAX {
                        (self.popped(2).pushed(top).jump(below + 1), Outcome::Running)
                    } else {
                        (self.popped(2), Outcome::Overflow)
                    }
                },
                Opcode::Dbg => (State { output: self.output.push(top), ..self }, Outcome::Running),
                Opcode::Hlt => (self.popped(1), Outcome::Halted(top)),
            }
        }
    }

    /// One step: fetch an opcode, fetch its immediate operand if it has one,
    /// and carry the operation out. The first thing that goes wrong ends the
    /// step and is its outcome.
    pub open spec fn step(self) -> (State, Outcome) {
        match self.fetched() {
            None => (self.advance(), Outcome::OutOfRange),
            Some(code) => match Opcode::spec_decode(code) {
                None => (self.advance(), Outcome::InvalidOpcode),
                Some(op) => {
                    if op.spec_has_immediate() {
                        match self.advance().fetched() {
                            None => (self.advance().advance(), Outcome::OutOfRange),
                            Some(imm) => self.advance().advance().execute(op, imm),
                        }
                    } else {
                        self.advance().execute(op, 0)
                    }
                },
            },
        }
    }

    /// At most `budget` steps, ending with the first that does not report
    /// `Running`. `Running` as the outcome of a run means that the budget
    /// was used up with the program still under way.
    pub open spec fn run(self, budget: nat) -> (State, Outcome)
        decreases budget,
    {
        if budget == 0 {
            (self, Outcome::Running)
        } else {
            let (next, outcome) = self.step();
            if outcome is Running {
                next.run((budget - 1) as nat)
            } else {
                (next, outcome)
            }
        }
    }
}

} // verus!
