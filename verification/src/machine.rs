//! The executable machine.

use vstd::prelude::*;
use crate::opcode::Opcode;
use crate::outcome::Outcome;
use crate::arith::compute;
use crate::state::State;

verus! {

/// A program together with the state of its execution. A machine is made for
/// one run and owns all of it.
pub struct Machine {
    /// The operand stack. It also carries return addresses, as plain values.
    pub stack: Vec<i32>,
    /// The program: opcodes and immediate operands by position.
    pub prog: Vec<i32>,
    /// The position of the next fetch.
    pub ip: i32,
    /// The values that DBG has shown, oldest first, for the caller to emit.
    pub output: Vec<i32>,
}

impl View for Machine {
    type V = State;

    open spec fn view(&self) -> State {
        State { prog: self.prog@, stack: self.stack@, ip: self.ip as int, output: self.output@ }
    }
}

impl Machine {
    /// A machine about to run `prog` from its first position.
    pub fn new(prog: Vec<i32>) -> (machine: Machine)
        ensures
            machine@ == State::initial(prog@),
    {
        let stack = Vec::with_capacity(100);
        let ip: i32 = 0;
        Machine { stack, prog, ip, output: Vec::new() }
    }

    /// Fetches what the pointer addresses and moves the pointer on by one.
    /// `None` means that the pointer addressed nothing.
    pub fn next(&mut self) -> (ins: Option<&i32>)
        ensures
            final(self)@ == old(self)@.advance(),
            match ins {
                Some(v) => old(self)@.fetched() == Some(*v),
                None => old(self)@.fetched() is None,
            },
    {
        if self.ip == i32::MAX {
            return None;
        }
        let at = self.ip;
        self.ip = at + 1;
        if at < 0 {
            return None;
        }
        let at = at as usize;
        if at < self.prog.len() {
            Some(&self.prog[at])
        } else {
            None
        }
    }

    /// Takes the left and then the right operand from the stack and computes
    /// the result of the two-operand operation `op`, which the caller pushes.
    fn arith(&mut self, op: Opcode) -> (res: Result<i32, Outcome>)
        requires
            op.is_binary(),
        ensures
            final(self)@ == old(self)@.popped(2),
            res == if old(self).stack@.len() < 2 {
                Err(Outcome::Underflow)
            } else {
                compute(
                    op,
                    old(self).stack@[old(self).stack@.len() - 1],
                    old(self).stack@[old(self).stack@.len() - 2],
                )
            },
    {
        let l = match self.stack.pop() {
            Some(l) => l,
            None => {
                assert(self.stack@ =~= Seq::empty());
                return Err(Outcome::Underflow);
            },
        };
        let r = match self.stack.pop() {
            Some(r) => r,
            None => {
                assert(self.stack@ =~= Seq::empty());
                return Err(Outcome::Underflow);
            },
        };
        assert(self.stack@ =~= old(self).stack@.take(old(self).stack@.len() - 2));
        let res = match op {
            Opcode::Add => l.checked_add(r),
            Opcode::Mul => l.checked_mul(r),
            Opcode::Div => {
                if r == 0 {
                    return Err(Outcome::DivideByZero);
                }
                l.checked_div(r)
            },
            _ => l.checked_sub(r),
        };
        assert(res == match compute(op, l, r) {
            Ok(v) => Some(v),
            Err(_) => None,
        });
        match res {
            Some(v) => Ok(v),
            None => Err(Outcome::Overflow),
        }
    }

    /// Executes one instruction and reports how it ended: `Running` when the
    /// program goes on, `Halted` with the value that HLT took from the
    /// stack, or the fault that stopped the instruction. What an instruction
    /// had done before its fault stays done.
    pub fn step(&mut self) -> (outcome: Outcome)
        ensures
            (final(self)@, outcome) == old(self)@.step(),
    {
        let code = match self.next() {
            Some(code) => *code,
            None => {
                return Outcome::OutOfRange;
            },
        };
        let op = match Opcode::decode(code) {
            Some(op) => op,
            None => {
                return Outcome::InvalidOpcode;
            },
        };
        let imm = if op.has_immediate() {
            match self.next() {
                Some(imm) => *imm,
                None => {
                    return Outcome::OutOfRange;
                },
            }
        } else {
            0
        };
        let ghost fetched = self@;
        let depth = self.stack.len();
        match op {
            Opcode::Push => {
                self.stack.push(imm);
                Outcome::Running
            },
            Opcode::Add | Opcode::Sub | Opcode::Mul | Opcode::Div | Opcode::Cmp => {
                match self.arith(op) {
                    Ok(v) => {
                        self.stack.push(v);
                        Outcome::Running
                    },
                    Err(fault) => fault,
                }
            },
            Opcode::Inc => {
                if depth == 0 {
                    return Outcome::Underflow;
                }
                let top = self.stack[depth - 1];
                if top == i32::MAX {
                    return Outcome::Overflow;
                }
                self.stack.set(depth - 1, top + 1);
                assert(self.stack@ =~= fetched.popped(1).pushed((top + 1) as i32).stack);
                Outcome::Running
            },
            Opcode::Dec => {
                if depth == 0 {
                    return Outcome::Underflow;
                }
                let top = self.stack[depth - 1];
                if top == i32::MIN {
                    return Outcome::Overflow;
                }
                self.stack.set(depth - 1, top - 1);
                assert(self.stack@ =~= fetched.popped(1).pushed((top - 1) as i32).stack);
                Outcome::Running
            },
            Opcode::Jmp => {
                match self.stack.pop() {
                    Some(target) => {
                        self.ip = target;
                        assert(self.stack@ =~= fetched.popped(1).stack);
                        Outcome::Running
                    },
                    None => Outcome::Underflow,
                }
            },
            Opcode::Jl => {
                match self.stack.pop() {
                    Some(sign) => {
                        if sign < 0 {
                            self.ip = imm;
                        }
                        assert(self.stack@ =~= fetched.popped(1).stack);
                        Outcome::Running
                    },
                    None => Outcome::Underflow,
                }
            },
            Opcode::Call => {
                let link = self.ip - 1;
                match self.stack.pop() {
                    Some(kept) => {
                        self.stack.push(link);
                        self.stack.push(kept);
                        self.ip = imm;
                        assert(self.stack@ =~= fetched.popped(1).pushed(link).pushed(kept).stack);
                        Outcome::Running
                    },
                    None => Outcome::Underflow,
                }
            },
            Opcode::Ret => {
                let kept = match self.stack.pop() {
                    Some(kept) => kept,
                    None => {
                        assert(self.stack@ =~= Seq::empty());
                        return Outcome::Underflow;
                    },
                };
                let link = match self.stack.pop() {
                    Some(link) => link,
                    None => {
                        assert(self.stack@ =~= Seq::empty());
                        return Outcome::Underflow;
                    },
                };
                assert(self.stack@ =~= fetched.popped(2).stack);
                if link == i32::MAX {
                    return Outcome::Overflow;
                }
                self.ip = link + 1;
                self.stack.push(kept);
                Outcome::Running
            },
            Opcode::Dbg => {
                if depth == 0 {
                    return Outcome::Underflow;
                }
                let top = self.stack[depth - 1];
                self.output.push(top);
                Outcome::Running
            },
            Opcode::Hlt => {
                match self.stack.pop() {
                    Some(value) => {
                        assert(self.stack@ =~= fetched.popped(1).stack);
                        Outcome::Halted(value)
                    },
                    None => Outcome::Underflow,
                }
            },
        }
    }

    /// Steps the machine until a step reports something other than `Running`,
    /// or until `budget` steps are done, and reports the last outcome:
    /// `Running` means that the budget ran out first.
    pub fn go(&mut self, budget: u64) -> (outcome: Outcome)
        ensures
            (final(self)@, outcome) == old(self)@.run(budget as nat),
    {
        let mut left = budget;
        while left > 0
            invariant
                self@.run(left as nat) == old(self)@.run(budget as nat),
            decreases left,
        {
            let outcome = self.step();
            match outcome {
                Outcome::Running => {},
                _ => {
                    return outcome;
                },
            }
            left = left - 1;
        }
        Outcome::Running
    }
}

} // verus!
