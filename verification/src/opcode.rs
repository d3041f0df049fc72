//! The instruction set: the integer code of each operation, whether it is
//! followed by an immediate operand, and how deep the stack must be for it.

use vstd::prelude::*;

verus! {

pub const PUSH: i32 = 0x01;
pub const ADD: i32 = 0x02;
pub const SUB: i32 = 0x03;
pub const MUL: i32 = 0x04;
pub const DIV: i32 = 0x05;
pub const INC: i32 = 0x06;
pub const DEC: i32 = 0x07;
pub const JMP: i32 = 0x20;
pub const CMP: i32 = 0x30;
pub const JL: i32 = 0x31;
pub const CALL: i32 = 0x40;
pub const RET: i32 = 0x41;
pub const DBG: i32 = 0x70;
pub const HLT: i32 = 0x80;

/// One operation of the machine.
#[derive(Clone, Copy, Debug, PartialEq, Eq, Structural)]
pub enum Opcode {
    Push,
    Add,
    Sub,
    Mul,
    Div,
    Inc,
    Dec,
    Jmp,
    Cmp,
    Jl,
    Call,
    Ret,
    Dbg,
    Hlt,
}

impl Opcode {
    /// The integer that stands for this operation in a program.
    pub open spec fn spec_code(self) -> i32 {
        match self {
            Opcode::Push => PUSH,
            Opcode::Add => ADD,
            Opcode::Sub => SUB,
            Opcode::Mul => MUL,
            Opcode::Div => DIV,
            Opcode::Inc => INC,
            Opcode::Dec => DEC,
            Opcode::Jmp => JMP,
            Opcode::Cmp => CMP,
            Opcode::Jl => JL,
            Opcode::Call => CALL,
            Opcode::Ret => RET,
            Opcode::Dbg => DBG,
            Opcode::Hlt => HLT,
        }
    }

    #[verifier::when_used_as_spec(spec_code)]
    pub fn code(self) -> (c: i32)
        ensures
            c == self.spec_code(),
    {
        match self {
            Opcode::Push => PUSH,
            Opcode::Add => ADD,
            Opcode::Sub => SUB,
            Opcode::Mul => MUL,
            Opcode::Div => DIV,
            Opcode::Inc => INC,
            Opcode::Dec => DEC,
            Opcode::Jmp => JMP,
            Opcode::Cmp => CMP,
            Opcode::Jl => JL,
            Opcode::Call => CALL,
            Opcode::Ret => RET,
            Opcode::Dbg => DBG,
            Opcode::Hlt => HLT,
        }
    }

    /// The operation that an integer stands for, if it stands for one.
    pub open spec fn spec_decode(code: i32) -> Option<Opcode> {
        if code == PUSH {
            Some(Opcode::Push)
        } else if code == ADD {
            Some(Opcode::Add)
        } else if code == SUB {
            Some(Opcode::Sub)
        } else if code == MUL {
            Some(Opcode::Mul)
        } else if code == DIV {
            Some(Opcode::Div)
        } else if code == INC {
            Some(Opcode::Inc)
        } else if code == DEC {
            Some(Opcode::Dec)
        } else if code == JMP {
            Some(Opcode::Jmp)
        } else if code == CMP {
            Some(Opcode::Cmp)
        } else if code == JL {
            Some(Opcode::Jl)
        } else if code == CALL {
            Some(Opcode::Call)
        } else if code == RET {
            Some(Opcode::Ret)
        } else if code == DBG {
            Some(Opcode::Dbg)
        } else if code == HLT {
            Some(Opcode::Hlt)
        } else {
            None
        }
    }

    #[verifier::when_used_as_spec(spec_decode)]
    pub fn decode(code: i32) -> (op: Option<Opcode>)
        ensures
            op == Self::spec_decode(code),
    {
        if code == PUSH {
            Some(Opcode::Push)
        } else if code == ADD {
            Some(Opcode::Add)
        } else if code == SUB {
            Some(Opcode::Sub)
        } else if code == MUL {
            Some(Opcode::Mul)
        } else if code == DIV {
            Some(Opcode::Div)
        } else if code == INC {
            Some(Opcode::Inc)
        } else if code == DEC {
            Some(Opcode::Dec)
        } else if code == JMP {
            Some(Opcode::Jmp)
        } else if code == CMP {
            Some(Opcode::Cmp)
        } else if code == JL {
            Some(Opcode::Jl)
        } else if code == CALL {
            Some(Opcode::Call)
        } else if code == RET {
            Some(Opcode::Ret)
        } else if code == DBG {
            Some(Opcode::Dbg)
        } else if code == HLT {
            Some(Opcode::Hlt)
        } else {
            None
        }
    }

    /// Whether one immediate operand follows the opcode in the program.
    pub open spec fn spec_has_immediate(self) -> bool {
        self is Push || self is Jl || self is Call
    }

    #[verifier::when_used_as_spec(spec_has_immediate)]
    pub fn has_immediate(self) -> (b: bool)
        ensures
            b == self.spec_has_immediate(),
    {
        match self {
            Opcode::Push | Opcode::Jl | Opcode::Call => true,
            _ => false,
        }
    }

    /// Whether the operation takes two operands and leaves one result.
    pub open spec fn is_binary(self) -> bool {
        self is Add || self is Sub || self is Mul || self is Div || self is Cmp
    }

    /// How many values the operation reads from the stack.
    pub open spec fn operands(self) -> nat {
        match self {
            Opcode::Push => 0,
            Opcode::Add | Opcode::Sub | Opcode::Mul | Opcode::Div | Opcode::Cmp | Opcode::Ret => 2,
            Opcode::Inc
            | Opcode::Dec
            | Opcode::Jmp
            | Opcode::Jl
            | Opcode::Call
            | Opcode::Dbg
            | Opcode::Hlt => 1,
        }
    }

    /// `decode` undoes `code`.
    pub proof fn lemma_decode_code(self)
        ensures
            Self::spec_decode(self.spec_code()) == Some(self),
    {
    }

    /// `decode` answers exactly for the integers that are the code of an
    /// operation, and with that operation.
    pub proof fn lemma_decode_exact(code: i32, op: Opcode)
        ensures
            Self::spec_decode(code) == Some(op) <==> op.spec_code() == code,
    {
    }
}

} // verus!
