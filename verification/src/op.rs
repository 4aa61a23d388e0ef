//! The operand and instruction model.
//!
//! A raw 16-bit word encodes an operand: values up to 32767 are literals,
//! 32768 through 32775 denote registers 0 through 7, and anything larger is
//! invalid. An instruction is an opcode word followed by as many operand
//! words as the opcode's arity demands; slots that the instruction writes
//! must decode as registers.

use vstd::prelude::*;

use crate::error::Error;
use crate::fmt::{dec_digits, hex4_digits, lit_bytes, push_ascii, push_dec, push_hex4};

verus! {

/// One of the eight registers, by ordinal.
#[derive(Clone, Copy, Debug, PartialEq, Eq, Structural)]
pub struct Reg(pub u8);

/// An operand: either a literal word or a register.
#[derive(Clone, Copy, Debug, PartialEq, Eq, Structural)]
pub enum Val {
    Literal(u16),
    Reg(Reg),
}

impl Reg {
    /// A legal register ordinal lies below 8.
    pub open spec fn wf(self) -> bool {
        self.0 < 8
    }

    /// The register's position in the register file.
    pub fn index(&self) -> (i: usize)
        ensures
            i == self.0 as usize,
    {
        self.0 as usize
    }

    /// Decodes a register from a bare ordinal.
    pub fn from_ordinal(value: u8) -> (r: Result<Reg, Error>)
        ensures
            r == spec_reg_from_ordinal(value),
    {
        if value > 7 {
            Err(Error::ParseRegFromU8)
        } else {
            Ok(Reg(value))
        }
    }

    /// Decodes a register from a raw operand word.
    pub fn decode(value: u16) -> (r: Result<Reg, Error>)
        ensures
            r == spec_decode_reg(value),
    {
        if 32768 <= value && value <= 32775 {
            Ok(Reg((value - 32768) as u8))
        } else {
            Err(Error::ParseReg)
        }
    }

    /// The raw operand word that denotes this register.
    pub fn encode(&self) -> (w: u16)
        ensures
            w == spec_encode_reg(*self),
    {
        32768 + self.0 as u16
    }
}

/// Decoding a register from a bare ordinal: only 0 through 7 are legal.
pub open spec fn spec_reg_from_ordinal(v: u8) -> Result<Reg, Error> {
    if v > 7 {
        Err(Error::ParseRegFromU8)
    } else {
        Ok(Reg(v))
    }
}

/// Decoding a register from a raw word: 32768 through 32775 denote
/// registers 0 through 7.
pub open spec fn spec_decode_reg(w: u16) -> Result<Reg, Error> {
    if 32768 <= w <= 32775 {
        Ok(Reg((w - 32768) as u8))
    } else {
        Err(Error::ParseReg)
    }
}

/// Decoding an operand from a raw word: literals below 32768, then the
/// eight registers, then nothing.
pub open spec fn spec_decode_val(w: u16) -> Result<Val, Error> {
    if w <= 32767 {
        Ok(Val::Literal(w))
    } else if w <= 32775 {
        Ok(Val::Reg(Reg((w - 32768) as u8)))
    } else {
        Err(Error::ParseVal(w))
    }
}

/// The raw word that denotes a register.
pub open spec fn spec_encode_reg(r: Reg) -> u16 {
    (32768 + r.0) as u16
}

/// The raw word that denotes an operand.
pub open spec fn spec_encode_val(v: Val) -> u16 {
    match v {
        Val::Literal(x) => x,
        Val::Reg(r) => spec_encode_reg(r),
    }
}

impl Val {
    /// A legal operand is a literal word or a legal register.
    pub open spec fn wf(self) -> bool {
        match self {
            Val::Literal(x) => x <= 32767,
            Val::Reg(r) => r.wf(),
        }
    }

    /// What the operand denotes under a register file: a literal denotes
    /// itself, a register its current contents.
    pub open spec fn spec_val(self, regs: Seq<u16>) -> u16 {
        match self {
            Val::Literal(x) => x,
            Val::Reg(r) => regs[r.0 as int],
        }
    }

    /// Reads the operand's value through the register file.
    pub fn val(&self, registers: &[u16; 8]) -> (v: u16)
        requires
            self.wf(),
        ensures
            v == self.spec_val(registers@),
    {
        match self {
            Val::Literal(x) => *x,
            Val::Reg(reg) => registers[reg.index()],
        }
    }

    /// Whether the operand is a register.
    pub fn is_reg(&self) -> (b: bool)
        ensures
            b == (*self is Reg),
    {
        matches!(self, Val::Reg(..))
    }

    /// Decodes an operand from a raw word.
    pub fn decode(value: u16) -> (r: Result<Val, Error>)
        ensures
            r == spec_decode_val(value),
    {
        if value <= 32767 {
            Ok(Val::Literal(value))
        } else if value <= 32775 {
            Ok(Val::Reg(Reg((value - 32768) as u8)))
        } else {
            Err(Error::ParseVal(value))
        }
    }

    /// The raw word that denotes this operand.
    pub fn encode(&self) -> (w: u16)
        ensures
            w == spec_encode_val(*self),
    {
        match self {
            Val::Literal(x) => *x,
            Val::Reg(r) => r.encode(),
        }
    }
}

/// An instruction, tagged by opcode, with typed operand slots.
#[derive(Clone, Copy, Debug, PartialEq, Eq, Structural)]
pub enum Op {
    /// [0] `halt` :: stop execution cleanly.
    Halt,
    /// [1] `set` a b :: set register `a` to the value of `b`.
    Assign(Reg, Val),
    /// [2] `push` a :: push the value of `a` onto the stack.
    Push(Val),
    /// [3] `pop` a :: pop the top of the stack into `a`; empty stack is fatal.
    Pop(Reg),
    /// [4] `eq` a b c :: set `a` to 1 if `b` equals `c`, else 0.
    Eq(Reg, Val, Val),
    /// [5] `gt` a b c :: set `a` to 1 if `b` is greater than `c`, else 0.
    Gt(Reg, Val, Val),
    /// [6] `jmp` a :: jump to `a`.
    Jmp(Val),
    /// [7] `jt` a b :: if `a` is nonzero, jump to `b`.
    Jt(Val, Val),
    /// [8] `jf` a b :: if `a` is zero, jump to `b`.
    Jf(Val, Val),
    /// [9] `add` a b c :: set `a` to `b` plus `c`, modulo 32768.
    Add(Reg, Val, Val),
    /// [10] `mult` a b c :: set `a` to `b` times `c`, modulo 32768.
    Mult(Reg, Val, Val),
    /// [11] `mod` a b c :: set `a` to the remainder of `b` divided by `c`.
    Mod(Reg, Val, Val),
    /// [12] `and` a b c :: set `a` to the bitwise and of `b` and `c`.
    And(Reg, Val, Val),
    /// [13] `or` a b c :: set `a` to the bitwise or of `b` and `c`.
    Or(Reg, Val, Val),
    /// [14] `not` a b :: set `a` to the 15-bit bitwise inverse of `b`.
    Not(Reg, Val),
    /// [15] `rmem` a b :: read memory at address `b` into `a`.
    Rmem(Reg, Val),
    /// [16] `wmem` a b :: write the value of `b` into memory at address `a`.
    Wmem(Val, Val),
    /// [17] `call` a :: push the address of the next instruction, jump to `a`.
    Call(Val),
    /// [18] `ret` :: pop the stack and jump there; empty stack halts.
    Ret,
    /// [19] `out` a :: emit the low byte of the value of `a`.
    Out(Val),
    /// [20] `in` a :: read one input byte into `a`.
    In(Reg),
    /// [21] `noop` :: no operation.
    Noop,
}

impl Op {
    /// A legal instruction has legal operands in every slot.
    pub open spec fn wf(self) -> bool {
        match self {
            Op::Halt | Op::Ret | Op::Noop => true,
            Op::Assign(a, b) => a.wf() && b.wf(),
            Op::Push(a) => a.wf(),
            Op::Pop(a) => a.wf(),
            Op::Eq(a, b, c) => a.wf() && b.wf() && c.wf(),
            Op::Gt(a, b, c) => a.wf() && b.wf() && c.wf(),
            Op::Jmp(a) => a.wf(),
            Op::Jt(a, b) => a.wf() && b.wf(),
            Op::Jf(a, b) => a.wf() && b.wf(),
            Op::Add(a, b, c) => a.wf() && b.wf() && c.wf(),
            Op::Mult(a, b, c) => a.wf() && b.wf() && c.wf(),
            Op::Mod(a, b, c) => a.wf() && b.wf() && c.wf(),
            Op::And(a, b, c) => a.wf() && b.wf() && c.wf(),
            Op::Or(a, b, c) => a.wf() && b.wf() && c.wf(),
            Op::Not(a, b) => a.wf() && b.wf(),
            Op::Rmem(a, b) => a.wf() && b.wf(),
            Op::Wmem(a, b) => a.wf() && b.wf(),
            Op::Call(a) => a.wf(),
            Op::Out(a) => a.wf(),
            Op::In(a) => a.wf(),
        }
    }

    /// The instruction's arity: how many operand words follow the opcode.
    pub open spec fn spec_arity(self) -> int {
        match self {
            Op::Halt | Op::Ret | Op::Noop => 0,
            Op::Push(_) | Op::Pop(_) | Op::Call(_) | Op::Out(_) | Op::In(_) | Op::Jmp(_) => 1,
            Op::Assign(_, _) | Op::Jt(_, _) | Op::Jf(_, _) | Op::Not(_, _) | Op::Rmem(_, _)
            | Op::Wmem(_, _) => 2,
            Op::Eq(_, _, _) | Op::Gt(_, _, _) | Op::Add(_, _, _) | Op::Mult(_, _, _)
            | Op::Mod(_, _, _) | Op::And(_, _, _) | Op::Or(_, _, _) => 3,
        }
    }

    /// How many operand words follow the opcode.
    pub fn arg_count(&self) -> (n: usize)
        ensures
            n == self.spec_arity(),
    {
        match self {
            Op::Halt | Op::Ret | Op::Noop => 0,
            Op::Push(_) | Op::Pop(_) | Op::Call(_) | Op::Out(_) | Op::In(_) | Op::Jmp(_) => 1,
            Op::Assign(_, _) | Op::Jt(_, _) | Op::Jf(_, _) | Op::Not(_, _) | Op::Rmem(_, _)
            | Op::Wmem(_, _) => 2,
            Op::Eq(_, _, _) | Op::Gt(_, _, _) | Op::Add(_, _, _) | Op::Mult(_, _, _)
            | Op::Mod(_, _, _) | Op::And(_, _, _) | Op::Or(_, _, _) => 3,
        }
    }
}

/// The arity that an opcode word demands, or `None` for an invalid opcode.
pub open spec fn opcode_arity(w: u16) -> Option<int> {
    if w == 0 || w == 18 || w == 21 {
        Some(0int)
    } else if w == 2 || w == 3 || w == 6 || w == 17 || w == 19 || w == 20 {
        Some(1int)
    } else if w == 1 || w == 7 || w == 8 || w == 14 || w == 15 || w == 16 {
        Some(2int)
    } else if w == 4 || w == 5 || w == 9 || w == 10 || w == 11 || w == 12 || w == 13 {
        Some(3int)
    } else {
        None
    }
}

/// A register operand followed by a value operand, or the first error.
pub open spec fn spec_decode_rv(w1: u16, w2: u16) -> Result<(Reg, Val), Error> {
    match (spec_decode_reg(w1), spec_decode_val(w2)) {
        (Ok(a), Ok(b)) => Ok((a, b)),
        (Err(e), _) => Err(e),
        (_, Err(e)) => Err(e),
    }
}

/// A register operand followed by two value operands, or the first error.
pub open spec fn spec_decode_rvv(w1: u16, w2: u16, w3: u16) -> Result<(Reg, Val, Val), Error> {
    match (spec_decode_reg(w1), spec_decode_val(w2), spec_decode_val(w3)) {
        (Ok(a), Ok(b), Ok(c)) => Ok((a, b, c)),
        (Err(e), _, _) => Err(e),
        (_, Err(e), _) => Err(e),
        (_, _, Err(e)) => Err(e),
    }
}

/// Two value operands, or the first error.
pub open spec fn spec_decode_vv(w1: u16, w2: u16) -> Result<(Val, Val), Error> {
    match (spec_decode_val(w1), spec_decode_val(w2)) {
        (Ok(a), Ok(b)) => Ok((a, b)),
        (Err(e), _) => Err(e),
        (_, Err(e)) => Err(e),
    }
}

/// Decoding an instruction from the words starting at some address.
/// Only the opcode word and the operand words its arity demands are read.
pub open spec fn spec_decode_op(w: Seq<u16>) -> Result<Op, Error> {
    if w[0] == 0 {
        Ok(Op::Halt)
    } else if w[0] == 1 {
        match spec_decode_rv(w[1], w[2]) {
            Ok((a, b)) => Ok(Op::Assign(a, b)),
            Err(e) => Err(e),
        }
    } else if w[0] == 2 {
        match spec_decode_val(w[1]) {
            Ok(a) => Ok(Op::Push(a)),
            Err(e) => Err(e),
        }
    } else if w[0] == 3 {
        match spec_decode_reg(w[1]) {
            Ok(a) => Ok(Op::Pop(a)),
            Err(e) => Err(e),
        }
    } else if w[0] == 4 {
        match spec_decode_rvv(w[1], w[2], w[3]) {
            Ok((a, b, c)) => Ok(Op::Eq(a, b, c)),
            Err(e) => Err(e),
        }
    } else if w[0] == 5 {
        match spec_decode_rvv(w[1], w[2], w[3]) {
            Ok((a, b, c)) => Ok(Op::Gt(a, b, c)),
            Err(e) => Err(e),
        }
    } else if w[0] == 6 {
        match spec_decode_val(w[1]) {
            Ok(a) => Ok(Op::Jmp(a)),
            Err(e) => Err(e),
        }
    } else if w[0] == 7 {
        match spec_decode_vv(w[1], w[2]) {
            Ok((a, b)) => Ok(Op::Jt(a, b)),
            Err(e) => Err(e),
        }
    } else if w[0] == 8 {
        match spec_decode_vv(w[1], w[2]) {
            Ok((a, b)) => Ok(Op::Jf(a, b)),
            Err(e) => Err(e),
        }
    } else if w[0] == 9 {
        match spec_decode_rvv(w[1], w[2], w[3]) {
            Ok((a, b, c)) => Ok(Op::Add(a, b, c)),
            Err(e) => Err(e),
        }
    } else if w[0] == 10 {
        match spec_decode_rvv(w[1], w[2], w[3]) {
            Ok((a, b, c)) => Ok(Op::Mult(a, b, c)),
            Err(e) => Err(e),
        }
    } else if w[0] == 11 {
        match spec_decode_rvv(w[1], w[2], w[3]) {
            Ok((a, b, c)) => Ok(Op::Mod(a, b, c)),
            Err(e) => Err(e),
        }
    } else if w[0] == 12 {
        match spec_decode_rvv(w[1], w[2], w[3]) {
            Ok((a, b, c)) => Ok(Op::And(a, b, c)),
            Err(e) => Err(e),
        }
    } else if w[0] == 13 {
        match spec_decode_rvv(w[1], w[2], w[3]) {
            Ok((a, b, c)) => Ok(Op::Or(a, b, c)),
            Err(e) => Err(e),
        }
    } else if w[0] == 14 {
        match spec_decode_rv(w[1], w[2]) {
            Ok((a, b)) => Ok(Op::Not(a, b)),
            Err(e) => Err(e),
        }
    } else if w[0] == 15 {
        match spec_decode_rv(w[1], w[2]) {
            Ok((a, b)) => Ok(Op::Rmem(a, b)),
            Err(e) => Err(e),
        }
    } else if w[0] == 16 {
        match spec_decode_vv(w[1], w[2]) {
            Ok((a, b)) => Ok(Op::Wmem(a, b)),
            Err(e) => Err(e),
        }
    } else if w[0] == 17 {
        match spec_decode_val(w[1]) {
            Ok(a) => Ok(Op::Call(a)),
            Err(e) => Err(e),
        }
    } else if w[0] == 18 {
        Ok(Op::Ret)
    } else if w[0] == 19 {
        match spec_decode_val(w[1]) {
            Ok(a) => Ok(Op::Out(a)),
            Err(e) => Err(e),
        }
    } else if w[0] == 20 {
        match spec_decode_reg(w[1]) {
            Ok(a) => Ok(Op::In(a)),
            Err(e) => Err(e),
        }
    } else if w[0] == 21 {
        Ok(Op::Noop)
    } else {
        Err(Error::ParseOp(w[0]))
    }
}

/// The encoding of an instruction: the opcode word followed by the
/// operand words.
pub open spec fn spec_encode(op: Op) -> Seq<u16> {
    match op {
        Op::Halt => seq![0u16],
        Op::Assign(a, b) => seq![1u16, spec_encode_reg(a), spec_encode_val(b)],
        Op::Push(a) => seq![2u16, spec_encode_val(a)],
        Op::Pop(a) => seq![3u16, spec_encode_reg(a)],
        Op::Eq(a, b, c) => seq![4u16, spec_encode_reg(a), spec_encode_val(b), spec_encode_val(c)],
        Op::Gt(a, b, c) => seq![5u16, spec_encode_reg(a), spec_encode_val(b), spec_encode_val(c)],
        Op::Jmp(a) => seq![6u16, spec_encode_val(a)],
        Op::Jt(a, b) => seq![7u16, spec_encode_val(a), spec_encode_val(b)],
        Op::Jf(a, b) => seq![8u16, spec_encode_val(a), spec_encode_val(b)],
        Op::Add(a, b, c) => seq![9u16, spec_encode_reg(a), spec_encode_val(b), spec_encode_val(c)],
        Op::Mult(a, b, c) => seq![
            10u16,
            spec_encode_reg(a),
            spec_encode_val(b),
            spec_encode_val(c),
        ],
        Op::Mod(a, b, c) => seq![
            11u16,
            spec_encode_reg(a),
            spec_encode_val(b),
            spec_encode_val(c),
        ],
        Op::And(a, b, c) => seq![
            12u16,
            spec_encode_reg(a),
            spec_encode_val(b),
            spec_encode_val(c),
        ],
        Op::Or(a, b, c) => seq![13u16, spec_encode_reg(a), spec_encode_val(b), spec_encode_val(c)],
        Op::Not(a, b) => seq![14u16, spec_encode_reg(a), spec_encode_val(b)],
        Op::Rmem(a, b) => seq![15u16, spec_encode_reg(a), spec_encode_val(b)],
        Op::Wmem(a, b) => seq![16u16, spec_encode_val(a), spec_encode_val(b)],
        Op::Call(a) => seq![17u16, spec_encode_val(a)],
        Op::Ret => seq![18u16],
        Op::Out(a) => seq![19u16, spec_encode_val(a)],
        Op::In(a) => seq![20u16, spec_encode_reg(a)],
        Op::Noop => seq![21u16],
    }
}

/// Decodes a register operand then a value operand.
fn decode_rv(w1: u16, w2: u16) -> (r: Result<(Reg, Val), Error>)
    ensures
        r == spec_decode_rv(w1, w2),
{
    let a = match Reg::decode(w1) {
        Ok(a) => a,
        Err(e) => {
            return Err(e);
        },
    };
    let b = match Val::decode(w2) {
        Ok(b) => b,
        Err(e) => {
            return Err(e);
        },
    };
    Ok((a, b))
}

/// Decodes a register operand then two value operands.
fn decode_rvv(w1: u16, w2: u16, w3: u16) -> (r: Result<(Reg, Val, Val), Error>)
    ensures
        r == spec_decode_rvv(w1, w2, w3),
{
    let a = match Reg::decode(w1) {
        Ok(a) => a,
        Err(e) => {
            return Err(e);
        },
    };
    let b = match Val::decode(w2) {
        Ok(b) => b,
        Err(e) => {
            return Err(e);
        },
    };
    let c = match Val::decode(w3) {
        Ok(c) => c,
        Err(e) => {
            return Err(e);
        },
    };
    Ok((a, b, c))
}

/// Decodes two value operands.
fn decode_vv(w1: u16, w2: u16) -> (r: Result<(Val, Val), Error>)
    ensures
        r == spec_decode_vv(w1, w2),
{
    let a = match Val::decode(w1) {
        Ok(a) => a,
        Err(e) => {
            return Err(e);
        },
    };
    let b = match Val::decode(w2) {
        Ok(b) => b,
        Err(e) => {
            return Err(e);
        },
    };
    Ok((a, b))
}

impl Op {
    /// Decodes the instruction that starts at the head of `s`. The slice
    /// must hold the opcode word and, for a valid opcode, the operand
    /// words its arity demands.
    pub fn decode(s: &[u16]) -> (r: Result<Op, Error>)
        requires
            s@.len() >= 1,
            opcode_arity(s@[0]) matches Some(k) ==> s@.len() > k,
        ensures
            r == spec_decode_op(s@),
    {
        let w0 = s[0];
        if w0 == 0 {
            Ok(Op::Halt)
        } else if w0 == 1 {
            match decode_rv(s[1], s[2]) {
                Ok((a, b)) => Ok(Op::Assign(a, b)),
                Err(e) => Err(e),
            }
        } else if w0 == 2 {
            match Val::decode(s[1]) {
                Ok(a) => Ok(Op::Push(a)),
                Err(e) => Err(e),
            }
        } else if w0 == 3 {
            match Reg::decode(s[1]) {
                Ok(a) => Ok(Op::Pop(a)),
                Err(e) => Err(e),
            }
        } else if w0 == 4 {
            match decode_rvv(s[1], s[2], s[3]) {
                Ok((a, b, c)) => Ok(Op::Eq(a, b, c)),
                Err(e) => Err(e),
            }
        } else if w0 == 5 {
            match decode_rvv(s[1], s[2], s[3]) {
                Ok((a, b, c)) => Ok(Op::Gt(a, b, c)),
                Err(e) => Err(e),
            }
        } else if w0 == 6 {
            match Val::decode(s[1]) {
                Ok(a) => Ok(Op::Jmp(a)),
                Err(e) => Err(e),
            }
        } else if w0 == 7 {
            match decode_vv(s[1], s[2]) {
                Ok((a, b)) => Ok(Op::Jt(a, b)),
                Err(e) => Err(e),
            }
        } else if w0 == 8 {
            match decode_vv(s[1], s[2]) {
                Ok((a, b)) => Ok(Op::Jf(a, b)),
                Err(e) => Err(e),
            }
        } else if w0 == 9 {
            match decode_rvv(s[1], s[2], s[3]) {
                Ok((a, b, c)) => Ok(Op::Add(a, b, c)),
                Err(e) => Err(e),
            }
        } else if w0 == 10 {
            match decode_rvv(s[1], s[2], s[3]) {
                Ok((a, b, c)) => Ok(Op::Mult(a, b, c)),
                Err(e) => Err(e),
            }
        } else if w0 == 11 {
            match decode_rvv(s[1], s[2], s[3]) {
                Ok((a, b, c)) => Ok(Op::Mod(a, b, c)),
                Err(e) => Err(e),
            }
        } else if w0 == 12 {
            match decode_rvv(s[1], s[2], s[3]) {
                Ok((a, b, c)) => Ok(Op::And(a, b, c)),
                Err(e) => Err(e),
            }
        } else if w0 == 13 {
            match decode_rvv(s[1], s[2], s[3]) {
                Ok((a, b, c)) => Ok(Op::Or(a, b, c)),
                Err(e) => Err(e),
            }
        } else if w0 == 14 {
            match decode_rv(s[1], s[2]) {
                Ok((a, b)) => Ok(Op::Not(a, b)),
                Err(e) => Err(e),
            }
        } else if w0 == 15 {
            match decode_rv(s[1], s[2]) {
                Ok((a, b)) => Ok(Op::Rmem(a, b)),
                Err(e) => Err(e),
            }
        } else if w0 == 16 {
            match decode_vv(s[1], s[2]) {
                Ok((a, b)) => Ok(Op::Wmem(a, b)),
                Err(e) => Err(e),
            }
        } else if w0 == 17 {
            match Val::decode(s[1]) {
                Ok(a) => Ok(Op::Call(a)),
                Err(e) => Err(e),
            }
        } else if w0 == 18 {
            Ok(Op::Ret)
        } else if w0 == 19 {
            match Val::decode(s[1]) {
                Ok(a) => Ok(Op::Out(a)),
                Err(e) => Err(e),
            }
        } else if w0 == 20 {
            match Reg::decode(s[1]) {
                Ok(a) => Ok(Op::In(a)),
                Err(e) => Err(e),
            }
        } else if w0 == 21 {
            Ok(Op::Noop)
        } else {
            Err(Error::ParseOp(w0))
        }
    }

    /// Encodes the instruction back into raw words.
    pub fn encode(&self) -> (r: Vec<u16>)
        ensures
            r@ == spec_encode(*self),
    {
        let r: Vec<u16> = match self {
            Op::Halt => vec![0u16],
            Op::Assign(a, b) => vec![1u16, a.encode(), b.encode()],
            Op::Push(a) => vec![2u16, a.encode()],
            Op::Pop(a) => vec![3u16, a.encode()],
            Op::Eq(a, b, c) => vec![4u16, a.encode(), b.encode(), c.encode()],
            Op::Gt(a, b, c) => vec![5u16, a.encode(), b.encode(), c.encode()],
            Op::Jmp(a) => vec![6u16, a.encode()],
            Op::Jt(a, b) => vec![7u16, a.encode(), b.encode()],
            Op::Jf(a, b) => vec![8u16, a.encode(), b.encode()],
            Op::Add(a, b, c) => vec![9u16, a.encode(), b.encode(), c.encode()],
            Op::Mult(a, b, c) => vec![10u16, a.encode(), b.encode(), c.encode()],
            Op::Mod(a, b, c) => vec![11u16, a.encode(), b.encode(), c.encode()],
            Op::And(a, b, c) => vec![12u16, a.encode(), b.encode(), c.encode()],
            Op::Or(a, b, c) => vec![13u16, a.encode(), b.encode(), c.encode()],
            Op::Not(a, b) => vec![14u16, a.encode(), b.encode()],
            Op::Rmem(a, b) => vec![15u16, a.encode(), b.encode()],
            Op::Wmem(a, b) => vec![16u16, a.encode(), b.encode()],
            Op::Call(a) => vec![17u16, a.encode()],
            Op::Ret => vec![18u16],
            Op::Out(a) => vec![19u16, a.encode()],
            Op::In(a) => vec![20u16, a.encode()],
            Op::Noop => vec![21u16],
        };
        proof {
            assert(r@ =~= spec_encode(*self));
        }
        r
    }
}

/// The text of a register: `r` then its ordinal.
pub open spec fn spec_render_reg(r: Reg) -> Seq<u8> {
    lit_bytes("r"@) + dec_digits(r.0 as nat)
}

/// The text of an operand: a literal as zero-padded four-digit lowercase
/// hexadecimal, a register as `rN`.
pub open spec fn spec_render_val(v: Val) -> Seq<u8> {
    match v {
        Val::Literal(x) => lit_bytes("0x"@) + hex4_digits(x),
        Val::Reg(r) => spec_render_reg(r),
    }
}

/// The quoted form of an output byte, when it has one: printable ASCII
/// quoted as itself, the common escapes escaped, anything else nothing.
pub open spec fn quoted_byte(b: u8) -> Seq<u8> {
    if b == 10 {
        seq![39u8, 92u8, 110u8, 39u8]
    } else if b == 9 {
        seq![39u8, 92u8, 116u8, 39u8]
    } else if b == 13 {
        seq![39u8, 92u8, 114u8, 39u8]
    } else if b == 39 {
        seq![39u8, 92u8, 39u8, 39u8]
    } else if b == 92 {
        seq![39u8, 92u8, 92u8, 39u8]
    } else if 32 <= b <= 126 {
        seq![39u8, b, 39u8]
    } else {
        seq![]
    }
}

/// The character-literal comment after `out` of a literal: present
/// exactly when the value's low byte is printable or escapable.
pub open spec fn spec_out_comment(x: u16) -> Seq<u8> {
    let b = (x % 256) as u8;
    if quoted_byte(b).len() == 0 {
        seq![]
    } else {
        lit_bytes("\t; "@) + quoted_byte(b)
    }
}

/// The text of an instruction, as the disassembler and the trace
/// print it: a padded mnemonic, then the operands separated by `,` and
/// tab stops.
pub open spec fn spec_render_op(op: Op) -> Seq<u8> {
    match op {
        Op::Halt => lit_bytes("halt"@),
        Op::Assign(a, b) => lit_bytes("set \t"@) + spec_render_reg(a) + lit_bytes(",\t"@)
            + spec_render_val(b),
        Op::Push(a) => lit_bytes("push\t"@) + spec_render_val(a),
        Op::Pop(a) => lit_bytes("pop \t"@) + spec_render_reg(a),
        Op::Eq(a, b, c) => lit_bytes("eq  \t"@) + spec_render_reg(a) + lit_bytes(",\t"@)
            + spec_render_val(b) + lit_bytes(",\t"@) + spec_render_val(c),
        Op::Gt(a, b, c) => lit_bytes("gt  \t"@) + spec_render_reg(a) + lit_bytes(",\t"@)
            + spec_render_val(b) + lit_bytes(",\t"@) + spec_render_val(c),
        Op::Jmp(a) => lit_bytes("jmp \t"@) + spec_render_val(a),
        Op::Jt(a, b) => lit_bytes("jt  \t"@) + spec_render_val(a) + lit_bytes(",\t"@)
            + spec_render_val(b),
        Op::Jf(a, b) => lit_bytes("jf  \t"@) + spec_render_val(a) + lit_bytes(",\t"@)
            + spec_render_val(b),
        Op::Add(a, b, c) => lit_bytes("add \t"@) + spec_render_reg(a) + lit_bytes(",\t"@)
            + spec_render_val(b) + lit_bytes(",\t"@) + spec_render_val(c),
        Op::Mult(a, b, c) => lit_bytes("mult\t"@) + spec_render_reg(a) + lit_bytes(",\t"@)
            + spec_render_val(b) + lit_bytes(",\t"@) + spec_render_val(c),
        Op::Mod(a, b, c) => lit_bytes("mod \t"@) + spec_render_reg(a) + lit_bytes(",\t"@)
            + spec_render_val(b) + lit_bytes(",\t"@) + spec_render_val(c),
        Op::And(a, b, c) => lit_bytes("and \t"@) + spec_render_reg(a) + lit_bytes(",\t"@)
            + spec_render_val(b) + lit_bytes(",\t"@) + spec_render_val(c),
        Op::Or(a, b, c) => lit_bytes("or  \t"@) + spec_render_reg(a) + lit_bytes(",\t"@)
            + spec_render_val(b) + lit_bytes(",\t"@) + spec_render_val(c),
        Op::Not(a, b) => lit_bytes("not \t"@) + spec_render_reg(a) + lit_bytes(",\t"@)
            + spec_render_val(b),
        Op::Rmem(a, b) => lit_bytes("rmem\t"@) + spec_render_reg(a) + lit_bytes(",\t"@)
            + spec_render_val(b),
        Op::Wmem(a, b) => lit_bytes("wmem\t"@) + spec_render_val(a) + lit_bytes(",\t"@)
            + spec_render_val(b),
        Op::Call(a) => lit_bytes("call\t"@) + spec_render_val(a),
        Op::Ret => lit_bytes("ret"@),
        Op::Out(a) => match a {
            Val::Literal(x) => lit_bytes("out \t"@) + spec_render_val(a) + spec_out_comment(x),
            Val::Reg(_) => lit_bytes("out \t"@) + spec_render_val(a),
        },
        Op::In(a) => lit_bytes("in  \t"@) + spec_render_reg(a),
        Op::Noop => lit_bytes("noop"@),
    }
}

/// Appends the text of a register.
pub fn push_reg(out: &mut Vec<u8>, r: Reg)
    ensures
        final(out)@ == old(out)@ + spec_render_reg(r),
{
    proof {
        reveal_strlit("r");
    }
    push_ascii(out, "r");
    push_dec(out, r.0 as u16);
    proof {
        assert(out@ =~= old(out)@ + spec_render_reg(r));
    }
}

/// Appends the text of an operand.
pub fn push_val(out: &mut Vec<u8>, v: Val)
    ensures
        final(out)@ == old(out)@ + spec_render_val(v),
{
    match v {
        Val::Literal(x) => {
            proof {
                reveal_strlit("0x");
            }
            push_ascii(out, "0x");
            push_hex4(out, x);
            proof {
                assert(out@ =~= old(out)@ + spec_render_val(v));
            }
        },
        Val::Reg(r) => {
            push_reg(out, r);
        },
    }
}

/// Appends the character-literal comment of an `out` literal, when the
/// byte has a printable or escaped form.
fn push_out_comment(out: &mut Vec<u8>, x: u16)
    ensures
        final(out)@ == old(out)@ + spec_out_comment(x),
{
    let b = (x % 256) as u8;
    if b == 10 {
        proof {
            reveal_strlit("\t; ");
        }
        push_ascii(out, "\t; ");
        out.push(39);
        out.push(92);
        out.push(110);
        out.push(39);
    } else if b == 9 {
        proof {
            reveal_strlit("\t; ");
        }
        push_ascii(out, "\t; ");
        out.push(39);
        out.push(92);
        out.push(116);
        out.push(39);
    } else if b == 13 {
        proof {
            reveal_strlit("\t; ");
        }
        push_ascii(out, "\t; ");
        out.push(39);
        out.push(92);
        out.push(114);
        out.push(39);
    } else if b == 39 {
        proof {
            reveal_strlit("\t; ");
        }
        push_ascii(out, "\t; ");
        out.push(39);
        out.push(92);
        out.push(39);
        out.push(39);
    } else if b == 92 {
        proof {
            reveal_strlit("\t; ");
        }
        push_ascii(out, "\t; ");
        out.push(39);
        out.push(92);
        out.push(92);
        out.push(39);
    } else if 32 <= b && b <= 126 {
        proof {
            reveal_strlit("\t; ");
        }
        push_ascii(out, "\t; ");
        out.push(39);
        out.push(b);
        out.push(39);
    }
    proof {
        assert(out@ =~= old(out)@ + spec_out_comment(x));
    }
}

/// Appends the text of an instruction.
#[verifier::rlimit(60)]
pub fn push_op(out: &mut Vec<u8>, op: &Op)
    ensures
        final(out)@ == old(out)@ + spec_render_op(*op),
{
    proof {
        reveal_strlit("halt");
        reveal_strlit("set \t");
        reveal_strlit("push\t");
        reveal_strlit("pop \t");
        reveal_strlit("eq  \t");
        reveal_strlit("gt  \t");
        reveal_strlit("jmp \t");
        reveal_strlit("jt  \t");
        reveal_strlit("jf  \t");
        reveal_strlit("add \t");
        reveal_strlit("mult\t");
        reveal_strlit("mod \t");
        reveal_strlit("and \t");
        reveal_strlit("or  \t");
        reveal_strlit("not \t");
        reveal_strlit("rmem\t");
        reveal_strlit("wmem\t");
        reveal_strlit("call\t");
        reveal_strlit("ret");
        reveal_strlit("out \t");
        reveal_strlit("in  \t");
        reveal_strlit("noop");
        reveal_strlit(",\t");
    }
    match op {
        Op::Halt => {
            push_ascii(out, "halt");
        },
        Op::Assign(a, b) => {
            push_ascii(out, "set \t");
            push_reg(out, *a);
            push_ascii(out, ",\t");
            push_val(out, *b);
        },
        Op::Push(a) => {
            push_ascii(out, "push\t");
            push_val(out, *a);
        },
        Op::Pop(a) => {
            push_ascii(out, "pop \t");
            push_reg(out, *a);
        },
        Op::Eq(a, b, c) => {
            push_ascii(out, "eq  \t");
            push_reg(out, *a);
            push_ascii(out, ",\t");
            push_val(out, *b);
            push_ascii(out, ",\t");
            push_val(out, *c);
        },
        Op::Gt(a, b, c) => {
            push_ascii(out, "gt  \t");
            push_reg(out, *a);
            push_ascii(out, ",\t");
            push_val(out, *b);
            push_ascii(out, ",\t");
            push_val(out, *c);
        },
        Op::Jmp(a) => {
            push_ascii(out, "jmp \t");
            push_val(out, *a);
        },
        Op::Jt(a, b) => {
            push_ascii(out, "jt  \t");
            push_val(out, *a);
            push_ascii(out, ",\t");
            push_val(out, *b);
        },
        Op::Jf(a, b) => {
            push_ascii(out, "jf  \t");
            push_val(out, *a);
            push_ascii(out, ",\t");
            push_val(out, *b);
        },
        Op::Add(a, b, c) => {
            push_ascii(out, "add \t");
            push_reg(out, *a);
            push_ascii(out, ",\t");
            push_val(out, *b);
            push_ascii(out, ",\t");
            push_val(out, *c);
        },
        Op::Mult(a, b, c) => {
            push_ascii(out, "mult\t");
            push_reg(out, *a);
            push_ascii(out, ",\t");
            push_val(out, *b);
            push_ascii(out, ",\t");
            push_val(out, *c);
        },
        Op::Mod(a, b, c) => {
            push_ascii(out, "mod \t");
            push_reg(out, *a);
            push_ascii(out, ",\t");
            push_val(out, *b);
            push_ascii(out, ",\t");
            push_val(out, *c);
        },
        Op::And(a, b, c) => {
            push_ascii(out, "and \t");
            push_reg(out, *a);
            push_ascii(out, ",\t");
            push_val(out, *b);
            push_ascii(out, ",\t");
            push_val(out, *c);
        },
        Op::Or(a, b, c) => {
            push_ascii(out, "or  \t");
            push_reg(out, *a);
            push_ascii(out, ",\t");
            push_val(out, *b);
            push_ascii(out, ",\t");
            push_val(out, *c);
        },
        Op::Not(a, b) => {
            push_ascii(out, "not \t");
            push_reg(out, *a);
            push_ascii(out, ",\t");
            push_val(out, *b);
        },
        Op::Rmem(a, b) => {
            push_ascii(out, "rmem\t");
            push_reg(out, *a);
            push_ascii(out, ",\t");
            push_val(out, *b);
        },
        Op::Wmem(a, b) => {
            push_ascii(out, "wmem\t");
            push_val(out, *a);
            push_ascii(out, ",\t");
            push_val(out, *b);
        },
        Op::Call(a) => {
            push_ascii(out, "call\t");
            push_val(out, *a);
        },
        Op::Ret => {
            push_ascii(out, "ret");
        },
        Op::Out(a) => {
            push_ascii(out, "out \t");
            push_val(out, *a);
            match a {
                Val::Literal(x) => {
                    push_out_comment(out, *x);
                },
                Val::Reg(_) => {
                },
            }
        },
        Op::In(a) => {
            push_ascii(out, "in  \t");
            push_reg(out, *a);
        },
        Op::Noop => {
            push_ascii(out, "noop");
        },
    }
    proof {
        assert(out@ =~= old(out)@ + spec_render_op(*op));
    }
}

impl Op {
    /// The text of the instruction, as bytes.
    pub fn render(&self) -> (r: Vec<u8>)
        ensures
            r@ == spec_render_op(*self),
    {
        let mut out: Vec<u8> = Vec::new();
        push_op(&mut out, self);
        out
    }
}

/// Law: decoding the encoding of any legal instruction yields the
/// instruction back, whatever words follow it.
pub proof fn lemma_decode_encode(op: Op, rest: Seq<u16>)
    requires
        op.wf(),
    ensures
        spec_decode_op(spec_encode(op) + rest) == Ok::<Op, Error>(op),
{
    let w = spec_encode(op) + rest;
    assert(w[0] == spec_encode(op)[0]);
    match op {
        Op::Halt | Op::Ret | Op::Noop => {
        },
        _ => {
            assert(w[1] == spec_encode(op)[1]);
            if spec_encode(op).len() >= 3 {
                assert(w[2] == spec_encode(op)[2]);
            }
            if spec_encode(op).len() >= 4 {
                assert(w[3] == spec_encode(op)[3]);
            }
        },
    }
}

/// Law: any words that decode are exactly the encoding of what they
/// decode to, over the decoded instruction's window; and what decodes
/// is always legal.
pub proof fn lemma_encode_decode(w: Seq<u16>, op: Op)
    requires
        w.len() >= 4,
        spec_decode_op(w) == Ok::<Op, Error>(op),
    ensures
        op.wf(),
        spec_encode(op) =~= w.take(1 + op.spec_arity()),
{
}

} // verus!
