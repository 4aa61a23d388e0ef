//! The errors that decoding and execution can raise.

use vstd::prelude::*;

use crate::fmt::{dec_digits, lit_bytes, push_ascii, push_dec};

verus! {

/// Everything that can go wrong while decoding a word, decoding an
/// instruction, or executing one.
#[derive(Clone, Copy, Debug, PartialEq, Eq, Structural)]
pub enum Error {
    /// Cooperative termination.
    Halted,
    /// A `pop` instruction found the stack empty; fatal.
    PoppedEmptyStack,
    /// A word in a register-destination slot does not denote a register.
    ParseReg,
    /// A register ordinal above 7.
    ParseRegFromU8,
    /// A word too large to be a literal or a register, with the word.
    ParseVal(u16),
    /// A word that is not an opcode, with the word.
    ParseOp(u16),
    /// A `mod` instruction with a zero divisor; fatal.
    DivisionByZero,
}

/// The message text of an error.
pub open spec fn spec_message(e: Error) -> Seq<u8> {
    match e {
        Error::Halted => lit_bytes("Halted"@),
        Error::PoppedEmptyStack => lit_bytes("Popped from empty stack"@),
        Error::ParseReg => lit_bytes("Failed to parse register"@),
        Error::ParseRegFromU8 => lit_bytes("Failed to parse register from u8"@),
        Error::ParseVal(w) => lit_bytes("Failed to parse value from "@) + dec_digits(w as nat),
        Error::ParseOp(w) => lit_bytes("Failed to parse op from "@) + dec_digits(w as nat),
        Error::DivisionByZero => lit_bytes("Division by zero"@),
    }
}

impl Error {
    /// The message text of the error, as bytes.
    pub fn message(&self) -> (r: Vec<u8>)
        ensures
            r@ == spec_message(*self),
    {
        let mut out: Vec<u8> = Vec::new();
        match self {
            Error::Halted => {
                proof {
                    reveal_strlit("Halted");
                }
                push_ascii(&mut out, "Halted");
            },
            Error::PoppedEmptyStack => {
                proof {
                    reveal_strlit("Popped from empty stack");
                }
                push_ascii(&mut out, "Popped from empty stack");
            },
            Error::ParseReg => {
                proof {
                    reveal_strlit("Failed to parse register");
                }
                push_ascii(&mut out, "Failed to parse register");
            },
            Error::ParseRegFromU8 => {
                proof {
                    reveal_strlit("Failed to parse register from u8");
                }
                push_ascii(&mut out, "Failed to parse register from u8");
            },
            Error::ParseVal(w) => {
                proof {
                    reveal_strlit("Failed to parse value from ");
                }
                push_ascii(&mut out, "Failed to parse value from ");
                push_dec(&mut out, *w);
            },
            Error::ParseOp(w) => {
                proof {
                    reveal_strlit("Failed to parse op from ");
                }
                push_ascii(&mut out, "Failed to parse op from ");
                push_dec(&mut out, *w);
            },
            Error::DivisionByZero => {
                proof {
                    reveal_strlit("Division by zero");
                }
                push_ascii(&mut out, "Division by zero");
            },
        }
        out
    }
}

} // verus!
