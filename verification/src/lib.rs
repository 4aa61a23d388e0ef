//! A verified virtual machine for a small instruction set over 15-bit words,
//! together with a static disassembler for its memory images and an offline
//! solver for the Ackermann-like recurrence that the hosted program uses to
//! validate one register's value.

pub mod annotations;
pub mod disasm;
pub mod error;
pub mod fmt;
pub mod image;
pub mod machine;
pub mod op;
pub mod solver;
pub mod word;
