//! The disassembler: a straight linear scan of a memory image.
//!
//! Decoding starts at address 0. A decodable word prints as one
//! instruction line, optionally with label and comment annotations; an
//! undecodable word switches to data mode, which prints one marker and
//! then skips word by word until decoding succeeds again, with a blank
//! separator at the transition back to code. Operand words past the
//! image's end read as zero.

use vstd::prelude::*;

use crate::annotations::{AnnKind, Annotations};
use crate::fmt::{hex4_digits, lit_bytes, push_ascii, push_bytes, push_hex4};
use crate::machine::{fetch_window, spec_decode_at};
use crate::op::{push_op, spec_render_op, Op};

verus! {

/// A line of spaces up to the comment column.
pub open spec fn pad40(line: Seq<u8>) -> Seq<u8> {
    if line.len() < 40 {
        line + Seq::new((40 - line.len()) as nat, |i: int| 32u8)
    } else {
        line
    }
}

/// The `name:` lines of every label annotation at an address, in file
/// order.
pub open spec fn labels_output(ann: Seq<(u16, AnnKind, Seq<u8>)>, i: int, addr: u16) -> Seq<u8>
    decreases ann.len() - i,
{
    if i < 0 || i >= ann.len() {
        seq![]
    } else {
        (if ann[i].0 == addr && ann[i].1 is Label {
            ann[i].2 + lit_bytes(":\n"@)
        } else {
            seq![]
        }) + labels_output(ann, i + 1, addr)
    }
}

/// An instruction line with every comment annotation at its address
/// appended, each one padded out to the comment column.
pub open spec fn with_comments(
    line: Seq<u8>,
    ann: Seq<(u16, AnnKind, Seq<u8>)>,
    i: int,
    addr: u16,
) -> Seq<u8>
    decreases ann.len() - i,
{
    if i < 0 || i >= ann.len() {
        line
    } else if ann[i].0 == addr && ann[i].1 is Comment {
        with_comments(pad40(line) + lit_bytes("; "@) + ann[i].2, ann, i + 1, addr)
    } else {
        with_comments(line, ann, i + 1, addr)
    }
}

/// The bare text of one instruction line: the address, then the
/// instruction.
pub open spec fn instruction_line(addr: u16, op: Op) -> Seq<u8> {
    lit_bytes("/* 0x"@) + hex4_digits(addr) + lit_bytes(" */ "@) + spec_render_op(op)
}

/// The listing from an address on. `in_data` says whether the scan
/// currently stands in undecodable words.
pub open spec fn disasm_from(
    mem: Seq<u16>,
    ann: Seq<(u16, AnnKind, Seq<u8>)>,
    addr: int,
    in_data: bool,
) -> Seq<u8>
    decreases mem.len() - addr,
{
    if addr < 0 || addr >= mem.len() {
        seq![]
    } else {
        match spec_decode_at(mem, addr) {
            Ok(op) => {
                let a16 = (addr % 0x10000) as u16;
                let sep = if in_data {
                    lit_bytes("\n\n"@)
                } else {
                    seq![]
                };
                let labels = labels_output(ann, 0, a16);
                let line = with_comments(instruction_line(a16, op), ann, 0, a16) + seq![10u8];
                let step = 1 + op.spec_arity();
                let nexta = if addr + step <= mem.len() {
                    addr + step
                } else {
                    mem.len() as int
                };
                sep + labels + line + disasm_from(mem, ann, nexta, false)
            },
            Err(_) => {
                (if !in_data {
                    lit_bytes("; binary data omitted"@)
                } else {
                    seq![]
                }) + disasm_from(mem, ann, addr + 1, true)
            },
        }
    }
}

/// The whole listing of a memory image under some annotations.
pub open spec fn spec_disassembly(mem: Seq<u16>, ann: Seq<(u16, AnnKind, Seq<u8>)>) -> Seq<u8> {
    disasm_from(mem, ann, 0, false)
}

/// Appends the `name:` lines of the labels at an address.
#[verifier::loop_isolation(false)]
fn push_labels(out: &mut Vec<u8>, ann: &Annotations, addr: u16)
    ensures
        final(out)@ == old(out)@ + labels_output(ann@, 0, addr),
{
    let mut i: usize = 0;
    while i < ann.entries.len()
        invariant
            i <= ann@.len(),
            out@ + labels_output(ann@, i as int, addr) == old(out)@ + labels_output(
                ann@,
                0,
                addr,
            ),
        decreases ann@.len() - i,
    {
        let e = &ann.entries[i];
        if e.addr == addr && matches!(e.kind, AnnKind::Label) {
            push_bytes(out, e.text.as_slice());
            proof {
                reveal_strlit(":\n");
            }
            push_ascii(out, ":\n");
            proof {
                assert(out@ + labels_output(ann@, i + 1 as int, addr) =~= old(out)@
                    + labels_output(ann@, 0, addr));
            }
        }
        i = i + 1;
    }
}

/// Appends the comments at an address to a line, each at the comment
/// column.
#[verifier::loop_isolation(false)]
fn append_comments(line: &mut Vec<u8>, ann: &Annotations, addr: u16)
    ensures
        final(line)@ == with_comments(old(line)@, ann@, 0, addr),
{
    let mut i: usize = 0;
    while i < ann.entries.len()
        invariant
            i <= ann@.len(),
            with_comments(line@, ann@, i as int, addr) == with_comments(old(line)@, ann@, 0, addr),
        decreases ann@.len() - i,
    {
        let e = &ann.entries[i];
        if e.addr == addr && matches!(e.kind, AnnKind::Comment) {
            let ghost before = line@;
            while line.len() < 40
                invariant
                    pad40(line@) == pad40(before),
                decreases 40 - line.len(),
            {
                line.push(32);
                proof {
                    assert(pad40(line@) =~= pad40(before));
                }
            }
            proof {
                assert(line@ =~= pad40(before));
                reveal_strlit("; ");
            }
            push_ascii(line, "; ");
            push_bytes(line, e.text.as_slice());
        }
        i = i + 1;
    }
}

/// Disassembles a memory image into its whole listing.
#[verifier::loop_isolation(false)]
#[verifier::rlimit(60)]
pub fn disassemble(mem: &Vec<u16>, ann: &Annotations) -> (r: Vec<u8>)
    requires
        mem@.len() <= 0x10000,
    ensures
        r@ == spec_disassembly(mem@, ann@),
{
    let mut out: Vec<u8> = Vec::new();
    let mut addr: usize = 0;
    let mut in_data: bool = false;
    while addr < mem.len()
        invariant
            addr <= mem@.len(),
            spec_disassembly(mem@, ann@) == out@ + disasm_from(mem@, ann@, addr as int, in_data),
        decreases mem@.len() - addr,
    {
        let w0 = mem[addr];
        let w1 = if addr + 1 < mem.len() {
            mem[addr + 1]
        } else {
            0
        };
        let w2 = if addr + 2 < mem.len() {
            mem[addr + 2]
        } else {
            0
        };
        let w3 = if addr + 3 < mem.len() {
            mem[addr + 3]
        } else {
            0
        };
        let window: Vec<u16> = vec![w0, w1, w2, w3];
        proof {
            assert(window@ =~= fetch_window(mem@, addr as int));
        }
        match Op::decode(window.as_slice()) {
            Ok(op) => {
                if in_data {
                    out.push(10);
                    out.push(10);
                    proof {
                        reveal_strlit("\n\n");
                    }
                }
                let a16 = addr as u16;
                push_labels(&mut out, ann, a16);
                let mut line: Vec<u8> = Vec::new();
                proof {
                    reveal_strlit("/* 0x");
                    reveal_strlit(" */ ");
                }
                push_ascii(&mut line, "/* 0x");
                push_hex4(&mut line, a16);
                push_ascii(&mut line, " */ ");
                push_op(&mut line, &op);
                proof {
                    assert(line@ =~= instruction_line(a16, op));
                }
                append_comments(&mut line, ann, a16);
                push_bytes(&mut out, line.as_slice());
                out.push(10);
                let step = 1 + op.arg_count();
                in_data = false;
                if addr + step <= mem.len() {
                    addr = addr + step;
                } else {
                    addr = mem.len();
                }
            },
            Err(_) => {
                if !in_data {
                    proof {
                        reveal_strlit("; binary data omitted");
                    }
                    push_ascii(&mut out, "; binary data omitted");
                    in_data = true;
                }
                addr = addr + 1;
            },
        }
    }
    out
}

} // verus!
