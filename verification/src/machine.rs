//! The machine core: registers, stack, memory and program counter, with a
//! fetch-execute step whose exact semantics is stated by [`spec_step`].
//!
//! The machine is pure: console output, the trace text and interactive
//! input all pass through buffers of the state. The host feeds one byte in
//! with [`Machine::provide_input`] whenever [`Machine::run`] stops at
//! [`Status::NeedInput`], and drains [`Machine::take_output`].

use vstd::prelude::*;
use vstd::string::StringSliceAdditionalSpecFns;

use crate::error::Error;
use crate::fmt::{dec_digits, hex4_digits, lit_bytes, push_ascii, push_dec, push_hex4};
use crate::op::{
    spec_decode_op, spec_render_op, spec_render_reg, spec_render_val, Op, Reg, Val,
};
use crate::word::{word_add, word_mod, word_mul, word_not};

verus! {

/// The machine's whole state, as mathematical values.
#[verifier::ext_equal]
pub struct MachineView {
    /// The eight registers; always of length 8.
    pub regs: Seq<u16>,
    /// The stack, oldest value first.
    pub stack: Seq<u16>,
    /// The memory image; addresses past its length read as zero.
    pub mem: Seq<u16>,
    /// The address of the next instruction.
    pub pc: u16,
    /// The pre-programmed input, already filtered of comment lines.
    pub script: Seq<u8>,
    /// How many script bytes have been consumed.
    pub script_pos: int,
    /// One interactive input byte handed in by the host, not yet consumed.
    pub pending: Option<u8>,
    /// Every interactive byte consumed so far.
    pub input_log: Seq<u8>,
    /// What register 7 is set to when the teleporter phrase is typed.
    pub teleporter_value: u16,
    /// Console output produced so far.
    pub output: Seq<u8>,
    /// Whether executed instructions are traced.
    pub trace_on: bool,
    /// The trace text produced so far.
    pub trace: Seq<u8>,
    /// Watched addresses with their names, newest first.
    pub watches: Seq<(u16, Seq<u8>)>,
}

/// How a step or a run ended.
#[derive(Clone, Copy, Debug, PartialEq, Eq, Structural)]
pub enum Status {
    /// The machine can take another step.
    Running,
    /// Clean termination: `halt`, or `ret` on an empty stack.
    Halted,
    /// An `in` instruction found no script byte and no pending byte.
    NeedInput,
    /// A fatal error; the program counter still addresses the culprit.
    Fault(Error),
}

/// The word at an address, with the image zero-extended over the whole
/// address space.
pub open spec fn mem_word(m: Seq<u16>, a: int) -> u16 {
    if 0 <= a < m.len() {
        m[a]
    } else {
        0
    }
}

/// The four words starting at an address: enough for any instruction.
pub open spec fn fetch_window(m: Seq<u16>, a: int) -> Seq<u16> {
    seq![mem_word(m, a), mem_word(m, a + 1), mem_word(m, a + 2), mem_word(m, a + 3)]
}

/// Decoding the instruction that starts at an address.
pub open spec fn spec_decode_at(m: Seq<u16>, a: int) -> Result<Op, Error> {
    spec_decode_op(fetch_window(m, a))
}

/// Writing a word at an address, growing the image with zeros when the
/// address lies past its end.
pub open spec fn mem_write(m: Seq<u16>, a: int, v: u16) -> Seq<u16> {
    if a < m.len() {
        m.update(a, v)
    } else {
        m + Seq::new((a - m.len()) as nat, |i: int| 0u16) + seq![v]
    }
}

/// The trace line that accompanies every register write.
pub open spec fn trace_set_line(r: Reg, v: u16) -> Seq<u8> {
    lit_bytes("; set "@) + spec_render_reg(r) + lit_bytes(" = "@) + dec_digits(v as nat)
        + seq![10u8]
}

/// Writing a register: the register file is updated and, when tracing is
/// on, the write is logged.
pub open spec fn reg_write(s: MachineView, r: Reg, v: u16) -> MachineView {
    MachineView {
        regs: s.regs.update(r.0 as int, v),
        trace: if s.trace_on {
            s.trace + trace_set_line(r, v)
        } else {
            s.trace
        },
        ..s
    }
}

/// The name under which an address is watched, if any; the newest entry
/// wins.
pub open spec fn watch_name(ws: Seq<(u16, Seq<u8>)>, a: u16) -> Option<Seq<u8>>
    decreases ws.len(),
{
    if ws.len() == 0 {
        None
    } else if ws[0].0 == a {
        Some(ws[0].1)
    } else {
        watch_name(ws.skip(1), a)
    }
}

/// The console line printed when a watched address is read or written.
pub open spec fn watch_line(name: Seq<u8>, read: bool, a: u16, v: u16) -> Seq<u8> {
    (if read {
        lit_bytes("DEBUG: read "@)
    } else {
        lit_bytes("DEBUG: write "@)
    }) + name + lit_bytes(" addr "@) + dec_digits(a as nat) + lit_bytes(" = "@) + dec_digits(
        v as nat,
    ) + seq![10u8]
}

/// What a memory access at an address adds to the console output: the
/// watch line when the address is watched, nothing otherwise.
pub open spec fn watch_output(ws: Seq<(u16, Seq<u8>)>, read: bool, a: u16, v: u16) -> Seq<u8> {
    match watch_name(ws, a) {
        Some(name) => watch_line(name, read, a, v),
        None => seq![],
    }
}

/// The exact byte sequence that triggers the teleporter override.
pub open spec fn teleporter_phrase() -> Seq<u8> {
    lit_bytes("use teleporter\n"@)
}

/// Whether the interactive input so far ends in the teleporter phrase.
pub open spec fn ends_with_phrase(log: Seq<u8>) -> bool {
    log.len() >= 15 && log.skip(log.len() - 15) == teleporter_phrase()
}

/// The trace line logged when the teleporter override fires.
pub open spec fn teleporter_trace_line() -> Seq<u8> {
    lit_bytes(";; USING TELEPORTER\n"@)
}

/// What one instruction does to the machine, given the already decoded
/// instruction and the address of the word after it. Returns the status
/// and the state after the instruction.
pub open spec fn spec_apply(s: MachineView, op: Op, next: u16) -> (Status, MachineView) {
    match op {
        Op::Halt => (Status::Halted, s),
        Op::Assign(a, b) => {
            let s1 = reg_write(s, a, b.spec_val(s.regs));
            (Status::Running, MachineView { pc: next, ..s1 })
        },
        Op::Push(a) => (
            Status::Running,
            MachineView { stack: s.stack.push(a.spec_val(s.regs)), pc: next, ..s },
        ),
        Op::Pop(a) => {
            if s.stack.len() == 0 {
                (Status::Fault(Error::PoppedEmptyStack), s)
            } else {
                let v = s.stack.last();
                let s1 = reg_write(MachineView { stack: s.stack.drop_last(), ..s }, a, v);
                (Status::Running, MachineView { pc: next, ..s1 })
            }
        },
        Op::Eq(a, b, c) => {
            let v = if b.spec_val(s.regs) == c.spec_val(s.regs) {
                1u16
            } else {
                0u16
            };
            let s1 = reg_write(s, a, v);
            (Status::Running, MachineView { pc: next, ..s1 })
        },
        Op::Gt(a, b, c) => {
            let v = if b.spec_val(s.regs) > c.spec_val(s.regs) {
                1u16
            } else {
                0u16
            };
            let s1 = reg_write(s, a, v);
            (Status::Running, MachineView { pc: next, ..s1 })
        },
        Op::Jmp(a) => (Status::Running, MachineView { pc: a.spec_val(s.regs), ..s }),
        Op::Jt(a, b) => {
            if a.spec_val(s.regs) != 0 {
                (Status::Running, MachineView { pc: b.spec_val(s.regs), ..s })
            } else {
                (Status::Running, MachineView { pc: next, ..s })
            }
        },
        Op::Jf(a, b) => {
            if a.spec_val(s.regs) == 0 {
                (Status::Running, MachineView { pc: b.spec_val(s.regs), ..s })
            } else {
                (Status::Running, MachineView { pc: next, ..s })
            }
        },
        Op::Add(a, b, c) => {
            let s1 = reg_write(s, a, word_add(b.spec_val(s.regs), c.spec_val(s.regs)));
            (Status::Running, MachineView { pc: next, ..s1 })
        },
        Op::Mult(a, b, c) => {
            let s1 = reg_write(s, a, word_mul(b.spec_val(s.regs), c.spec_val(s.regs)));
            (Status::Running, MachineView { pc: next, ..s1 })
        },
        Op::Mod(a, b, c) => {
            if c.spec_val(s.regs) == 0 {
                (Status::Fault(Error::DivisionByZero), s)
            } else {
                let s1 = reg_write(s, a, word_mod(b.spec_val(s.regs), c.spec_val(s.regs)));
                (Status::Running, MachineView { pc: next, ..s1 })
            }
        },
        Op::And(a, b, c) => {
            let s1 = reg_write(s, a, b.spec_val(s.regs) & c.spec_val(s.regs));
            (Status::Running, MachineView { pc: next, ..s1 })
        },
        Op::Or(a, b, c) => {
            let s1 = reg_write(s, a, b.spec_val(s.regs) | c.spec_val(s.regs));
            (Status::Running, MachineView { pc: next, ..s1 })
        },
        Op::Not(a, b) => {
            let s1 = reg_write(s, a, word_not(b.spec_val(s.regs)));
            (Status::Running, MachineView { pc: next, ..s1 })
        },
        Op::Rmem(a, b) => {
            let addr = b.spec_val(s.regs);
            let v = mem_word(s.mem, addr as int);
            let s1 = reg_write(s, a, v);
            let s2 = MachineView {
                output: s1.output + watch_output(s1.watches, true, addr, v),
                ..s1
            };
            (Status::Running, MachineView { pc: next, ..s2 })
        },
        Op::Wmem(a, b) => {
            let addr = a.spec_val(s.regs);
            let v = b.spec_val(s.regs);
            let s1 = MachineView { mem: mem_write(s.mem, addr as int, v), ..s };
            let s2 = MachineView {
                output: s1.output + watch_output(s1.watches, false, addr, v),
                ..s1
            };
            (Status::Running, MachineView { pc: next, ..s2 })
        },
        Op::Call(a) => {
            let target = a.spec_val(s.regs);
            let s1 = MachineView { stack: s.stack.push(next), pc: target, ..s };
            let s2 = MachineView {
                trace: if s.trace_on && a is Reg {
                    s1.trace + trace_call_line(a, target)
                } else {
                    s1.trace
                },
                ..s1
            };
            (Status::Running, s2)
        },
        Op::Ret => {
            if s.stack.len() == 0 {
                (Status::Halted, s)
            } else {
                (
                    Status::Running,
                    MachineView { pc: s.stack.last(), stack: s.stack.drop_last(), ..s },
                )
            }
        },
        Op::Out(a) => {
            let b = (a.spec_val(s.regs) % 256) as u8;
            (Status::Running, MachineView { output: s.output + seq![b], pc: next, ..s })
        },
        Op::In(a) => {
            if s.script_pos < s.script.len() {
                let c = s.script[s.script_pos];
                let s1 = reg_write(s, a, c as u16);
                (
                    Status::Running,
                    MachineView {
                        output: s1.output + seq![c],
                        script_pos: s.script_pos + 1,
                        pc: next,
                        ..s1
                    },
                )
            } else {
                match s.pending {
                    Some(b) => {
                        let log1 = s.input_log + seq![b];
                        let s1 = MachineView { pending: None, input_log: log1, ..s };
                        let s2 = if ends_with_phrase(log1) {
                            MachineView {
                                regs: s1.regs.update(7, s1.teleporter_value),
                                trace: if s1.trace_on {
                                    s1.trace + teleporter_trace_line()
                                } else {
                                    s1.trace
                                },
                                ..s1
                            }
                        } else {
                            s1
                        };
                        let s3 = reg_write(s2, a, b as u16);
                        (Status::Running, MachineView { pc: next, ..s3 })
                    },
                    None => (Status::NeedInput, s),
                }
            }
        },
        Op::Noop => (Status::Running, MachineView { pc: next, ..s }),
    }
}

/// The trace line logged by `call` through a register.
pub open spec fn trace_call_line(a: Val, target: u16) -> Seq<u8> {
    lit_bytes("; register "@) + spec_render_val(a) + lit_bytes(" = 0x"@) + hex4_digits(target)
        + seq![10u8]
}

/// One fetch-execute step: decode at the program counter (a decode
/// failure is fatal and changes nothing), log the instruction when
/// tracing, then apply it. The instruction either jumps or falls through
/// to the next sequential address.
pub open spec fn spec_step(s: MachineView) -> (Status, MachineView) {
    match spec_decode_at(s.mem, s.pc as int) {
        Err(e) => (Status::Fault(e), s),
        Ok(op) => {
            let s1 = MachineView {
                trace: if s.trace_on {
                    s.trace + spec_render_op(op) + seq![10u8]
                } else {
                    s.trace
                },
                ..s
            };
            let next = ((s.pc as int + 1 + op.spec_arity()) % 0x10000) as u16;
            spec_apply(s1, op, next)
        },
    }
}

/// Up to `fuel` steps: stepping stops early when a step does not end
/// [`Status::Running`], and reports [`Status::Running`] when the budget
/// runs out first.
pub open spec fn spec_run(s: MachineView, fuel: nat) -> (Status, MachineView)
    decreases fuel,
{
    if fuel == 0 {
        (Status::Running, s)
    } else {
        let (st, s1) = spec_step(s);
        if st is Running {
            spec_run(s1, (fuel - 1) as nat)
        } else {
            (st, s1)
        }
    }
}

/// The comment-line filter applied to a script: a line whose first two
/// bytes are `//` is dropped whole, its trailing newline included; every
/// other line is kept verbatim. `line_start` and `drop` carry the scan's
/// state: whether position `i` starts a line, and whether the current
/// line is being dropped.
pub open spec fn filter_bytes(s: Seq<u8>, i: int, line_start: bool, drop: bool) -> Seq<u8>
    decreases s.len() - i,
{
    if i < 0 || i >= s.len() {
        seq![]
    } else {
        let d = if line_start {
            i + 1 < s.len() && s[i] == 47 && s[i + 1] == 47
        } else {
            drop
        };
        let rest = filter_bytes(s, i + 1, s[i] == 10, d);
        if d {
            rest
        } else {
            seq![s[i]] + rest
        }
    }
}

/// The script a raw input text produces.
pub open spec fn filter_script(s: Seq<u8>) -> Seq<u8> {
    filter_bytes(s, 0, true, false)
}

/// The state a machine starts in: a memory image, everything else empty.
pub open spec fn spec_new(mem: Seq<u16>) -> MachineView {
    MachineView {
        regs: seq![0u16, 0u16, 0u16, 0u16, 0u16, 0u16, 0u16, 0u16],
        stack: seq![],
        mem: mem,
        pc: 0,
        script: seq![],
        script_pos: 0,
        pending: None,
        input_log: seq![],
        teleporter_value: 1,
        output: seq![],
        trace_on: false,
        trace: seq![],
        watches: seq![],
    }
}

/// Law: every instruction that writes a destination register leaves in
/// it exactly the specified arithmetic, reduced into the word range
/// where the instruction set says so.
pub proof fn lemma_destination_write(s: MachineView)
    requires
        s.regs.len() == 8,
    ensures
        spec_decode_at(s.mem, s.pc as int) matches Ok(op) ==> {
            let post = spec_step(s).1;
            let regs = s.regs;
            match op {
                Op::Assign(a, b) => post.regs[a.0 as int] == b.spec_val(regs),
                Op::Pop(a) => regs.len() == 8 && (s.stack.len() > 0 ==> post.regs[a.0 as int]
                    == s.stack.last()),
                Op::Eq(a, b, c) => post.regs[a.0 as int] == (if b.spec_val(regs) == c.spec_val(
                    regs,
                ) {
                    1u16
                } else {
                    0u16
                }),
                Op::Gt(a, b, c) => post.regs[a.0 as int] == (if b.spec_val(regs) > c.spec_val(
                    regs,
                ) {
                    1u16
                } else {
                    0u16
                }),
                Op::Add(a, b, c) => post.regs[a.0 as int] == (b.spec_val(regs) + c.spec_val(regs))
                    % 32768,
                Op::Mult(a, b, c) => post.regs[a.0 as int] == (b.spec_val(regs) as int
                    * c.spec_val(regs) as int) % 32768,
                Op::Mod(a, b, c) => c.spec_val(regs) != 0 ==> post.regs[a.0 as int] == b.spec_val(
                    regs,
                ) as int % c.spec_val(regs) as int,
                Op::And(a, b, c) => post.regs[a.0 as int] == b.spec_val(regs) & c.spec_val(regs),
                Op::Or(a, b, c) => post.regs[a.0 as int] == b.spec_val(regs) | c.spec_val(regs),
                Op::Not(a, b) => post.regs[a.0 as int] == 0x7fff ^ b.spec_val(regs),
                Op::Rmem(a, b) => post.regs[a.0 as int] == mem_word(
                    s.mem,
                    b.spec_val(regs) as int,
                ),
                Op::In(a) => s.script_pos < s.script.len() ==> post.regs[a.0 as int]
                    == s.script[s.script_pos] as u16,
                _ => true,
            }
        },
{
    if spec_decode_at(s.mem, s.pc as int) is Ok {
        let op = spec_decode_at(s.mem, s.pc as int)->Ok_0;
        crate::op::lemma_encode_decode(fetch_window(s.mem, s.pc as int), op);
    }
}

/// Law: a `call` pushes the address of the word after its operand --
/// the program counter plus two -- and jumps to its target's value.
pub proof fn lemma_call_pushes_return(s: MachineView, t: Val)
    requires
        s.regs.len() == 8,
        s.pc + 2 < 0x10000,
        spec_decode_at(s.mem, s.pc as int) == Ok::<Op, Error>(Op::Call(t)),
    ensures
        spec_step(s).0 is Running,
        spec_step(s).1.stack == s.stack.push((s.pc + 2) as u16),
        spec_step(s).1.stack.len() == s.stack.len() + 1,
        spec_step(s).1.stack.last() == s.pc + 2,
        spec_step(s).1.pc == t.spec_val(s.regs),
{
}

/// Law: a `ret` with a non-empty stack jumps to the prior top of stack
/// and shortens the stack by one; with an empty stack it halts.
pub proof fn lemma_ret_pops_return(s: MachineView)
    requires
        spec_decode_at(s.mem, s.pc as int) == Ok::<Op, Error>(Op::Ret),
    ensures
        s.stack.len() > 0 ==> {
            &&& spec_step(s).0 is Running
            &&& spec_step(s).1.pc == s.stack.last()
            &&& spec_step(s).1.stack == s.stack.drop_last()
            &&& spec_step(s).1.stack.len() == s.stack.len() - 1
        },
        s.stack.len() == 0 ==> spec_step(s).0 is Halted && spec_step(s).1.stack == s.stack,
{
}

/// The machine: register file, stack, memory, program counter, and the
/// buffers through which it meets its host.
pub struct Machine {
    registers: [u16; 8],
    stack: Vec<u16>,
    mem: Vec<u16>,
    pc: u16,
    script: Vec<u8>,
    script_pos: usize,
    pending: Option<u8>,
    input_log: Vec<u8>,
    teleporter_value: u16,
    output: Vec<u8>,
    trace_on: bool,
    trace: Vec<u8>,
    watches: Vec<(u16, Vec<u8>)>,
}

impl View for Machine {
    type V = MachineView;

    closed spec fn view(&self) -> MachineView {
        MachineView {
            regs: self.registers@,
            stack: self.stack@,
            mem: self.mem@,
            pc: self.pc,
            script: self.script@,
            script_pos: self.script_pos as int,
            pending: self.pending,
            input_log: self.input_log@,
            teleporter_value: self.teleporter_value,
            output: self.output@,
            trace_on: self.trace_on,
            trace: self.trace@,
            watches: self.watches@.map_values(|p: (u16, Vec<u8>)| (p.0, p.1@)),
        }
    }
}

impl Machine {
    /// A fresh machine over a memory image.
    pub fn new(mem: Vec<u16>) -> (m: Machine)
        ensures
            m@ == spec_new(mem@),
    {
        let m = Machine {
            registers: [0u16; 8],
            stack: Vec::new(),
            mem,
            pc: 0,
            script: Vec::new(),
            script_pos: 0,
            pending: None,
            input_log: Vec::new(),
            teleporter_value: 1,
            output: Vec::new(),
            trace_on: false,
            trace: Vec::new(),
            watches: Vec::new(),
        };
        proof {
            assert(m@.regs =~= spec_new(m.mem@).regs);
            assert(m@.watches =~= spec_new(m.mem@).watches);
            assert(m@ =~= spec_new(m.mem@));
        }
        m
    }

    /// Replaces the pre-programmed input with `script`, filtered of
    /// comment lines. The read cursor is not touched.
    pub fn set_script(&mut self, script: &[u8])
        ensures
            final(self)@ == (MachineView { script: filter_script(script@), ..old(self)@ }),
    {
        let ghost s = script@;
        let mut out: Vec<u8> = Vec::new();
        let mut i: usize = 0;
        let mut line_start: bool = true;
        let mut dropping: bool = false;
        while i < script.len()
            invariant
                i <= s.len(),
                s == script@,
                filter_script(s) == out@ + filter_bytes(s, i as int, line_start, dropping),
            decreases s.len() - i,
        {
            let d: bool = if line_start {
                i + 1 < script.len() && script[i] == 47 && script[i + 1] == 47
            } else {
                dropping
            };
            if !d {
                out.push(script[i]);
            }
            line_start = script[i] == 10;
            dropping = d;
            i = i + 1;
        }
        proof {
            assert(out@ =~= filter_script(s));
        }
        self.script = out;
        proof {
            assert(self@ =~= (MachineView { script: filter_script(script@), ..old(self)@ }));
        }
    }

    /// Presets one register, without touching the trace.
    pub fn set_register(&mut self, i: usize, val: u16)
        requires
            i < 8,
        ensures
            final(self)@ == (MachineView {
                regs: old(self)@.regs.update(i as int, val),
                ..old(self)@
            }),
    {
        self.registers[i] = val;
        proof {
            assert(self@ =~= (MachineView {
                regs: old(self)@.regs.update(i as int, val),
                ..old(self)@
            }));
        }
    }

    /// Presets register 7, the teleporter check's register.
    pub fn set_eighth_register(&mut self, val: u16)
        ensures
            final(self)@ == (MachineView {
                regs: old(self)@.regs.update(7, val),
                ..old(self)@
            }),
    {
        self.registers[7] = val;
        proof {
            assert(self@ =~= (MachineView { regs: old(self)@.regs.update(7, val), ..old(self)@ }));
        }
    }

    /// Sets the value that the teleporter phrase writes into register 7;
    /// normally the recurrence solver's output.
    pub fn set_teleporter_value(&mut self, val: u16)
        ensures
            final(self)@ == (MachineView { teleporter_value: val, ..old(self)@ }),
    {
        self.teleporter_value = val;
        proof {
            assert(self@ =~= (MachineView { teleporter_value: val, ..old(self)@ }));
        }
    }

    /// Turns the execution trace on.
    pub fn enable_trace(&mut self)
        ensures
            final(self)@ == (MachineView { trace_on: true, ..old(self)@ }),
    {
        self.trace_on = true;
        proof {
            assert(self@ =~= (MachineView { trace_on: true, ..old(self)@ }));
        }
    }

    /// Watches an address: memory reads and writes there print a debug
    /// line naming it. A newer watch on the same address wins.
    pub fn watch(&mut self, addr: u16, name: &str)
        ensures
            final(self)@ == (MachineView {
                watches: seq![(addr, name.spec_bytes())] + old(self)@.watches,
                ..old(self)@
            }),
    {
        let bytes = vstd::slice::slice_to_vec(name.as_bytes());
        self.watches.insert(0, (addr, bytes));
        proof {
            assert(self@.watches =~= seq![(addr, name.spec_bytes())] + old(self)@.watches);
            assert(self@ =~= (MachineView {
                watches: seq![(addr, name.spec_bytes())] + old(self)@.watches,
                ..old(self)@
            }));
        }
    }

    /// Hands the machine one interactive input byte; the next `in`
    /// instruction past the script's end consumes it.
    pub fn provide_input(&mut self, b: u8)
        ensures
            final(self)@ == (MachineView { pending: Some(b), ..old(self)@ }),
    {
        self.pending = Some(b);
        proof {
            assert(self@ =~= (MachineView { pending: Some(b), ..old(self)@ }));
        }
    }

    /// The console output produced so far, draining the buffer.
    pub fn take_output(&mut self) -> (r: Vec<u8>)
        ensures
            r@ == old(self)@.output,
            final(self)@ == (MachineView { output: seq![], ..old(self)@ }),
    {
        let mut out: Vec<u8> = Vec::new();
        core::mem::swap(&mut out, &mut self.output);
        proof {
            assert(self@ =~= (MachineView { output: seq![], ..old(self)@ }));
        }
        out
    }

    /// The console output produced so far.
    pub fn output(&self) -> (r: &Vec<u8>)
        ensures
            r@ == self@.output,
    {
        &self.output
    }

    /// The trace text produced so far.
    pub fn trace(&self) -> (r: &Vec<u8>)
        ensures
            r@ == self@.trace,
    {
        &self.trace
    }

    /// One register's current value.
    pub fn reg(&self, i: usize) -> (v: u16)
        requires
            i < 8,
        ensures
            v == self@.regs[i as int],
    {
        self.registers[i]
    }

    /// The program counter.
    pub fn pc(&self) -> (v: u16)
        ensures
            v == self@.pc,
    {
        self.pc
    }

    /// How deep the stack is.
    pub fn stack_len(&self) -> (n: usize)
        ensures
            n == self@.stack.len(),
    {
        self.stack.len()
    }

    /// The word at a memory address, the image zero-extended.
    pub fn mem_at(&self, addr: u16) -> (v: u16)
        ensures
            v == mem_word(self@.mem, addr as int),
    {
        if (addr as usize) < self.mem.len() {
            self.mem[addr as usize]
        } else {
            0
        }
    }

    /// Reads the word at a raw offset, the image zero-extended.
    fn fetch(&self, a: usize) -> (v: u16)
        ensures
            v == mem_word(self@.mem, a as int),
    {
        if a < self.mem.len() {
            self.mem[a]
        } else {
            0
        }
    }

    /// Reads an operand through the register file.
    fn read_val(&self, v: Val) -> (r: u16)
        requires
            v.wf(),
        ensures
            r == v.spec_val(self@.regs),
    {
        v.val(&self.registers)
    }

    /// Writes a register, logging the write when tracing is on.
    fn write_reg(&mut self, r: Reg, v: u16)
        requires
            r.wf(),
        ensures
            final(self)@ == reg_write(old(self)@, r, v),
    {
        if self.trace_on {
            proof {
                reveal_strlit("; set ");
                reveal_strlit(" = ");
            }
            push_ascii(&mut self.trace, "; set ");
            crate::op::push_reg(&mut self.trace, r);
            push_ascii(&mut self.trace, " = ");
            push_dec(&mut self.trace, v);
            self.trace.push(10);
            proof {
                assert(self.trace@ =~= old(self).trace@ + trace_set_line(r, v));
            }
        }
        self.registers[r.index()] = v;
        proof {
            assert(self@ =~= reg_write(old(self)@, r, v));
        }
    }

    /// Writes a word at an address, growing the image with zeros when the
    /// address lies past its end.
    fn mem_store(&mut self, addr: u16, v: u16)
        ensures
            final(self)@ == (MachineView {
                mem: mem_write(old(self)@.mem, addr as int, v),
                ..old(self)@
            }),
    {
        let a = addr as usize;
        if a < self.mem.len() {
            self.mem.set(a, v);
            proof {
                assert(self@.mem =~= mem_write(old(self)@.mem, addr as int, v));
            }
        } else {
            while self.mem.len() < a
                invariant
                    self.mem@ == old(self)@.mem + Seq::new(
                        (self.mem@.len() - old(self)@.mem.len()) as nat,
                        |i: int| 0u16,
                    ),
                    self.mem@.len() <= a,
                    a == addr as usize,
                    self.registers == old(self).registers,
                    self.stack == old(self).stack,
                    self.pc == old(self).pc,
                    self.script == old(self).script,
                    self.script_pos == old(self).script_pos,
                    self.pending == old(self).pending,
                    self.input_log == old(self).input_log,
                    self.teleporter_value == old(self).teleporter_value,
                    self.output == old(self).output,
                    self.trace_on == old(self).trace_on,
                    self.trace == old(self).trace,
                    self.watches == old(self).watches,
                decreases a - self.mem.len(),
            {
                self.mem.push(0);
                proof {
                    assert(self.mem@ =~= old(self)@.mem + Seq::new(
                        (self.mem@.len() - old(self)@.mem.len()) as nat,
                        |i: int| 0u16,
                    ));
                }
            }
            self.mem.push(v);
            proof {
                assert(self@.mem =~= mem_write(old(self)@.mem, addr as int, v));
            }
        }
        proof {
            assert(self@ =~= (MachineView {
                mem: mem_write(old(self)@.mem, addr as int, v),
                ..old(self)@
            }));
        }
    }

    /// Looks an address up among the watches; the newest entry wins.
    fn find_watch(&self, addr: u16) -> (r: Option<&Vec<u8>>)
        ensures
            match r {
                Some(name) => watch_name(self@.watches, addr) == Some(name@),
                None => watch_name(self@.watches, addr) is None,
            },
    {
        let ghost ws = self@.watches;
        proof {
            assert(ws.skip(0) =~= ws);
        }
        let mut i: usize = 0;
        while i < self.watches.len()
            invariant
                i <= self.watches.len(),
                ws == self@.watches,
                ws.len() == self.watches.len(),
                forall|j: int| 0 <= j < ws.len() ==> ws[j] == (self.watches@[j].0, self.watches@[j].1@),
                watch_name(ws, addr) == watch_name(ws.skip(i as int), addr),
            decreases self.watches.len() - i,
        {
            if self.watches[i].0 == addr {
                proof {
                    assert(ws.skip(i as int)[0] == ws[i as int]);
                }
                return Some(&self.watches[i].1);
            }
            proof {
                assert(ws.skip(i as int).skip(1) =~= ws.skip(i as int + 1));
                assert(ws.skip(i as int)[0] == ws[i as int]);
            }
            i = i + 1;
        }
        proof {
            assert(ws.skip(i as int).len() == 0);
        }
        None
    }

    /// Prints the debug line for a watched memory access, when the
    /// address is watched.
    fn emit_watch(&mut self, read: bool, addr: u16, v: u16)
        ensures
            final(self)@ == (MachineView {
                output: old(self)@.output + watch_output(old(self)@.watches, read, addr, v),
                ..old(self)@
            }),
    {
        let name = match self.find_watch(addr) {
            Some(name) => name.clone(),
            None => {
                proof {
                    assert(self@ =~= (MachineView {
                        output: old(self)@.output + watch_output(
                            old(self)@.watches,
                            read,
                            addr,
                            v,
                        ),
                        ..old(self)@
                    }));
                }
                return ;
            },
        };
        proof {
            reveal_strlit("DEBUG: read ");
            reveal_strlit("DEBUG: write ");
            reveal_strlit(" addr ");
            reveal_strlit(" = ");
        }
        if read {
            push_ascii(&mut self.output, "DEBUG: read ");
        } else {
            push_ascii(&mut self.output, "DEBUG: write ");
        }
        crate::fmt::push_bytes(&mut self.output, name.as_slice());
        push_ascii(&mut self.output, " addr ");
        push_dec(&mut self.output, addr);
        push_ascii(&mut self.output, " = ");
        push_dec(&mut self.output, v);
        self.output.push(10);
        proof {
            assert(self.output@ =~= old(self).output@ + watch_output(
                old(self)@.watches,
                read,
                addr,
                v,
            ));
            assert(self@ =~= (MachineView {
                output: old(self)@.output + watch_output(old(self)@.watches, read, addr, v),
                ..old(self)@
            }));
        }
    }

    /// Applies one already decoded instruction; `next` is the address of
    /// the word after it.
    #[verifier::rlimit(60)]
    fn apply_op(&mut self, op: Op, next: u16) -> (st: Status)
        requires
            op.wf(),
        ensures
            st == spec_apply(old(self)@, op, next).0,
            final(self)@ == spec_apply(old(self)@, op, next).1,
    {
        match op {
            Op::Halt => Status::Halted,
            Op::Assign(a, b) => {
                let v = self.read_val(b);
                self.write_reg(a, v);
                self.pc = next;
                proof {
                    assert(self@ =~= spec_apply(old(self)@, op, next).1);
                }
                Status::Running
            },
            Op::Push(a) => {
                let v = self.read_val(a);
                self.stack.push(v);
                self.pc = next;
                proof {
                    assert(self@ =~= spec_apply(old(self)@, op, next).1);
                }
                Status::Running
            },
            Op::Pop(a) => {
                if self.stack.len() == 0 {
                    Status::Fault(Error::PoppedEmptyStack)
                } else {
                    let v = self.stack.pop().unwrap();
                    self.write_reg(a, v);
                    self.pc = next;
                    proof {
                        assert(self@ =~= spec_apply(old(self)@, op, next).1);
                    }
                    Status::Running
                }
            },
            Op::Eq(a, b, c) => {
                let vb = self.read_val(b);
                let vc = self.read_val(c);
                let v: u16 = if vb == vc {
                    1
                } else {
                    0
                };
                self.write_reg(a, v);
                self.pc = next;
                proof {
                    assert(self@ =~= spec_apply(old(self)@, op, next).1);
                }
                Status::Running
            },
            Op::Gt(a, b, c) => {
                let vb = self.read_val(b);
                let vc = self.read_val(c);
                let v: u16 = if vb > vc {
                    1
                } else {
                    0
                };
                self.write_reg(a, v);
                self.pc = next;
                proof {
                    assert(self@ =~= spec_apply(old(self)@, op, next).1);
                }
                Status::Running
            },
            Op::Jmp(a) => {
                self.pc = self.read_val(a);
                proof {
                    assert(self@ =~= spec_apply(old(self)@, op, next).1);
                }
                Status::Running
            },
            Op::Jt(a, b) => {
                if self.read_val(a) != 0 {
                    self.pc = self.read_val(b);
                } else {
                    self.pc = next;
                }
                proof {
                    assert(self@ =~= spec_apply(old(self)@, op, next).1);
                }
                Status::Running
            },
            Op::Jf(a, b) => {
                if self.read_val(a) == 0 {
                    self.pc = self.read_val(b);
                } else {
                    self.pc = next;
                }
                proof {
                    assert(self@ =~= spec_apply(old(self)@, op, next).1);
                }
                Status::Running
            },
            Op::Add(a, b, c) => {
                let vb = self.read_val(b);
                let vc = self.read_val(c);
                self.write_reg(a, crate::word::add_words(vb, vc));
                self.pc = next;
                proof {
                    assert(self@ =~= spec_apply(old(self)@, op, next).1);
                }
                Status::Running
            },
            Op::Mult(a, b, c) => {
                let vb = self.read_val(b);
                let vc = self.read_val(c);
                self.write_reg(a, crate::word::mul_words(vb, vc));
                self.pc = next;
                proof {
                    assert(self@ =~= spec_apply(old(self)@, op, next).1);
                }
                Status::Running
            },
            Op::Mod(a, b, c) => {
                let vc = self.read_val(c);
                if vc == 0 {
                    Status::Fault(Error::DivisionByZero)
                } else {
                    let vb = self.read_val(b);
                    self.write_reg(a, vb % vc);
                    self.pc = next;
                    proof {
                        assert(self@ =~= spec_apply(old(self)@, op, next).1);
                    }
                    Status::Running
                }
            },
            Op::And(a, b, c) => {
                let vb = self.read_val(b);
                let vc = self.read_val(c);
                self.write_reg(a, vb & vc);
                self.pc = next;
                proof {
                    assert(self@ =~= spec_apply(old(self)@, op, next).1);
                }
                Status::Running
            },
            Op::Or(a, b, c) => {
                let vb = self.read_val(b);
                let vc = self.read_val(c);
                self.write_reg(a, vb | vc);
                self.pc = next;
                proof {
                    assert(self@ =~= spec_apply(old(self)@, op, next).1);
                }
                Status::Running
            },
            Op::Not(a, b) => {
                let vb = self.read_val(b);
                self.write_reg(a, crate::word::MASK ^ vb);
                self.pc = next;
                proof {
                    assert(self@ =~= spec_apply(old(self)@, op, next).1);
                }
                Status::Running
            },
            Op::Rmem(a, b) => {
                let addr = self.read_val(b);
                let v = self.fetch(addr as usize);
                self.write_reg(a, v);
                self.emit_watch(true, addr, v);
                self.pc = next;
                proof {
                    assert(self@ =~= spec_apply(old(self)@, op, next).1);
                }
                Status::Running
            },
            Op::Wmem(a, b) => {
                let addr = self.read_val(a);
                let v = self.read_val(b);
                self.mem_store(addr, v);
                self.emit_watch(false, addr, v);
                self.pc = next;
                proof {
                    assert(self@ =~= spec_apply(old(self)@, op, next).1);
                }
                Status::Running
            },
            Op::Call(a) => {
                let target = self.read_val(a);
                self.stack.push(next);
                self.pc = target;
                if self.trace_on && a.is_reg() {
                    proof {
                        reveal_strlit("; register ");
                        reveal_strlit(" = 0x");
                    }
                    push_ascii(&mut self.trace, "; register ");
                    crate::op::push_val(&mut self.trace, a);
                    push_ascii(&mut self.trace, " = 0x");
                    push_hex4(&mut self.trace, target);
                    self.trace.push(10);
                    proof {
                        assert(self.trace@ =~= old(self).trace@ + trace_call_line(a, target));
                    }
                }
                proof {
                    assert(self@ =~= spec_apply(old(self)@, op, next).1);
                }
                Status::Running
            },
            Op::Ret => {
                if self.stack.len() == 0 {
                    Status::Halted
                } else {
                    let v = self.stack.pop().unwrap();
                    self.pc = v;
                    proof {
                        assert(self@ =~= spec_apply(old(self)@, op, next).1);
                    }
                    Status::Running
                }
            },
            Op::Out(a) => {
                let v = self.read_val(a);
                self.output.push((v % 256) as u8);
                self.pc = next;
                proof {
                    assert(self@ =~= spec_apply(old(self)@, op, next).1);
                }
                Status::Running
            },
            Op::In(a) => {
                if self.script_pos < self.script.len() {
                    let c = self.script[self.script_pos];
                    self.write_reg(a, c as u16);
                    self.output.push(c);
                    self.script_pos = self.script_pos + 1;
                    self.pc = next;
                    proof {
                        assert(self@ =~= spec_apply(old(self)@, op, next).1);
                    }
                    Status::Running
                } else {
                    match self.pending {
                        Some(b) => {
                            self.pending = None;
                            self.input_log.push(b);
                            if self.log_ends_with_phrase() {
                                if self.trace_on {
                                    proof {
                                        reveal_strlit(";; USING TELEPORTER\n");
                                    }
                                    push_ascii(&mut self.trace, ";; USING TELEPORTER\n");
                                    proof {
                                        assert(self.trace@ =~= old(self).trace@
                                            + teleporter_trace_line());
                                    }
                                }
                                let tv = self.teleporter_value;
                                self.registers[7] = tv;
                                proof {
                                    assert(self@.regs =~= old(self)@.regs.update(
                                        7,
                                        old(self)@.teleporter_value,
                                    ));
                                }
                            }
                            self.write_reg(a, b as u16);
                            self.pc = next;
                            proof {
                                let s = old(self)@;
                                let log1 = s.input_log + seq![b];
                                assert(self@.input_log =~= log1);
                                let s1 = MachineView { pending: None, input_log: log1, ..s };
                                let s2 = if ends_with_phrase(log1) {
                                    MachineView {
                                        regs: s1.regs.update(7, s1.teleporter_value),
                                        trace: if s1.trace_on {
                                            s1.trace + teleporter_trace_line()
                                        } else {
                                            s1.trace
                                        },
                                        ..s1
                                    }
                                } else {
                                    s1
                                };
                                assert(self@.regs =~= reg_write(s2, a, b as u16).regs);
                                assert(self@ =~= spec_apply(old(self)@, op, next).1);
                            }
                            Status::Running
                        },
                        None => Status::NeedInput,
                    }
                }
            },
            Op::Noop => {
                self.pc = next;
                proof {
                    assert(self@ =~= spec_apply(old(self)@, op, next).1);
                }
                Status::Running
            },
        }
    }

    /// One fetch-execute step, exactly [`spec_step`].
    pub fn step(&mut self) -> (st: Status)
        ensures
            st == spec_step(old(self)@).0,
            final(self)@ == spec_step(old(self)@).1,
    {
        let a = self.pc as usize;
        let w0 = self.fetch(a);
        let w1 = self.fetch(a + 1);
        let w2 = self.fetch(a + 2);
        let w3 = self.fetch(a + 3);
        let window: Vec<u16> = vec![w0, w1, w2, w3];
        proof {
            assert(window@ =~= fetch_window(self@.mem, self@.pc as int));
        }
        let op = match Op::decode(window.as_slice()) {
            Err(e) => {
                return Status::Fault(e);
            },
            Ok(op) => op,
        };
        proof {
            crate::op::lemma_encode_decode(window@, op);
        }
        if self.trace_on {
            crate::op::push_op(&mut self.trace, &op);
            self.trace.push(10);
        }
        let next = (((self.pc as u32) + 1 + (op.arg_count() as u32)) % 65536) as u16;
        proof {
            assert(self@ =~= (MachineView {
                trace: if old(self)@.trace_on {
                    old(self)@.trace + spec_render_op(op) + seq![10u8]
                } else {
                    old(self)@.trace
                },
                ..old(self)@
            }));
        }
        self.apply_op(op, next)
    }

    /// Up to `max_steps` fetch-execute steps, exactly [`spec_run`]:
    /// stops early on anything but [`Status::Running`].
    pub fn run(&mut self, max_steps: u64) -> (st: Status)
        ensures
            st == spec_run(old(self)@, max_steps as nat).0,
            final(self)@ == spec_run(old(self)@, max_steps as nat).1,
    {
        let mut i: u64 = 0;
        loop
            invariant
                i <= max_steps,
                spec_run(old(self)@, max_steps as nat) == spec_run(self@, (max_steps - i) as nat),
            decreases max_steps - i,
        {
            if i == max_steps {
                return Status::Running;
            }
            let st = self.step();
            i = i + 1;
            if !matches!(st, Status::Running) {
                return st;
            }
        }
    }

    /// Whether the interactive input so far ends in the teleporter phrase.
    fn log_ends_with_phrase(&self) -> (b: bool)
        ensures
            b == ends_with_phrase(self@.input_log),
    {
        proof {
            reveal_strlit("use teleporter\n");
        }
        let phrase = "use teleporter\n".as_bytes();
        proof {
            vstd::string::is_ascii_spec_bytes("use teleporter\n");
            assert(phrase@ =~= teleporter_phrase());
        }
        if self.input_log.len() < phrase.len() {
            return false;
        }
        let start = self.input_log.len() - phrase.len();
        let mut k: usize = 0;
        while k < phrase.len()
            invariant
                k <= phrase.len(),
                phrase@ == teleporter_phrase(),
                phrase@.len() == 15,
                self@.input_log.len() >= 15,
                start == self@.input_log.len() - 15,
                start <= usize::MAX - 15,
                forall|j: int| 0 <= j < k ==> self@.input_log[start + j] == phrase@[j],
            decreases phrase.len() - k,
        {
            if self.input_log[start + k] != phrase[k] {
                proof {
                    let tail = self@.input_log.skip(start as int);
                    assert(tail[k as int] == self@.input_log[start + k]);
                }
                return false;
            }
            k = k + 1;
        }
        proof {
            assert(self@.input_log.skip(start as int) =~= teleporter_phrase());
        }
        true
    }
}

} // verus!
