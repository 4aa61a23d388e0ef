//! The machine's input pipeline, trace, watches, memory and faults.

use vm15::error::Error;
use vm15::machine::{Machine, Status};

// in r0 ; out r0 ; halt
fn echo_once_rom() -> Vec<u16> {
    vec![20, 32768, 19, 32768, 0]
}

#[test]
fn script_bytes_feed_in_and_echo() {
    let mut m = Machine::new(echo_once_rom());
    m.set_script(b"x");
    let st = m.run(1000);
    assert_eq!(st, Status::Halted);
    assert_eq!(m.reg(0), b'x' as u16);
    // the script byte is echoed, then `out` prints it again
    assert_eq!(m.output(), &b"xx".to_vec());
    assert_eq!(m.take_output(), b"xx".to_vec());
    assert_eq!(m.output(), &Vec::<u8>::new());
}

#[test]
fn comment_lines_are_dropped_from_scripts() {
    // in r0 ; out r0 ; jmp 0 -- an echo loop
    let mut m = Machine::new(vec![20, 32768, 19, 32768, 6, 0]);
    m.set_script(b"// skip me\nab");
    m.run(6);
    assert_eq!(m.take_output(), b"aabb".to_vec());
}

#[test]
fn exhausted_script_asks_for_input() {
    let mut m = Machine::new(echo_once_rom());
    let st = m.run(1000);
    assert_eq!(st, Status::NeedInput);
    assert_eq!(m.pc(), 0);
    m.provide_input(b'Q');
    let st = m.run(1000);
    assert_eq!(st, Status::Halted);
    assert_eq!(m.reg(0), b'Q' as u16);
    // interactive input is not echoed; only `out` writes
    assert_eq!(m.take_output(), b"Q".to_vec());
}

#[test]
fn teleporter_phrase_sets_register_seven() {
    // sixteen `in r0` in a row, then halt
    let mut rom = Vec::new();
    for _ in 0..16 {
        rom.push(20);
        rom.push(32768);
    }
    rom.push(0);
    let mut m = Machine::new(rom);
    m.set_teleporter_value(25734);
    for b in b"use teleporter\n" {
        assert_eq!(m.run(1000), Status::NeedInput);
        m.provide_input(*b);
    }
    assert_eq!(m.run(1000), Status::NeedInput);
    assert_eq!(m.reg(7), 25734);
    assert_eq!(m.reg(0), b'\n' as u16);
}

#[test]
fn near_miss_phrase_leaves_register_seven() {
    let mut rom = Vec::new();
    for _ in 0..16 {
        rom.push(20);
        rom.push(32768);
    }
    rom.push(0);
    let mut m = Machine::new(rom);
    m.set_teleporter_value(25734);
    for b in b"use teleporteR\n" {
        assert_eq!(m.run(1000), Status::NeedInput);
        m.provide_input(*b);
    }
    assert_eq!(m.run(1000), Status::NeedInput);
    assert_eq!(m.reg(7), 0);
}

#[test]
fn trace_logs_instructions_and_register_writes() {
    // set r0, 72 ; halt
    let mut m = Machine::new(vec![1, 32768, 72, 0]);
    m.enable_trace();
    assert_eq!(m.run(10), Status::Halted);
    let trace = String::from_utf8(m.trace().clone()).unwrap();
    assert_eq!(trace, "set \tr0,\t0x0048\n; set r0 = 72\nhalt\n");
}

#[test]
fn trace_logs_register_call_targets() {
    // set r1, 5 ; call r1 ; halt
    let mut m = Machine::new(vec![1, 32769, 5, 17, 32769, 0]);
    m.enable_trace();
    assert_eq!(m.run(10), Status::Halted);
    let trace = String::from_utf8(m.trace().clone()).unwrap();
    assert!(trace.contains("call\tr1\n; register r1 = 0x0005\n"));
}

#[test]
fn watches_print_reads_and_writes() {
    // wmem 100, 7 ; rmem r0, 100 ; halt
    let mut m = Machine::new(vec![16, 100, 7, 15, 32768, 100, 0]);
    m.watch(100, "spot");
    assert_eq!(m.run(10), Status::Halted);
    assert_eq!(m.reg(0), 7);
    let out = String::from_utf8(m.take_output()).unwrap();
    assert_eq!(
        out,
        "DEBUG: write spot addr 100 = 7\nDEBUG: read spot addr 100 = 7\n"
    );
}

#[test]
fn wmem_grows_memory_and_rmem_reads_it_back() {
    // wmem 9000, 123 ; rmem r2, 9000 ; halt  (the image is 7 words long)
    let mut m = Machine::new(vec![16, 9000, 123, 15, 32770, 9000, 0]);
    assert_eq!(m.run(10), Status::Halted);
    assert_eq!(m.reg(2), 123);
    assert_eq!(m.mem_at(9000), 123);
    // the gap grew in, zero-filled
    assert_eq!(m.mem_at(8999), 0);
}

#[test]
fn rmem_past_the_image_reads_zero() {
    // rmem r0, 30000 ; halt
    let mut m = Machine::new(vec![15, 32768, 30000, 0]);
    assert_eq!(m.run(10), Status::Halted);
    assert_eq!(m.reg(0), 0);
}

#[test]
fn pop_on_empty_stack_is_fatal() {
    let mut m = Machine::new(vec![3, 32768, 0]);
    assert_eq!(m.run(10), Status::Fault(Error::PoppedEmptyStack));
    assert_eq!(m.pc(), 0);
}

#[test]
fn mod_by_zero_is_fatal() {
    // mod r0, 5, 0
    let mut m = Machine::new(vec![11, 32768, 5, 0, 0]);
    assert_eq!(m.run(10), Status::Fault(Error::DivisionByZero));
}

#[test]
fn bad_opcode_is_fatal_at_its_address() {
    // noop ; 9999
    let mut m = Machine::new(vec![21, 9999]);
    assert_eq!(m.run(10), Status::Fault(Error::ParseOp(9999)));
    assert_eq!(m.pc(), 1);
}

#[test]
fn literal_in_destination_slot_is_fatal() {
    // set 5, 1 -- the destination must be a register
    let mut m = Machine::new(vec![1, 5, 1, 0]);
    assert_eq!(m.run(10), Status::Fault(Error::ParseReg));
}

#[test]
fn arithmetic_and_comparisons() {
    // add r0, 32758, 15 ; mult r1, 1000, 1000 ; eq r2, r0, 5 ; gt r3, 2, 1 ;
    // and r4, 12, 10 ; or r5, 12, 10 ; not r6, 0 ; mod r7, 17, 5 ; halt
    let mut m = Machine::new(vec![
        9, 32768, 32758, 15, 10, 32769, 1000, 1000, 4, 32770, 32768, 5, 5, 32771, 2, 1, 12,
        32772, 12, 10, 13, 32773, 12, 10, 14, 32774, 0, 11, 32775, 17, 5, 0,
    ]);
    assert_eq!(m.run(100), Status::Halted);
    assert_eq!(m.reg(0), (32758 + 15) % 32768);
    assert_eq!(m.reg(1), ((1000u32 * 1000) % 32768) as u16);
    assert_eq!(m.reg(2), 1);
    assert_eq!(m.reg(3), 1);
    assert_eq!(m.reg(4), 12 & 10);
    assert_eq!(m.reg(5), 12 | 10);
    assert_eq!(m.reg(6), 0x7FFF);
    assert_eq!(m.reg(7), 17 % 5);
}

#[test]
fn jumps_taken_and_not_taken() {
    // jt 0, 100 ; jf 0, 5 ; halt(at 5 via jf) -- then jmp and jt nonzero
    let mut m = Machine::new(vec![7, 0, 100, 8, 0, 6, 0, 21, 0, 0]);
    // jt 0,100: not taken; jf 0,6: taken to 6; jmp... word at 6 is 0: halt
    assert_eq!(m.run(10), Status::Halted);
    assert_eq!(m.pc(), 6);
    let mut m2 = Machine::new(vec![7, 1, 4, 0, 0]);
    assert_eq!(m2.run(10), Status::Halted);
    assert_eq!(m2.pc(), 4);
}

#[test]
fn out_emits_the_low_byte() {
    // out 0x1FF ; halt -- 0x1FF has low byte 0xFF
    let mut m = Machine::new(vec![19, 511, 0]);
    assert_eq!(m.run(10), Status::Halted);
    assert_eq!(m.take_output(), vec![0xFFu8]);
}
