//! End-to-end runs of small memory images.

use vm15::machine::{Machine, Status};

#[test]
fn add_then_out_emits_the_sum() {
    // add r0, r1, 4 ; out r0 ; halt
    let mut m = Machine::new(vec![9, 32768, 32769, 4, 19, 32768, 0]);
    let st = m.run(1000);
    assert_eq!(st, Status::Halted);
    assert_eq!(m.reg(0), 4);
    assert_eq!(m.take_output(), vec![0x04u8]);
}

#[test]
fn set_then_out_emits_h() {
    // set r0, 72 ; out r0 ; halt
    let mut m = Machine::new(vec![1, 32768, 72, 19, 32768, 0]);
    let st = m.run(1000);
    assert_eq!(st, Status::Halted);
    assert_eq!(m.take_output(), b"H".to_vec());
}

#[test]
fn call_out_ret_emits_a_and_halts() {
    // call 5 ; (word 2 is 0: halt on return) ; out r0 ; ret
    let mut m = Machine::new(vec![17, 5, 0, 0, 0, 19, 32768, 18]);
    m.set_register(0, 65);
    let st = m.run(1000);
    assert_eq!(st, Status::Halted);
    assert_eq!(m.take_output(), b"A".to_vec());
    assert_eq!(m.pc(), 2);
}

#[test]
fn push_push_pop_pop_restores_in_reverse() {
    // push 1 ; push 2 ; pop r0 ; pop r1 ; halt
    let mut m = Machine::new(vec![2, 1, 2, 2, 3, 32768, 3, 32769, 0]);
    let st = m.run(1000);
    assert_eq!(st, Status::Halted);
    assert_eq!(m.reg(0), 2);
    assert_eq!(m.reg(1), 1);
    assert_eq!(m.stack_len(), 0);
}

#[test]
fn call_pushes_pc_plus_two_and_ret_pops_it() {
    // call 4 ; halt (at 2) ; ret (at 4)
    let mut m = Machine::new(vec![17, 4, 0, 0, 18]);
    let st = m.step();
    assert_eq!(st, Status::Running);
    assert_eq!(m.pc(), 4);
    assert_eq!(m.stack_len(), 1);
    let st = m.step();
    assert_eq!(st, Status::Running);
    assert_eq!(m.pc(), 2);
    assert_eq!(m.stack_len(), 0);
    let st = m.step();
    assert_eq!(st, Status::Halted);
}

#[test]
fn a_counted_loop_runs_to_completion() {
    // set r0, 3 ; loop: jf r0, 14 ; out 42 ; add r0, r0, 32767 ; jmp loop ; halt
    // adding 32767 decrements modulo 32768
    let mut m = Machine::new(vec![
        1, 32768, 3, 8, 32768, 14, 19, 42, 9, 32768, 32768, 32767, 6, 3, 0,
    ]);
    let st = m.run(1000);
    assert_eq!(st, Status::Halted);
    assert_eq!(m.take_output(), b"***".to_vec());
    assert_eq!(m.reg(0), 0);
}

#[test]
fn ret_on_empty_stack_halts() {
    let mut m = Machine::new(vec![18]);
    let st = m.run(10);
    assert_eq!(st, Status::Halted);
}

#[test]
fn out_of_steps_reports_running() {
    // jmp 0: an endless loop
    let mut m = Machine::new(vec![6, 0]);
    let st = m.run(10000);
    assert_eq!(st, Status::Running);
    assert_eq!(m.pc(), 0);
}
