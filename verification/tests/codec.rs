//! Decoding, encoding and rendering of instructions and operands.

use vm15::error::Error;
use vm15::op::{Op, Reg, Val};

#[test]
fn operands_decode_by_range() {
    assert_eq!(Val::decode(0), Ok(Val::Literal(0)));
    assert_eq!(Val::decode(32767), Ok(Val::Literal(32767)));
    assert_eq!(Val::decode(32768), Ok(Val::Reg(Reg(0))));
    assert_eq!(Val::decode(32775), Ok(Val::Reg(Reg(7))));
    assert_eq!(Val::decode(32776), Err(Error::ParseVal(32776)));
    assert_eq!(Val::decode(65535), Err(Error::ParseVal(65535)));
}

#[test]
fn registers_decode_by_range() {
    assert_eq!(Reg::decode(32768), Ok(Reg(0)));
    assert_eq!(Reg::decode(32775), Ok(Reg(7)));
    assert_eq!(Reg::decode(32767), Err(Error::ParseReg));
    assert_eq!(Reg::decode(32776), Err(Error::ParseReg));
    assert_eq!(Reg::from_ordinal(7), Ok(Reg(7)));
    assert_eq!(Reg::from_ordinal(8), Err(Error::ParseRegFromU8));
    assert_eq!(Reg(3).index(), 3);
}

#[test]
fn operand_values_read_through_the_register_file() {
    let regs: [u16; 8] = [10, 11, 12, 13, 14, 15, 16, 17];
    assert_eq!(Val::Literal(500).val(&regs), 500);
    assert_eq!(Val::Reg(Reg(2)).val(&regs), 12);
    assert!(Val::Reg(Reg(0)).is_reg());
    assert!(!Val::Literal(0).is_reg());
}

#[test]
fn instructions_decode_with_their_arity() {
    let ops = [
        (vec![0u16, 0, 0, 0], Op::Halt, 0usize),
        (vec![1, 32768, 9, 0], Op::Assign(Reg(0), Val::Literal(9)), 2),
        (vec![2, 32769, 0, 0], Op::Push(Val::Reg(Reg(1))), 1),
        (vec![3, 32770, 0, 0], Op::Pop(Reg(2)), 1),
        (vec![4, 32768, 1, 2], Op::Eq(Reg(0), Val::Literal(1), Val::Literal(2)), 3),
        (vec![5, 32768, 1, 2], Op::Gt(Reg(0), Val::Literal(1), Val::Literal(2)), 3),
        (vec![6, 7, 0, 0], Op::Jmp(Val::Literal(7)), 1),
        (vec![7, 1, 2, 0], Op::Jt(Val::Literal(1), Val::Literal(2)), 2),
        (vec![8, 1, 2, 0], Op::Jf(Val::Literal(1), Val::Literal(2)), 2),
        (vec![9, 32768, 1, 2], Op::Add(Reg(0), Val::Literal(1), Val::Literal(2)), 3),
        (vec![10, 32768, 1, 2], Op::Mult(Reg(0), Val::Literal(1), Val::Literal(2)), 3),
        (vec![11, 32768, 1, 2], Op::Mod(Reg(0), Val::Literal(1), Val::Literal(2)), 3),
        (vec![12, 32768, 1, 2], Op::And(Reg(0), Val::Literal(1), Val::Literal(2)), 3),
        (vec![13, 32768, 1, 2], Op::Or(Reg(0), Val::Literal(1), Val::Literal(2)), 3),
        (vec![14, 32768, 1, 0], Op::Not(Reg(0), Val::Literal(1)), 2),
        (vec![15, 32768, 1, 0], Op::Rmem(Reg(0), Val::Literal(1)), 2),
        (vec![16, 1, 2, 0], Op::Wmem(Val::Literal(1), Val::Literal(2)), 2),
        (vec![17, 5, 0, 0], Op::Call(Val::Literal(5)), 1),
        (vec![18, 0, 0, 0], Op::Ret, 0),
        (vec![19, 65, 0, 0], Op::Out(Val::Literal(65)), 1),
        (vec![20, 32771, 0, 0], Op::In(Reg(3)), 1),
        (vec![21, 0, 0, 0], Op::Noop, 0),
    ];
    for (words, op, arity) in ops.iter() {
        let decoded = Op::decode(words.as_slice()).unwrap();
        assert_eq!(&decoded, op);
        assert_eq!(decoded.arg_count(), *arity);
    }
}

#[test]
fn decode_rejects_bad_words() {
    assert_eq!(Op::decode(&[22, 0, 0, 0]), Err(Error::ParseOp(22)));
    assert_eq!(Op::decode(&[9999, 0, 0, 0]), Err(Error::ParseOp(9999)));
    // a literal where a register must stand
    assert_eq!(Op::decode(&[1, 5, 1, 0]), Err(Error::ParseReg));
    // an operand word past every operand range
    assert_eq!(Op::decode(&[6, 40000, 0, 0]), Err(Error::ParseVal(40000)));
    // the first failing operand decides the error
    assert_eq!(Op::decode(&[4, 5, 40000, 0]), Err(Error::ParseReg));
}

#[test]
fn encode_inverts_decode() {
    let words: Vec<u16> = vec![9, 32768, 32769, 4];
    let op = Op::decode(words.as_slice()).unwrap();
    assert_eq!(op.encode(), words);
    let ops = [
        Op::Halt,
        Op::Assign(Reg(7), Val::Reg(Reg(0))),
        Op::Call(Val::Literal(123)),
        Op::Out(Val::Literal(72)),
        Op::Eq(Reg(1), Val::Literal(0), Val::Reg(Reg(7))),
    ];
    for op in ops.iter() {
        let mut enc = op.encode();
        enc.resize(4, 0);
        assert_eq!(&Op::decode(enc.as_slice()).unwrap(), op);
    }
}

#[test]
fn rendering_matches_the_listing_format() {
    assert_eq!(Op::Halt.render(), b"halt".to_vec());
    assert_eq!(Op::Noop.render(), b"noop".to_vec());
    assert_eq!(Op::Ret.render(), b"ret".to_vec());
    assert_eq!(
        Op::Add(Reg(0), Val::Literal(0x04a1), Val::Reg(Reg(7))).render(),
        b"add \tr0,\t0x04a1,\tr7".to_vec()
    );
    assert_eq!(
        Op::Assign(Reg(2), Val::Literal(9)).render(),
        b"set \tr2,\t0x0009".to_vec()
    );
    assert_eq!(Op::In(Reg(5)).render(), b"in  \tr5".to_vec());
    assert_eq!(Op::Jmp(Val::Literal(0x1234)).render(), b"jmp \t0x1234".to_vec());
}

#[test]
fn out_literals_carry_a_character_comment() {
    assert_eq!(
        Op::Out(Val::Literal(72)).render(),
        b"out \t0x0048\t; 'H'".to_vec()
    );
    assert_eq!(
        Op::Out(Val::Literal(10)).render(),
        b"out \t0x000a\t; '\\n'".to_vec()
    );
    assert_eq!(
        Op::Out(Val::Literal(39)).render(),
        b"out \t0x0027\t; '\\''".to_vec()
    );
    // an unprintable byte gets no comment
    assert_eq!(Op::Out(Val::Literal(1)).render(), b"out \t0x0001".to_vec());
    // a register operand gets no comment
    assert_eq!(Op::Out(Val::Reg(Reg(0))).render(), b"out \tr0".to_vec());
}
