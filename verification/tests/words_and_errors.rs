//! Word arithmetic, image loading, and error messages.

use vm15::error::Error;
use vm15::image::words_from_bytes;
use vm15::word::{add_words, mul_words, MASK, MOD};

#[test]
fn word_arithmetic_wraps_at_the_modulus() {
    assert_eq!(MOD, 32768);
    assert_eq!(MASK, 32767);
    assert_eq!(add_words(32767, 1), 0);
    assert_eq!(add_words(32758, 15), 5);
    assert_eq!(add_words(5, 0), 5);
    assert_eq!(mul_words(1000, 1000), (1000u32 * 1000 % 32768) as u16);
    assert_eq!(mul_words(123, 1), 123);
    assert_eq!(mul_words(32767, 0), 0);
    assert_eq!(mul_words(32767, 32767), (32767u32 * 32767 % 32768) as u16);
}

#[test]
fn rom_bytes_decode_little_endian() {
    assert_eq!(words_from_bytes(&[]), Vec::<u16>::new());
    assert_eq!(words_from_bytes(&[0x48, 0x00]), vec![0x48]);
    assert_eq!(words_from_bytes(&[0x01, 0x80, 0xFF, 0x7F]), vec![0x8001, 0x7FFF]);
    // a trailing odd byte is ignored
    assert_eq!(words_from_bytes(&[9, 0, 5]), vec![9]);
}

#[test]
fn error_messages_name_the_failure() {
    assert_eq!(Error::Halted.message(), b"Halted".to_vec());
    assert_eq!(
        Error::PoppedEmptyStack.message(),
        b"Popped from empty stack".to_vec()
    );
    assert_eq!(Error::ParseReg.message(), b"Failed to parse register".to_vec());
    assert_eq!(
        Error::ParseRegFromU8.message(),
        b"Failed to parse register from u8".to_vec()
    );
    assert_eq!(
        Error::ParseVal(40000).message(),
        b"Failed to parse value from 40000".to_vec()
    );
    assert_eq!(
        Error::ParseVal(0).message(),
        b"Failed to parse value from 0".to_vec()
    );
    assert_eq!(
        Error::ParseOp(9999).message(),
        b"Failed to parse op from 9999".to_vec()
    );
    assert_eq!(Error::DivisionByZero.message(), b"Division by zero".to_vec());
}
