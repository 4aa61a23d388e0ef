//! Rendering of numbers as ASCII text.
//!
//! The machine's trace lines, error messages and the disassembler's listing
//! are byte strings; these helpers append decimal and hexadecimal numerals
//! to such a buffer.

use vstd::prelude::*;
use vstd::string::StringSliceAdditionalSpecFns;

verus! {

/// The bytes of an ASCII string, character by character.
pub open spec fn lit_bytes(s: Seq<char>) -> Seq<u8> {
    s.map_values(|c: char| c as u8)
}

/// Appends the bytes of an ASCII string to `out`.
pub fn push_ascii(out: &mut Vec<u8>, s: &str)
    requires
        vstd::string::is_ascii(s),
    ensures
        final(out)@ == old(out)@ + lit_bytes(s@),
{
    proof {
        vstd::string::is_ascii_spec_bytes(s);
        assert(s.spec_bytes() =~= lit_bytes(s@));
    }
    push_bytes(out, s.as_bytes());
}

/// The decimal numeral of `n`, most significant digit first, no sign and
/// no padding; `0` renders as `"0"`.
pub open spec fn dec_digits(n: nat) -> Seq<u8>
    decreases n,
{
    if n < 10 {
        seq![(48 + n) as u8]
    } else {
        dec_digits(n / 10) + seq![(48 + n % 10) as u8]
    }
}

/// One hexadecimal digit, lowercase.
pub open spec fn hex_digit(d: int) -> u8 {
    if d < 10 {
        (48 + d) as u8
    } else {
        (87 + d) as u8
    }
}

/// The four-digit lowercase hexadecimal numeral of `w`, zero-padded.
pub open spec fn hex4_digits(w: u16) -> Seq<u8> {
    seq![
        hex_digit(w as int / 4096),
        hex_digit((w as int / 256) % 16),
        hex_digit((w as int / 16) % 16),
        hex_digit(w as int % 16),
    ]
}

/// Appends the decimal numeral of `v` to `out`.
pub fn push_dec(out: &mut Vec<u8>, v: u16)
    ensures
        final(out)@ == old(out)@ + dec_digits(v as nat),
    decreases v,
{
    if v >= 10 {
        push_dec(out, v / 10);
    }
    out.push(48 + (v % 10) as u8);
    proof {
        assert(out@ =~= old(out)@ + dec_digits(v as nat));
    }
}

/// Appends the zero-padded four-digit hexadecimal numeral of `w` to `out`.
pub fn push_hex4(out: &mut Vec<u8>, w: u16)
    ensures
        final(out)@ == old(out)@ + hex4_digits(w),
{
    push_hex_digit(out, (w / 4096) as u8);
    push_hex_digit(out, ((w / 256) % 16) as u8);
    push_hex_digit(out, ((w / 16) % 16) as u8);
    push_hex_digit(out, (w % 16) as u8);
    proof {
        assert(out@ =~= old(out)@ + hex4_digits(w));
    }
}

/// Appends one hexadecimal digit.
fn push_hex_digit(out: &mut Vec<u8>, d: u8)
    requires
        d < 16,
    ensures
        final(out)@ == old(out)@ + seq![hex_digit(d as int)],
{
    if d < 10 {
        out.push(48 + d);
    } else {
        out.push(87 + d);
    }
    proof {
        assert(out@ =~= old(out)@ + seq![hex_digit(d as int)]);
    }
}

/// Whether two byte strings hold the same bytes.
pub fn bytes_eq(a: &[u8], b: &[u8]) -> (r: bool)
    ensures
        r == (a@ == b@),
{
    if a.len() != b.len() {
        return false;
    }
    let mut i: usize = 0;
    while i < a.len()
        invariant
            i <= a.len(),
            a@.len() == b@.len(),
            forall|j: int| 0 <= j < i ==> a@[j] == b@[j],
        decreases a.len() - i,
    {
        if a[i] != b[i] {
            return false;
        }
        i = i + 1;
    }
    proof {
        assert(a@ =~= b@);
    }
    true
}

/// Appends every byte of `s` to `out`.
pub fn push_bytes(out: &mut Vec<u8>, s: &[u8])
    ensures
        final(out)@ == old(out)@ + s@,
{
    let mut i: usize = 0;
    while i < s.len()
        invariant
            i <= s.len(),
            out@ == old(out)@ + s@.take(i as int),
        decreases s.len() - i,
    {
        out.push(s[i]);
        i = i + 1;
        proof {
            assert(out@ =~= old(out)@ + s@.take(i as int));
        }
    }
    proof {
        assert(out@ =~= old(out)@ + s@);
    }
}

} // verus!
