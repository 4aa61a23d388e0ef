//! Annotations for the disassembler: a mapping from address to comments
//! and labels, read from a small INI-style text.
//!
//! The text has `[comments]` and `[labels]` section headers; a line of the
//! form `0x<hex> = "<text>"` adds an entry to the current section's
//! bucket. Blank lines and lines without ` = ` are ignored. An entry line
//! before any section header, or one whose address does not parse, is a
//! parse error.

use vstd::prelude::*;
use vstd::string::StringSliceAdditionalSpecFns;

use crate::fmt::lit_bytes;

verus! {

/// What kind of annotation an entry is.
#[derive(Clone, Copy, Debug, PartialEq, Eq, Structural)]
pub enum AnnKind {
    /// Printed beside the instruction at its address.
    Comment,
    /// Printed as a `name:` line before the instruction at its address.
    Label,
}

/// Why an annotations text does not parse.
#[derive(Clone, Copy, Debug, PartialEq, Eq, Structural)]
pub enum AnnotationsError {
    /// An entry line whose address is not hexadecimal or too large.
    BadAddress,
    /// An entry line before the first section header.
    OutsideSection,
}

/// The section an entry line falls under.
#[derive(Clone, Copy, Debug, PartialEq, Eq, Structural)]
pub enum Section {
    Unknown,
    Comments,
    Labels,
}

/// One annotation: an address, a kind, and the annotation text.
#[derive(Debug)]
pub struct Annotation {
    pub addr: u16,
    pub kind: AnnKind,
    pub text: Vec<u8>,
}

impl View for Annotation {
    type V = (u16, AnnKind, Seq<u8>);

    open spec fn view(&self) -> (u16, AnnKind, Seq<u8>) {
        (self.addr, self.kind, self.text@)
    }
}

/// All annotations of one file, in file order.
#[derive(Debug)]
pub struct Annotations {
    pub entries: Vec<Annotation>,
}

impl View for Annotations {
    type V = Seq<(u16, AnnKind, Seq<u8>)>;

    open spec fn view(&self) -> Seq<(u16, AnnKind, Seq<u8>)> {
        self.entries@.map_values(|a: Annotation| a@)
    }
}

impl Annotations {
    /// No annotations at all.
    pub fn new() -> (r: Annotations)
        ensures
            r@ == Seq::<(u16, AnnKind, Seq<u8>)>::empty(),
    {
        let r = Annotations { entries: Vec::new() };
        proof {
            assert(r@ =~= Seq::<(u16, AnnKind, Seq<u8>)>::empty());
        }
        r
    }
}

/// The position of the first newline at or after `i`, or the text's
/// length when there is none.
pub open spec fn first_nl(b: Seq<u8>, i: int) -> int
    decreases b.len() - i,
{
    if i < 0 || i >= b.len() {
        b.len() as int
    } else if b[i] == 10 {
        i
    } else {
        first_nl(b, i + 1)
    }
}

/// The first newline lies between `i` and the end.
pub proof fn lemma_first_nl_bounds(b: Seq<u8>, i: int)
    requires
        0 <= i <= b.len(),
    ensures
        i <= first_nl(b, i) <= b.len(),
    decreases b.len() - i,
{
    if i < b.len() && b[i] != 10 {
        lemma_first_nl_bounds(b, i + 1);
    }
}

/// A line with its trailing carriage return, if any, removed.
pub open spec fn strip_cr(s: Seq<u8>) -> Seq<u8> {
    if s.len() > 0 && s.last() == 13 {
        s.drop_last()
    } else {
        s
    }
}

/// The position of the first ` = ` separator at or after `k`, if any.
pub open spec fn first_sep(s: Seq<u8>, k: int) -> Option<int>
    decreases s.len() - k,
{
    if k < 0 || k + 3 > s.len() {
        None
    } else if s[k] == 32 && s[k + 1] == 61 && s[k + 2] == 32 {
        Some(k)
    } else {
        first_sep(s, k + 1)
    }
}

/// The value of a hexadecimal digit, or -1.
pub open spec fn hex_digit_value(c: u8) -> int {
    if 48 <= c <= 57 {
        c - 48
    } else if 97 <= c <= 102 {
        c - 87
    } else if 65 <= c <= 70 {
        c - 55
    } else {
        -1
    }
}

/// Whether every byte is a hexadecimal digit.
pub open spec fn all_hex(s: Seq<u8>) -> bool {
    forall|k: int| 0 <= k < s.len() ==> hex_digit_value(s[k]) >= 0
}

/// The number a hexadecimal numeral denotes, most significant digit
/// first.
pub open spec fn hex_value(s: Seq<u8>) -> int
    decreases s.len(),
{
    if s.len() == 0 {
        0
    } else {
        hex_value(s.drop_last()) * 16 + hex_digit_value(s.last())
    }
}

/// A numeral with one `0x` prefix, if present, removed.
pub open spec fn strip_0x(s: Seq<u8>) -> Seq<u8> {
    if s.len() >= 2 && s[0] == 48 && s[1] == 120 {
        s.skip(2)
    } else {
        s
    }
}

/// The address an entry line's left side denotes: an optional `0x`
/// prefix, then hexadecimal digits, the value at most 65535.
pub open spec fn spec_parse_addr(s: Seq<u8>) -> Option<u16> {
    let t = strip_0x(s);
    if t.len() > 0 && all_hex(t) && hex_value(t) <= 0xFFFF {
        Some(hex_value(t) as u16)
    } else {
        None
    }
}

/// Parsing the lines from position `i` on, within section `sect`, with
/// the entries collected so far.
pub open spec fn parse_lines(
    b: Seq<u8>,
    i: int,
    sect: Section,
    acc: Seq<(u16, AnnKind, Seq<u8>)>,
) -> Result<Seq<(u16, AnnKind, Seq<u8>)>, AnnotationsError>
    decreases b.len() - i,
{
    if i < 0 || i >= b.len() {
        Ok(acc)
    } else {
        let j = first_nl(b, i);
        let nexti = if j < b.len() {
            j + 1
        } else {
            j
        };
        let line = strip_cr(b.subrange(i, j));
        proof {
            lemma_first_nl_bounds(b, i);
        }
        if line == lit_bytes("[comments]"@) {
            parse_lines(b, nexti, Section::Comments, acc)
        } else if line == lit_bytes("[labels]"@) {
            parse_lines(b, nexti, Section::Labels, acc)
        } else {
            match first_sep(line, 0) {
                None => parse_lines(b, nexti, sect, acc),
                Some(k) => {
                    let left = line.take(k);
                    let right = line.skip(k + 3);
                    match spec_parse_addr(left) {
                        None => Err(AnnotationsError::BadAddress),
                        Some(addr) => {
                            if right.len() >= 2 && right[0] == 34 && right.last() == 34 {
                                let text = right.subrange(1, right.len() - 1);
                                match sect {
                                    Section::Comments => parse_lines(
                                        b,
                                        nexti,
                                        sect,
                                        acc.push((addr, AnnKind::Comment, text)),
                                    ),
                                    Section::Labels => parse_lines(
                                        b,
                                        nexti,
                                        sect,
                                        acc.push((addr, AnnKind::Label, text)),
                                    ),
                                    Section::Unknown => Err(AnnotationsError::OutsideSection),
                                }
                            } else {
                                parse_lines(b, nexti, sect, acc)
                            }
                        },
                    }
                },
            }
        }
    }
}

/// What an annotations text parses to.
pub open spec fn spec_parse_annotations(b: Seq<u8>) -> Result<
    Seq<(u16, AnnKind, Seq<u8>)>,
    AnnotationsError,
> {
    parse_lines(b, 0, Section::Unknown, seq![])
}

/// A hexadecimal numeral denotes a nonnegative number.
proof fn lemma_hex_value_nonneg(s: Seq<u8>)
    requires
        all_hex(s),
    ensures
        hex_value(s) >= 0,
    decreases s.len(),
{
    if s.len() > 0 {
        assert(all_hex(s.drop_last()));
        lemma_hex_value_nonneg(s.drop_last());
    }
}

/// A hexadecimal numeral never shrinks when digits are appended.
proof fn lemma_hex_value_mono(s: Seq<u8>, k: int)
    requires
        0 <= k <= s.len(),
        all_hex(s),
    ensures
        hex_value(s) >= hex_value(s.take(k)),
    decreases s.len() - k,
{
    assert(all_hex(s.take(k)));
    lemma_hex_value_nonneg(s.take(k));
    if k == s.len() {
        assert(s.take(k) =~= s);
    } else {
        assert(s.take(k + 1).drop_last() =~= s.take(k));
        assert(hex_value(s.take(k + 1)) == hex_value(s.take(k)) * 16 + hex_digit_value(
            s.take(k + 1).last(),
        ));
        assert(hex_digit_value(s[k]) >= 0);
        lemma_hex_value_mono(s, k + 1);
    }
}

/// The value of one hexadecimal digit, or `None`.
fn hex_digit(c: u8) -> (r: Option<u8>)
    ensures
        match r {
            Some(d) => hex_digit_value(c) == d as int && d < 16,
            None => hex_digit_value(c) < 0,
        },
{
    if 48 <= c && c <= 57 {
        Some(c - 48)
    } else if 97 <= c && c <= 102 {
        Some(c - 87)
    } else if 65 <= c && c <= 70 {
        Some(c - 55)
    } else {
        None
    }
}

/// Parses an entry line's address.
#[verifier::loop_isolation(false)]
fn parse_addr(s: &[u8]) -> (r: Option<u16>)
    ensures
        r == spec_parse_addr(s@),
{
    let t: &[u8] = if s.len() >= 2 && s[0] == 48 && s[1] == 120 {
        &s[2..s.len()]
    } else {
        s
    };
    proof {
        assert(t@ =~= strip_0x(s@));
    }
    if t.len() == 0 {
        return None;
    }
    let mut acc: u32 = 0;
    let mut i: usize = 0;
    while i < t.len()
        invariant
            i <= t@.len(),
            acc <= 0xFFFF,
            acc as int == hex_value(t@.take(i as int)),
            forall|j: int| 0 <= j < i ==> hex_digit_value(t@[j]) >= 0,
        decreases t@.len() - i,
    {
        let d = match hex_digit(t[i]) {
            Some(d) => d,
            None => {
                proof {
                    assert(!all_hex(t@)) by {
                        assert(hex_digit_value(t@[i as int]) < 0);
                    }
                }
                return None;
            },
        };
        proof {
            assert(t@.take(i + 1).drop_last() =~= t@.take(i as int));
        }
        acc = acc * 16 + d as u32;
        i = i + 1;
        if acc > 0xFFFF {
            // Every remaining digit can only grow the value further, so
            // the numeral overflows whenever the rest is hexadecimal at
            // all; and when it is not, the line is rejected anyway.
            proof {
                if all_hex(t@) {
                    lemma_hex_value_mono(t@, i as int);
                }
            }
            return None;
        }
    }
    proof {
        assert(t@.take(i as int) =~= t@);
    }
    Some(acc as u16)
}

/// The position of the first ` = ` separator, if any.
fn find_sep(line: &[u8]) -> (r: Option<usize>)
    ensures
        match r {
            Some(k) => first_sep(line@, 0) == Some(k as int) && k + 3 <= line@.len(),
            None => first_sep(line@, 0) is None,
        },
{
    if line.len() < 3 {
        return None;
    }
    let mut k: usize = 0;
    while k <= line.len() - 3
        invariant
            line@.len() >= 3,
            k <= line@.len(),
            first_sep(line@, 0) == first_sep(line@, k as int),
        decreases line@.len() - k,
    {
        if line[k] == 32 && line[k + 1] == 61 && line[k + 2] == 32 {
            return Some(k);
        }
        k = k + 1;
    }
    None
}

/// Parses an annotations text: section headers choose the bucket, entry
/// lines add to it, everything else is ignored.
#[verifier::loop_isolation(false)]
pub fn parse_annotations(bytes: &[u8]) -> (r: Result<Annotations, AnnotationsError>)
    ensures
        match r {
            Ok(a) => spec_parse_annotations(bytes@) == Ok::<_, AnnotationsError>(a@),
            Err(e) => spec_parse_annotations(bytes@) == Err::<Seq<(u16, AnnKind, Seq<u8>)>, _>(e),
        },
{
    proof {
        reveal_strlit("[comments]");
        reveal_strlit("[labels]");
        vstd::string::is_ascii_spec_bytes("[comments]");
        vstd::string::is_ascii_spec_bytes("[labels]");
        assert("[comments]".spec_bytes() =~= lit_bytes("[comments]"@));
        assert("[labels]".spec_bytes() =~= lit_bytes("[labels]"@));
    }
    let ghost b = bytes@;
    let mut i: usize = 0;
    let mut sect = Section::Unknown;
    let mut entries: Vec<Annotation> = Vec::new();
    proof {
        assert(entries@.map_values(|a: Annotation| a@) =~= Seq::<(u16, AnnKind, Seq<u8>)>::empty());
    }
    while i < bytes.len()
        invariant
            i <= b.len(),
            b == bytes@,
            spec_parse_annotations(b) == parse_lines(
                b,
                i as int,
                sect,
                entries@.map_values(|a: Annotation| a@),
            ),
        decreases b.len() - i,
    {
        let ghost acc0 = entries@.map_values(|a: Annotation| a@);
        // Find the end of the line.
        let mut j: usize = i;
        while j < bytes.len() && bytes[j] != 10
            invariant
                i <= j <= b.len(),
                b == bytes@,
                first_nl(b, i as int) == first_nl(b, j as int),
            decreases b.len() - j,
        {
            j = j + 1;
        }
        proof {
            assert(first_nl(b, i as int) == j);
        }
        // Take the line, without its carriage return if it has one.
        let mut line: Vec<u8> = vstd::slice::slice_to_vec(&bytes[i..j]);
        if line.len() > 0 && line[line.len() - 1] == 13 {
            line.pop();
        }
        proof {
            assert(line@ =~= strip_cr(b.subrange(i as int, j as int)));
        }
        let nexti = if j < bytes.len() {
            j + 1
        } else {
            j
        };
        if crate::fmt::bytes_eq(line.as_slice(), "[comments]".as_bytes()) {
            proof {
                assert(line@ == lit_bytes("[comments]"@));
            }
            sect = Section::Comments;
        } else if crate::fmt::bytes_eq(line.as_slice(), "[labels]".as_bytes()) {
            proof {
                assert(line@ == lit_bytes("[labels]"@));
            }
            sect = Section::Labels;
        } else {
            proof {
                assert(line@ != lit_bytes("[comments]"@));
                assert(line@ != lit_bytes("[labels]"@));
            }
            match find_sep(line.as_slice()) {
                None => {
                },
                Some(k) => {
                    let left = &line.as_slice()[0..k];
                    proof {
                        assert(left@ =~= line@.take(k as int));
                    }
                    match parse_addr(left) {
                        None => {
                            return Err(AnnotationsError::BadAddress);
                        },
                        Some(addr) => {
                            let right = &line.as_slice()[k + 3..line.len()];
                            proof {
                                assert(right@ =~= line@.skip(k + 3));
                            }
                            if right.len() >= 2 && right[0] == 34 && right[right.len() - 1] == 34 {
                                let text = vstd::slice::slice_to_vec(
                                    &right[1..right.len() - 1],
                                );
                                proof {
                                    assert(text@ =~= line@.skip(k + 3).subrange(
                                        1,
                                        line@.skip(k + 3).len() - 1,
                                    ));
                                }
                                match sect {
                                    Section::Comments => {
                                        entries.push(
                                            Annotation { addr, kind: AnnKind::Comment, text },
                                        );
                                        proof {
                                            assert(entries@.map_values(|a: Annotation| a@)
                                                =~= acc0.push(
                                                (
                                                    addr,
                                                    AnnKind::Comment,
                                                    line@.skip(k + 3).subrange(
                                                        1,
                                                        line@.skip(k + 3).len() - 1,
                                                    ),
                                                ),
                                            ));
                                        }
                                    },
                                    Section::Labels => {
                                        entries.push(
                                            Annotation { addr, kind: AnnKind::Label, text },
                                        );
                                        proof {
                                            assert(entries@.map_values(|a: Annotation| a@)
                                                =~= acc0.push(
                                                (
                                                    addr,
                                                    AnnKind::Label,
                                                    line@.skip(k + 3).subrange(
                                                        1,
                                                        line@.skip(k + 3).len() - 1,
                                                    ),
                                                ),
                                            ));
                                        }
                                    },
                                    Section::Unknown => {
                                        return Err(AnnotationsError::OutsideSection);
                                    },
                                }
                            }
                        },
                    }
                },
            }
        }
        i = nexti;
    }
    proof {
        assert(parse_lines(b, i as int, sect, entries@.map_values(|a: Annotation| a@)) == Ok::<
            _,
            AnnotationsError,
        >(entries@.map_values(|a: Annotation| a@)));
    }
    Ok(Annotations { entries })
}

} // verus!
