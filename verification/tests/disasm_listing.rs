//! The disassembler's listing: code, data transitions and annotations.

use vm15::annotations::{parse_annotations, AnnKind, Annotations, AnnotationsError};
use vm15::disasm::disassemble;

#[test]
fn a_plain_program_lists_one_line_per_instruction() {
    // set r0, 72 ; out r0 ; halt
    let mem: Vec<u16> = vec![1, 32768, 72, 19, 32768, 0];
    let out = disassemble(&mem, &Annotations::new());
    let text = String::from_utf8(out).unwrap();
    assert_eq!(
        text,
        "/* 0x0000 */ set \tr0,\t0x0048\n/* 0x0003 */ out \tr0\n/* 0x0005 */ halt\n"
    );
}

#[test]
fn undecodable_words_become_one_data_marker() {
    // 9999 is no opcode; decoding resumes at the noop
    let mem: Vec<u16> = vec![9999, 9999, 21, 0];
    let out = disassemble(&mem, &Annotations::new());
    let text = String::from_utf8(out).unwrap();
    assert!(text.contains("; binary data omitted"));
    // one marker only, then a blank separator before the code resumes
    assert_eq!(text.matches("; binary data omitted").count(), 1);
    assert_eq!(
        text,
        "; binary data omitted\n\n/* 0x0002 */ noop\n/* 0x0003 */ halt\n"
    );
}

#[test]
fn labels_and_comments_overlay_the_listing() {
    let ini = b"[labels]\n0x0000 = \"start\"\n[comments]\n0x0001 = \"stop here\"\n";
    let ann = parse_annotations(ini).unwrap();
    let mem: Vec<u16> = vec![21, 0];
    let text = String::from_utf8(disassemble(&mem, &ann)).unwrap();
    let mut halt_line = String::from("/* 0x0001 */ halt");
    while halt_line.len() < 40 {
        halt_line.push(' ');
    }
    let expected = format!("start:\n/* 0x0000 */ noop\n{}; stop here\n", halt_line);
    assert_eq!(text, expected);
}

#[test]
fn annotation_sections_sort_entries_by_kind() {
    let ini = b"[comments]\n0x0abd = \"entry point\"\n[labels]\n0x0abc = \"main\"\n";
    let ann = parse_annotations(ini).unwrap();
    assert_eq!(ann.entries.len(), 2);
    assert_eq!(ann.entries[0].addr, 0x0abd);
    assert_eq!(ann.entries[0].kind, AnnKind::Comment);
    assert_eq!(ann.entries[0].text, b"entry point".to_vec());
    assert_eq!(ann.entries[1].addr, 0x0abc);
    assert_eq!(ann.entries[1].kind, AnnKind::Label);
    assert_eq!(ann.entries[1].text, b"main".to_vec());
}

#[test]
fn annotation_parsing_ignores_chatter_and_rejects_bad_lines() {
    // blank lines and lines without the separator are ignored
    let ok = parse_annotations(b"[comments]\n\nnoise\n0xFF = \"x\"\n").unwrap();
    assert_eq!(ok.entries.len(), 1);
    assert_eq!(ok.entries[0].addr, 0xFF);
    // carriage returns are stripped
    let crlf = parse_annotations(b"[labels]\r\n0x10 = \"L\"\r\n").unwrap();
    assert_eq!(crlf.entries.len(), 1);
    assert_eq!(crlf.entries[0].addr, 0x10);
    assert_eq!(crlf.entries[0].text, b"L".to_vec());
    // an unquoted right side is ignored
    let unquoted = parse_annotations(b"[labels]\n0x10 = bare\n").unwrap();
    assert_eq!(unquoted.entries.len(), 0);
    // an entry before any section is an error
    assert!(matches!(
        parse_annotations(b"0x10 = \"L\"\n[labels]\n"),
        Err(AnnotationsError::OutsideSection)
    ));
    // a bad address is an error
    assert!(matches!(
        parse_annotations(b"[labels]\n0xZZ = \"L\"\n"),
        Err(AnnotationsError::BadAddress)
    ));
    // an address past the sixteen-bit range is an error
    assert!(matches!(
        parse_annotations(b"[labels]\n0x10000 = \"L\"\n"),
        Err(AnnotationsError::BadAddress)
    ));
}
