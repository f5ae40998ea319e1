//! The program-header cursor: records come back in ascending table order
//! with bounds-checked views into the file, and a corrupt entry surfaces
//! as a specific terminal error, never as a silent end of the table.

use elf_parser::ELF32Parser;
use elf_parser::ElfError;

fn put_u16(buf: &mut Vec<u8>, off: usize, v: u16) {
    let b = v.to_le_bytes();
    buf[off] = b[0];
    buf[off + 1] = b[1];
}

fn put_u32(buf: &mut Vec<u8>, off: usize, v: u32) {
    let b = v.to_le_bytes();
    for i in 0..4 {
        buf[off + i] = b[i];
    }
}

/// A buffer of `total_len` zero bytes with a valid ELF32 header whose
/// program-header table of `ph_num` entries of `ph_entry_size` bytes
/// starts at `ph_offset`.
fn make_file(ph_offset: u32, ph_entry_size: u16, ph_num: u16, total_len: usize) -> Vec<u8> {
    let mut buf = vec![0u8; total_len];
    buf[0] = 127;
    buf[1] = 69;
    buf[2] = 76;
    buf[3] = 70;
    buf[4] = 1;
    buf[5] = 1;
    put_u32(&mut buf, 0x18, 0x8000);
    put_u32(&mut buf, 0x1C, ph_offset);
    put_u16(&mut buf, 0x2A, ph_entry_size);
    put_u16(&mut buf, 0x2C, ph_num);
    buf
}

/// Writes the eight fixed fields of one table entry at `start`.
#[allow(clippy::too_many_arguments)]
fn put_entry(
    buf: &mut Vec<u8>,
    start: usize,
    header_type: u32,
    file_offset: u32,
    v_addr: u32,
    p_addr: u32,
    file_size: u32,
    mem_size: u32,
    flags: u32,
    alignment: u32,
) {
    put_u32(buf, start, header_type);
    put_u32(buf, start + 0x04, file_offset);
    put_u32(buf, start + 0x08, v_addr);
    put_u32(buf, start + 0x0C, p_addr);
    put_u32(buf, start + 0x10, file_size);
    put_u32(buf, start + 0x14, mem_size);
    put_u32(buf, start + 0x18, flags);
    put_u32(buf, start + 0x1C, alignment);
}

#[test]
fn cursor_yields_records_in_table_order() {
    let mut buf = make_file(0x40, 0x20, 3, 0x300);
    put_entry(&mut buf, 0x40, 1, 0x100, 0x1000, 0x2000, 8, 16, 5, 0x1000);
    put_entry(&mut buf, 0x60, 0, 0x140, 0x1100, 0x2100, 4, 4, 6, 4);
    put_entry(&mut buf, 0x80, 1, 0x180, 0x1200, 0x2200, 2, 2, 7, 1);
    for i in 0..8usize {
        buf[0x100 + i] = 10 + i as u8;
    }
    buf[0x140] = 99;
    let parser = ELF32Parser::new_from_bytes(&buf).unwrap();
    let mut it = parser.program_headers();

    let rec0 = it.next(&buf).unwrap().unwrap();
    assert_eq!(rec0.header_type, 1);
    assert_eq!(rec0.file_offset, 0x100);
    assert_eq!(rec0.file_size, 8);
    assert_eq!(rec0.v_addr, 0x1000);
    assert_eq!(rec0.p_addr, 0x2000);
    assert_eq!(rec0.mem_size, 16);
    assert_eq!(rec0.flags, 5);
    assert_eq!(rec0.alignment, 0x1000);
    assert_eq!(rec0.file_bytes(&buf), &buf[0x100..0x108]);
    assert_eq!(rec0.file_bytes(&buf), &[10, 11, 12, 13, 14, 15, 16, 17]);

    let rec1 = it.next(&buf).unwrap().unwrap();
    assert_eq!(rec1.header_type, 0);
    assert_eq!(rec1.file_offset, 0x140);
    assert_eq!(rec1.file_bytes(&buf), &[99, 0, 0, 0]);

    let rec2 = it.next(&buf).unwrap().unwrap();
    assert_eq!(rec2.header_type, 1);
    assert_eq!(rec2.file_offset, 0x180);
    assert_eq!(rec2.file_size, 2);

    // Natural end of the table, distinguishable from any failure.
    assert_eq!(it.next(&buf), Ok(None));
    assert_eq!(it.next(&buf), Ok(None));
}

#[test]
fn collect_records_returns_whole_table() {
    let mut buf = make_file(0x40, 0x20, 2, 0x200);
    put_entry(&mut buf, 0x40, 1, 0x100, 0, 0, 4, 4, 0, 0);
    put_entry(&mut buf, 0x60, 2, 0x110, 0, 0, 8, 8, 0, 0);
    let parser = ELF32Parser::new_from_bytes(&buf).unwrap();
    let records = parser.collect_records(&buf).unwrap();
    assert_eq!(records.len(), 2);
    assert_eq!(records[0].file_offset, 0x100);
    assert_eq!(records[1].file_offset, 0x110);
    assert_eq!(records[1].header_type, 2);
}

#[test]
fn entry_stride_uses_declared_entry_size() {
    // Entries are 0x28 bytes apart even though only 0x20 bytes are decoded.
    let mut buf = make_file(0x40, 0x28, 2, 0x200);
    put_entry(&mut buf, 0x40, 1, 0x100, 0, 0, 1, 1, 0, 0);
    put_entry(&mut buf, 0x68, 1, 0x101, 0, 0, 1, 1, 0, 0);
    let parser = ELF32Parser::new_from_bytes(&buf).unwrap();
    let records = parser.collect_records(&buf).unwrap();
    assert_eq!(records[0].file_offset, 0x100);
    assert_eq!(records[1].file_offset, 0x101);
}

#[test]
fn corrupt_entry_yields_records_then_terminal_error() {
    let mut buf = make_file(0x40, 0x20, 3, 0x200);
    put_entry(&mut buf, 0x40, 1, 0x100, 0, 0, 4, 4, 0, 0);
    // Entry 1 declares a file range past the end of the buffer.
    put_entry(&mut buf, 0x60, 1, 0x1F0, 0, 0, 0x20, 0x20, 0, 0);
    put_entry(&mut buf, 0x80, 1, 0x100, 0, 0, 4, 4, 0, 0);
    let parser = ELF32Parser::new_from_bytes(&buf).unwrap();
    let mut it = parser.program_headers();
    assert!(it.next(&buf).unwrap().is_some());
    assert_eq!(it.next(&buf), Err(ElfError::TruncatedSegmentData));
    // The failure is terminal: the cursor does not advance past it.
    assert_eq!(it.next(&buf), Err(ElfError::TruncatedSegmentData));
    assert_eq!(
        parser.collect_records(&buf),
        Err(ElfError::TruncatedSegmentData)
    );
}

#[test]
fn table_past_buffer_end_is_truncated_table() {
    // The header promises more entries than the buffer holds.
    let mut buf = make_file(0x40, 0x20, 8, 0x80);
    put_entry(&mut buf, 0x40, 1, 0, 0, 0, 0, 0, 0, 0);
    let parser = ELF32Parser::new_from_bytes(&buf).unwrap();
    let mut it = parser.program_headers();
    assert!(it.next(&buf).unwrap().is_some());
    assert!(it.next(&buf).unwrap().is_some());
    assert_eq!(it.next(&buf), Err(ElfError::TruncatedProgramHeaderTable));
    assert_eq!(
        parser.collect_records(&buf),
        Err(ElfError::TruncatedProgramHeaderTable)
    );
}

#[test]
fn entry_too_small_for_fields_is_truncated_table() {
    let buf = make_file(0x40, 0x10, 1, 0x200);
    let parser = ELF32Parser::new_from_bytes(&buf).unwrap();
    let mut it = parser.program_headers();
    assert_eq!(it.next(&buf), Err(ElfError::TruncatedProgramHeaderTable));
}

#[test]
fn empty_table_yields_no_records() {
    let buf = make_file(0x40, 0x20, 0, 0x80);
    let parser = ELF32Parser::new_from_bytes(&buf).unwrap();
    let mut it = parser.program_headers();
    assert_eq!(it.next(&buf), Ok(None));
    let records = parser.collect_records(&buf).unwrap();
    assert!(records.is_empty());
}

#[test]
fn fresh_cursor_retraverses() {
    let mut buf = make_file(0x40, 0x20, 1, 0x200);
    put_entry(&mut buf, 0x40, 1, 0x100, 0, 0, 4, 4, 0, 0);
    let parser = ELF32Parser::new_from_bytes(&buf).unwrap();
    let mut it1 = parser.program_headers();
    assert!(it1.next(&buf).unwrap().is_some());
    assert_eq!(it1.next(&buf), Ok(None));
    let mut it2 = parser.program_headers();
    assert!(it2.next(&buf).unwrap().is_some());
}
