//! Header validation: the exact entry point and table shape are recovered
//! from a well-formed buffer, and each truncation or corruption is
//! rejected with its specific failure kind.

use elf_parser::ELF32Parser;
use elf_parser::ElfError;

fn put_u16(buf: &mut Vec<u8>, off: usize, v: u16) {
    let b = v.to_le_bytes();
    buf[off] = b[0];
    buf[off + 1] = b[1];
}

fn put_u32(buf: &mut Vec<u8>, off: usize, v: u32) {
    let b = v.to_le_bytes();
    for i in 0..4 {
        buf[off + i] = b[i];
    }
}

/// A buffer of `total_len` zero bytes with a valid ELF32 little-endian
/// header carrying the given entry point and table shape.
fn make_header(
    entry: u32,
    ph_offset: u32,
    ph_entry_size: u16,
    ph_num: u16,
    total_len: usize,
) -> Vec<u8> {
    let mut buf = vec![0u8; total_len];
    buf[0] = 127;
    buf[1] = 69;
    buf[2] = 76;
    buf[3] = 70;
    buf[4] = 1;
    buf[5] = 1;
    put_u32(&mut buf, 0x18, entry);
    put_u32(&mut buf, 0x1C, ph_offset);
    put_u16(&mut buf, 0x2A, ph_entry_size);
    put_u16(&mut buf, 0x2C, ph_num);
    buf
}

#[test]
fn parse_recovers_entry_and_count() {
    let buf = make_header(0x12345678, 0x40, 0x20, 3, 0x100);
    let parser = ELF32Parser::new_from_bytes(&buf).unwrap();
    assert_eq!(parser.entry, 0x12345678);
    assert_eq!(parser.ph_num, 3);
    assert_eq!(parser.ph_offset, 0x40);
    assert_eq!(parser.ph_entry_size, 0x20);
}

#[test]
fn parse_reads_fields_little_endian() {
    let buf = make_header(0x00010203, 0x0A0B0C0D, 0x1122, 0x3344, 0x40);
    assert_eq!(buf[0x18], 0x03);
    assert_eq!(buf[0x19], 0x02);
    assert_eq!(buf[0x1A], 0x01);
    assert_eq!(buf[0x1B], 0x00);
    let parser = ELF32Parser::new_from_bytes(&buf).unwrap();
    assert_eq!(parser.entry, 0x00010203);
    assert_eq!(parser.ph_offset, 0x0A0B0C0D);
    assert_eq!(parser.ph_entry_size, 0x1122);
    assert_eq!(parser.ph_num, 0x3344);
}

#[test]
fn bad_magic_is_rejected() {
    let mut buf = make_header(0, 0x40, 0x20, 0, 0x40);
    buf[1] = 0;
    assert_eq!(
        ELF32Parser::new_from_bytes(&buf),
        Err(ElfError::InvalidMagic)
    );
}

#[test]
fn wrong_class_is_rejected() {
    let mut buf = make_header(0, 0x40, 0x20, 0, 0x40);
    buf[4] = 2;
    assert_eq!(
        ELF32Parser::new_from_bytes(&buf),
        Err(ElfError::UnsupportedClass)
    );
}

#[test]
fn wrong_endianness_is_rejected() {
    let mut buf = make_header(0, 0x40, 0x20, 0, 0x40);
    buf[5] = 2;
    assert_eq!(
        ELF32Parser::new_from_bytes(&buf),
        Err(ElfError::UnsupportedEndianness)
    );
}

#[test]
fn empty_buffer_is_rejected() {
    let buf: Vec<u8> = Vec::new();
    assert_eq!(
        ELF32Parser::new_from_bytes(&buf),
        Err(ElfError::InvalidMagic)
    );
}

#[test]
fn every_truncation_fails_with_matching_kind() {
    let full = make_header(0x8000, 0x34, 0x20, 2, 0x2E);
    assert!(ELF32Parser::new_from_bytes(&full).is_ok());
    for len in 0..0x2E {
        let got = ELF32Parser::new_from_bytes(&full[..len]);
        let expected = if len < 4 {
            Err(ElfError::InvalidMagic)
        } else if len < 5 {
            Err(ElfError::UnsupportedClass)
        } else if len < 6 {
            Err(ElfError::UnsupportedEndianness)
        } else {
            Err(ElfError::TruncatedHeader)
        };
        assert_eq!(got, expected, "truncation to {} bytes", len);
    }
}
