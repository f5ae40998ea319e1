//! Validation of the fixed-layout ELF32 file header and extraction of the
//! entry point and the program-header-table location and shape.

use vstd::prelude::*;

use crate::le::le16_at;
use crate::le::le32_at;
use crate::le::read_u16;
use crate::le::read_u32;

verus! {

/// Every way a buffer can be rejected, one discriminated kind per
/// validation or bounds failure so that callers can tell them apart.
#[derive(Clone, Copy, Debug, PartialEq, Eq, Structural)]
pub enum ElfError {
    /// The first four bytes are not the ELF magic sequence.
    InvalidMagic,
    /// The file-class byte does not declare a 32-bit file.
    UnsupportedClass,
    /// The data-encoding byte does not declare little-endian data.
    UnsupportedEndianness,
    /// A fixed header field extends past the end of the buffer.
    TruncatedHeader,
    /// A program-header-table entry does not lie fully inside the buffer,
    /// or is too small to contain its fixed fields.
    TruncatedProgramHeaderTable,
    /// A segment's file range `[file_offset, file_offset + file_size)`
    /// extends past the end of the buffer.
    TruncatedSegmentData,
    /// Accumulating the flattened image would overflow the address space.
    ArithmeticOverflow,
}

/// Header offset of the 32-bit entry-point field.
pub const E_ENTRY: usize = 0x18;

/// Header offset of the 32-bit program-header-table offset field.
pub const E_PHOFF: usize = 0x1C;

/// Header offset of the 16-bit program-header-entry-size field.
pub const E_PHENTSIZE: usize = 0x2A;

/// Header offset of the 16-bit program-header-count field.
pub const E_PHNUM: usize = 0x2C;

/// One past the last byte any fixed header field occupies; a buffer at
/// least this long holds every field the parser reads.
pub const HEADER_FIELDS_END: usize = 0x2E;

/// The first four bytes equal the fixed ELF magic sequence.
pub open spec fn magic_ok(b: Seq<u8>) -> bool {
    b.len() >= 4 && b[0] == 127u8 && b[1] == 69u8 && b[2] == 76u8 && b[3] == 70u8
}

/// Byte 4, the file class, declares a 32-bit file.
pub open spec fn class_ok(b: Seq<u8>) -> bool {
    b.len() >= 5 && b[4] == 1u8
}

/// Byte 5, the data encoding, declares little-endian data.
pub open spec fn endian_ok(b: Seq<u8>) -> bool {
    b.len() >= 6 && b[5] == 1u8
}

/// A validated header: the entry point and the location and shape of the
/// program-header table. Cross-field consistency (such as the table lying
/// inside the file) is deliberately not checked here; it is checked lazily,
/// per entry, during iteration.
#[derive(Clone, Copy, Debug, PartialEq, Eq, Structural)]
pub struct ELF32Parser {
    /// Virtual address at which execution starts.
    pub entry: u32,
    /// Number of entries in the program-header table.
    pub ph_num: u16,
    /// Byte offset of the program-header table within the file.
    pub ph_offset: usize,
    /// Size in bytes of one program-header-table entry, kept opaque except
    /// as the stride used to locate each entry.
    pub ph_entry_size: u16,
}

/// What parsing a buffer returns: the validation sequence is magic, class,
/// endianness, then bounds of the fixed numeric fields, each with its own
/// failure kind; on success every field is decoded little-endian from its
/// fixed offset.
pub open spec fn parse_header_spec(b: Seq<u8>) -> Result<ELF32Parser, ElfError> {
    if !magic_ok(b) {
        Err(ElfError::InvalidMagic)
    } else if !class_ok(b) {
        Err(ElfError::UnsupportedClass)
    } else if !endian_ok(b) {
        Err(ElfError::UnsupportedEndianness)
    } else if b.len() < HEADER_FIELDS_END {
        Err(ElfError::TruncatedHeader)
    } else {
        Ok(ELF32Parser {
            entry: le32_at(b, E_ENTRY as int),
            ph_num: le16_at(b, E_PHNUM as int),
            ph_offset: le32_at(b, E_PHOFF as int) as usize,
            ph_entry_size: le16_at(b, E_PHENTSIZE as int),
        })
    }
}

impl ELF32Parser {
    /// Validates the fixed-layout header of `bytes` and returns the decoded
    /// entry point and program-header-table location and shape, or the
    /// specific failure kind for the first check that does not hold.
    pub fn new_from_bytes(bytes: &[u8]) -> (r: Result<ELF32Parser, ElfError>)
        ensures
            r == parse_header_spec(bytes@),
    {
        let n: usize = bytes.len();

        // Check the ELF signature.
        if n < 4
            || *vstd::slice::slice_index_get(bytes, 0) != 127
            || *vstd::slice::slice_index_get(bytes, 1) != 69
            || *vstd::slice::slice_index_get(bytes, 2) != 76
            || *vstd::slice::slice_index_get(bytes, 3) != 70 {
            return Err(ElfError::InvalidMagic);
        }

        // Ensure a 32-bit ELF file.
        if n < 5 || *vstd::slice::slice_index_get(bytes, 4) != 1 {
            return Err(ElfError::UnsupportedClass);
        }

        // Ensure little-endian data.
        if n < 6 || *vstd::slice::slice_index_get(bytes, 5) != 1 {
            return Err(ElfError::UnsupportedEndianness);
        }

        // Every fixed numeric field must lie inside the buffer.
        if n < HEADER_FIELDS_END {
            return Err(ElfError::TruncatedHeader);
        }

        Ok(ELF32Parser {
            entry: read_u32(bytes, E_ENTRY),
            ph_num: read_u16(bytes, E_PHNUM),
            ph_offset: read_u32(bytes, E_PHOFF) as usize,
            ph_entry_size: read_u16(bytes, E_PHENTSIZE),
        })
    }
}

} // verus!
