//! A lazy, forward-only walk over the program-header table: one decoded,
//! bounds-checked record per step, with end-of-table and decode failure
//! kept apart so a caller can tell a clean finish from a corrupt file.

use vstd::prelude::*;

use crate::header::ELF32Parser;
use crate::header::ElfError;
use crate::le::le32_at;
use crate::le::read_u32;

verus! {

/// Offset of the 32-bit segment-type field within a table entry.
pub const P_TYPE: usize = 0x00;

/// Offset of the 32-bit file-offset field within a table entry.
pub const P_OFFSET: usize = 0x04;

/// Offset of the 32-bit virtual-address field within a table entry.
pub const P_VADDR: usize = 0x08;

/// Offset of the 32-bit physical-address field within a table entry.
pub const P_PADDR: usize = 0x0C;

/// Offset of the 32-bit file-size field within a table entry.
pub const P_FILESZ: usize = 0x10;

/// Offset of the 32-bit memory-size field within a table entry.
pub const P_MEMSZ: usize = 0x14;

/// Offset of the 32-bit flags field within a table entry.
pub const P_FLAGS: usize = 0x18;

/// Offset of the 32-bit alignment field within a table entry.
pub const P_ALIGN: usize = 0x1C;

/// One past the last byte the eight fixed fields of a table entry occupy;
/// an entry shorter than this cannot contain them.
pub const PH_ENTRY_FIELDS_END: usize = 0x20;

/// One decoded program-header record. The segment's file-backed bytes are
/// not copied: the record carries the offset and length of the range
/// `[file_offset, file_offset + file_size)` of the source buffer, checked
/// to lie fully inside the buffer at construction.
#[derive(Clone, Copy, Debug, PartialEq, Eq, Structural)]
pub struct ProgramHeader {
    /// Segment type; only the value `1` marks a loadable segment.
    pub header_type: u32,
    /// Byte offset of the segment's file-backed bytes in the source buffer.
    pub file_offset: usize,
    /// Length of the segment's file-backed bytes (may be smaller than
    /// `mem_size`).
    pub file_size: usize,
    /// Virtual address where the segment should be loaded.
    pub v_addr: u32,
    /// Physical address where the segment should be loaded.
    pub p_addr: u32,
    /// Size the segment occupies once loaded.
    pub mem_size: u32,
    /// Segment flags, passed through undecoded.
    pub flags: u32,
    /// Required alignment of the segment's start; `0` and `1` both mean no
    /// alignment constraint.
    pub alignment: u32,
}

impl ProgramHeader {
    /// The record's file range lies inside a buffer of the given contents.
    pub open spec fn wf(self, b: Seq<u8>) -> bool {
        self.file_offset + self.file_size <= b.len()
    }

    /// The segment's file-backed bytes, as a view into the source buffer.
    pub open spec fn file_bytes_spec(self, b: Seq<u8>) -> Seq<u8>
        recommends
            self.wf(b),
    {
        b.subrange(self.file_offset as int, self.file_offset + self.file_size)
    }

    /// Returns the segment's file-backed bytes of `bytes`, the range
    /// `[file_offset, file_offset + file_size)`.
    pub fn file_bytes<'a>(&self, bytes: &'a [u8]) -> (r: &'a [u8])
        requires
            self.wf(bytes@),
        ensures
            r@ == self.file_bytes_spec(bytes@),
    {
        // Binding the length shows the verifier that the buffer, and with
        // it the end of the file range, fits in a usize.
        let _n: usize = bytes.len();
        vstd::slice::slice_subrange(bytes, self.file_offset, self.file_offset + self.file_size)
    }
}

/// Start of table entry `i`: the table offset plus `i` strides.
pub open spec fn entry_start(off: int, entsize: int, i: int) -> int {
    off + i * entsize
}

/// Entry `i` is large enough to contain its eight fixed fields and lies
/// fully inside the buffer from its computed start.
pub open spec fn entry_in_bounds(b: Seq<u8>, off: int, entsize: int, i: int) -> bool {
    &&& entsize >= PH_ENTRY_FIELDS_END
    &&& entry_start(off, entsize, i) + entsize <= b.len()
}

/// The file range declared by entry `i` lies inside the buffer.
pub open spec fn seg_range_ok(b: Seq<u8>, off: int, entsize: int, i: int) -> bool
    recommends
        entry_in_bounds(b, off, entsize, i),
{
    let s = entry_start(off, entsize, i);
    le32_at(b, s + P_OFFSET) + le32_at(b, s + P_FILESZ) <= b.len()
}

/// Entry `i` decodes to a record: it is in bounds and its file range is.
pub open spec fn entry_ok(b: Seq<u8>, off: int, entsize: int, i: int) -> bool {
    entry_in_bounds(b, off, entsize, i) && seg_range_ok(b, off, entsize, i)
}

/// The failure kind entry `i` is rejected with.
pub open spec fn entry_err(b: Seq<u8>, off: int, entsize: int, i: int) -> ElfError
    recommends
        !entry_ok(b, off, entsize, i),
{
    if !entry_in_bounds(b, off, entsize, i) {
        ElfError::TruncatedProgramHeaderTable
    } else {
        ElfError::TruncatedSegmentData
    }
}

/// The record entry `i` decodes to: every field read little-endian from
/// its fixed sub-offset within the entry.
pub open spec fn entry_record(b: Seq<u8>, off: int, entsize: int, i: int) -> ProgramHeader
    recommends
        entry_ok(b, off, entsize, i),
{
    let s = entry_start(off, entsize, i);
    ProgramHeader {
        header_type: le32_at(b, s + P_TYPE),
        file_offset: le32_at(b, s + P_OFFSET) as usize,
        file_size: le32_at(b, s + P_FILESZ) as usize,
        v_addr: le32_at(b, s + P_VADDR),
        p_addr: le32_at(b, s + P_PADDR),
        mem_size: le32_at(b, s + P_MEMSZ),
        flags: le32_at(b, s + P_FLAGS),
        alignment: le32_at(b, s + P_ALIGN),
    }
}

/// The record of entry `i` carries exactly the byte range its raw entry
/// declares: the file bytes are `b[file_offset .. file_offset + file_size)`
/// with both fields read little-endian from the entry bytes at
/// `off + i * entsize`, so a record's view can be recomputed from the raw
/// table alone.
pub proof fn lemma_record_file_bytes(b: Seq<u8>, off: int, entsize: int, i: int)
    requires
        entry_ok(b, off, entsize, i),
    ensures
        ({
            let s = entry_start(off, entsize, i);
            let rec = entry_record(b, off, entsize, i);
            &&& rec.wf(b)
            &&& rec.file_offset == le32_at(b, s + P_OFFSET)
            &&& rec.file_size == le32_at(b, s + P_FILESZ)
            &&& rec.file_bytes_spec(b) == b.subrange(
                le32_at(b, s + P_OFFSET) as int,
                le32_at(b, s + P_OFFSET) + le32_at(b, s + P_FILESZ),
            )
        }),
{
}

/// What one step of the cursor at entry `i` yields: the decoded record, or
/// the failure kind that names what is truncated.
pub open spec fn entry_outcome(b: Seq<u8>, off: int, entsize: int, i: int) -> Result<
    ProgramHeader,
    ElfError,
> {
    if !entry_ok(b, off, entsize, i) {
        Err(entry_err(b, off, entsize, i))
    } else {
        Ok(entry_record(b, off, entsize, i))
    }
}

/// The first `n` table entries, decoded in ascending table order.
pub open spec fn records_spec(b: Seq<u8>, off: int, entsize: int, n: int) -> Seq<ProgramHeader> {
    Seq::new(n as nat, |i: int| entry_record(b, off, entsize, i))
}

/// A cursor over the program-header table: yields the record of entry
/// `cur` and advances, in ascending table order, until `end` entries have
/// been produced. It is forward-only; a fresh cursor re-traverses.
#[derive(Clone, Copy, Debug, PartialEq, Eq, Structural)]
pub struct ProgramHeaderIterator {
    /// Byte offset of the program-header table within the file.
    pub ph_offset: usize,
    /// Stride between entry starts.
    pub ph_entry_size: u16,
    /// Index of the entry the next step will decode.
    pub cur: usize,
    /// One past the last entry index.
    pub end: usize,
}

/// The fresh cursor over `p`'s program-header table.
pub open spec fn iter_spec(p: ELF32Parser) -> ProgramHeaderIterator {
    ProgramHeaderIterator {
        ph_offset: p.ph_offset,
        ph_entry_size: p.ph_entry_size,
        cur: 0,
        end: p.ph_num as usize,
    }
}

impl ELF32Parser {
    /// Returns a fresh cursor positioned at the first table entry.
    pub fn program_headers(&self) -> (r: ProgramHeaderIterator)
        ensures
            r == iter_spec(*self),
    {
        ProgramHeaderIterator {
            ph_offset: self.ph_offset,
            ph_entry_size: self.ph_entry_size,
            cur: 0,
            end: self.ph_num as usize,
        }
    }

    /// Decodes the whole program-header table of `bytes` in ascending table
    /// order. Returns every record when each entry is well-formed, and
    /// otherwise the failure kind of the first corrupt entry — every entry
    /// before it decoded cleanly.
    pub fn collect_records(&self, bytes: &[u8]) -> (r: Result<Vec<ProgramHeader>, ElfError>)
        ensures
            ({
                let off = self.ph_offset as int;
                let entsize = self.ph_entry_size as int;
                let n = self.ph_num as int;
                match r {
                    Ok(v) => v@ == records_spec(bytes@, off, entsize, n) && (forall|i: int|
                        0 <= i < n ==> entry_ok(bytes@, off, entsize, i)),
                    Err(e) => exists|k: int|
                        0 <= k < n && !entry_ok(bytes@, off, entsize, k) && (forall|j: int|
                            0 <= j < k ==> entry_ok(bytes@, off, entsize, j)) && e == entry_err(
                            bytes@,
                            off,
                            entsize,
                            k,
                        ),
                }
            }),
    {
        let ghost off = self.ph_offset as int;
        let ghost entsize = self.ph_entry_size as int;
        let ghost n = self.ph_num as int;
        let mut it = self.program_headers();
        let mut records: Vec<ProgramHeader> = Vec::new();
        while it.cur < it.end
            invariant
                it.ph_offset == self.ph_offset,
                it.ph_entry_size == self.ph_entry_size,
                it.end == self.ph_num as usize,
                it.cur <= it.end,
                off == self.ph_offset as int,
                entsize == self.ph_entry_size as int,
                n == self.ph_num as int,
                records@.len() == it.cur,
                forall|i: int| 0 <= i < it.cur ==> entry_ok(bytes@, off, entsize, i),
                forall|i: int|
                    0 <= i < it.cur ==> records@[i] == entry_record(bytes@, off, entsize, i),
            decreases it.end - it.cur,
        {
            let ghost k = it.cur as int;
            match it.next(bytes) {
                Ok(Some(rec)) => {
                    records.push(rec);
                },
                Ok(None) => {
                    proof {
                        assert(false);
                    }
                },
                Err(e) => {
                    proof {
                        assert(!entry_ok(bytes@, off, entsize, k) && (forall|j: int|
                            0 <= j < k ==> entry_ok(bytes@, off, entsize, j)) && e == entry_err(
                            bytes@,
                            off,
                            entsize,
                            k,
                        ));
                    }
                    return Err(e);
                },
            }
        }
        proof {
            assert(records@ =~= records_spec(bytes@, off, entsize, n));
        }
        Ok(records)
    }
}

impl ProgramHeaderIterator {
    /// Decodes the next table entry of `bytes`. Returns `Ok(None)` once all
    /// entries have been produced, `Ok(Some(record))` for a well-formed
    /// entry, and the specific failure kind for a corrupt one — a decode
    /// failure is never conflated with the natural end of the table. On
    /// failure the cursor does not advance, so the error is terminal.
    pub fn next(&mut self, bytes: &[u8]) -> (r: Result<Option<ProgramHeader>, ElfError>)
        ensures
            final(self).ph_offset == old(self).ph_offset,
            final(self).ph_entry_size == old(self).ph_entry_size,
            final(self).end == old(self).end,
            old(self).cur >= old(self).end ==> r == Ok::<Option<ProgramHeader>, ElfError>(None)
                && final(self).cur == old(self).cur,
            old(self).cur < old(self).end ==> ({
                let off = old(self).ph_offset as int;
                let entsize = old(self).ph_entry_size as int;
                let i = old(self).cur as int;
                match entry_outcome(bytes@, off, entsize, i) {
                    Ok(rec) => r == Ok::<Option<ProgramHeader>, ElfError>(Some(rec))
                        && final(self).cur == old(self).cur + 1,
                    Err(e) => r == Err::<Option<ProgramHeader>, ElfError>(e) && final(self).cur
                        == old(self).cur,
                }
            }),
    {
        let n: usize = bytes.len();
        if self.cur >= self.end {
            return Ok(None);
        }
        // The eight fixed fields must fit within the entry.
        if (self.ph_entry_size as usize) < PH_ENTRY_FIELDS_END {
            return Err(ElfError::TruncatedProgramHeaderTable);
        }
        let entry_size = self.ph_entry_size as usize;
        // The entry must fit within the buffer from its computed start; a
        // start that does not even fit in the address space is past the
        // buffer end a fortiori.
        let start = match self.cur.checked_mul(entry_size) {
            Some(scaled) => match scaled.checked_add(self.ph_offset) {
                Some(s) => s,
                None => {
                    return Err(ElfError::TruncatedProgramHeaderTable);
                },
            },
            None => {
                return Err(ElfError::TruncatedProgramHeaderTable);
            },
        };
        if start > n || entry_size > n - start {
            return Err(ElfError::TruncatedProgramHeaderTable);
        }
        let header_type = read_u32(bytes, start + P_TYPE);
        let file_offset = read_u32(bytes, start + P_OFFSET) as usize;
        let v_addr = read_u32(bytes, start + P_VADDR);
        let p_addr = read_u32(bytes, start + P_PADDR);
        let file_size = read_u32(bytes, start + P_FILESZ) as usize;
        let mem_size = read_u32(bytes, start + P_MEMSZ);
        let flags = read_u32(bytes, start + P_FLAGS);
        let alignment = read_u32(bytes, start + P_ALIGN);
        // The segment's file range must lie inside the buffer.
        let seg_end = match file_offset.checked_add(file_size) {
            Some(e) => e,
            None => {
                return Err(ElfError::TruncatedSegmentData);
            },
        };
        if seg_end > n {
            return Err(ElfError::TruncatedSegmentData);
        }
        self.cur = self.cur + 1;
        Ok(
            Some(
                ProgramHeader {
                    header_type,
                    file_offset,
                    file_size,
                    v_addr,
                    p_addr,
                    mem_size,
                    flags,
                    alignment,
                },
            ),
        )
    }
}

} // verus!
