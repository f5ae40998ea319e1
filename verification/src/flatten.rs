//! Concatenation of the loadable segments' file-backed bytes into one
//! contiguous image, with zero padding so each segment starts on its
//! required alignment boundary, and the derived sector count.

use vstd::prelude::*;

use crate::cursor::ProgramHeader;
use crate::cursor::entry_err;
use crate::cursor::entry_ok;
use crate::cursor::entry_record;
use crate::cursor::records_spec;
use crate::header::ELF32Parser;
use crate::header::ElfError;
use crate::header::parse_header_spec;

verus! {

/// The segment-type value that marks a loadable segment.
pub const PT_LOAD: u32 = 1;

/// Zero bytes appended before a segment so that an image of length `len`
/// grows to a multiple of `alignment`; `0` and `1` both mean no constraint.
pub open spec fn pad_of(len: int, alignment: u32) -> int {
    if alignment > 1 && len % (alignment as int) != 0 {
        alignment as int - len % (alignment as int)
    } else {
        0
    }
}

/// `n` zero bytes.
pub open spec fn zero_seq(n: int) -> Seq<u8> {
    Seq::new(n as nat, |i: int| 0u8)
}

/// The flattened image of `recs` over the buffer `b`: the records are
/// visited in order, non-loadable ones contribute nothing, and each
/// loadable one appends alignment padding followed by its file-backed
/// bytes.
pub open spec fn flatten_spec(b: Seq<u8>, recs: Seq<ProgramHeader>) -> Seq<u8>
    decreases recs.len(),
{
    if recs.len() == 0 {
        Seq::<u8>::empty()
    } else {
        let prefix = flatten_spec(b, recs.drop_last());
        let rec = recs.last();
        if rec.header_type != PT_LOAD {
            prefix
        } else {
            prefix + zero_seq(pad_of(prefix.len() as int, rec.alignment)) + rec.file_bytes_spec(b)
        }
    }
}

/// The subsequence of loadable records, in order.
pub open spec fn loadable_only(recs: Seq<ProgramHeader>) -> Seq<ProgramHeader>
    decreases recs.len(),
{
    if recs.len() == 0 {
        Seq::<ProgramHeader>::empty()
    } else if recs.last().header_type == PT_LOAD {
        loadable_only(recs.drop_last()).push(recs.last())
    } else {
        loadable_only(recs.drop_last())
    }
}

/// A longer prefix of the table never flattens to a shorter image: the
/// image only ever grows as records are consumed.
pub proof fn lemma_flatten_take_len_monotone(b: Seq<u8>, recs: Seq<ProgramHeader>, j: int, k: int)
    requires
        0 <= j <= k <= recs.len(),
    ensures
        flatten_spec(b, recs.take(j)).len() <= flatten_spec(b, recs.take(k)).len(),
    decreases k - j,
{
    if j < k {
        lemma_flatten_take_len_monotone(b, recs, j, k - 1);
        assert(recs.take(k).drop_last() =~= recs.take(k - 1));
        assert(flatten_spec(b, recs.take(k - 1)).len() <= flatten_spec(b, recs.take(k)).len());
    }
}

/// Flattens `records` over `bytes`: in table order, every loadable record
/// appends its alignment padding and then its file-backed bytes verbatim;
/// other records are skipped. An empty table yields an empty image. The
/// only failure is arithmetic overflow of the accumulated length, which is
/// reported rather than wrapped.
pub fn flatten(bytes: &[u8], records: &Vec<ProgramHeader>) -> (r: Result<Vec<u8>, ElfError>)
    requires
        forall|i: int| 0 <= i < records@.len() ==> (#[trigger] records@[i]).wf(bytes@),
    ensures
        r matches Ok(image) ==> image@ == flatten_spec(bytes@, records@) && flatten_spec(
            bytes@,
            records@,
        ).len() <= usize::MAX,
        r matches Err(e) ==> e == ElfError::ArithmeticOverflow && flatten_spec(
            bytes@,
            records@,
        ).len() > usize::MAX,
{
    let nb: usize = bytes.len();
    let n_rec: usize = records.len();
    let mut out: Vec<u8> = Vec::new();
    let mut k: usize = 0;
    while k < n_rec
        invariant
            n_rec == records@.len(),
            nb == bytes@.len(),
            forall|i: int| 0 <= i < records@.len() ==> (#[trigger] records@[i]).wf(bytes@),
            k <= n_rec,
            out@ == flatten_spec(bytes@, records@.take(k as int)),
            out@.len() <= usize::MAX,
        decreases n_rec - k,
    {
        let rec = records[k];
        proof {
            assert(records@.take(k as int + 1).drop_last() =~= records@.take(k as int));
            assert(records@.take(k as int + 1).last() == records@[k as int]);
        }
        if rec.header_type == PT_LOAD {
            let cur_len: usize = out.len();
            let align_pad: usize = if rec.alignment > 1 {
                let a = rec.alignment as usize;
                let rem = cur_len % a;
                if rem != 0 {
                    a - rem
                } else {
                    0
                }
            } else {
                0
            };
            proof {
                assert(align_pad == pad_of(cur_len as int, rec.alignment));
                assert(flatten_spec(bytes@, records@.take(k as int + 1)) == out@ + zero_seq(
                    align_pad as int,
                ) + rec.file_bytes_spec(bytes@));
                assert(flatten_spec(bytes@, records@.take(k as int + 1)).len() == cur_len
                    + align_pad + rec.file_size);
                lemma_flatten_take_len_monotone(bytes@, records@, k as int + 1, n_rec as int);
                assert(records@.take(n_rec as int) =~= records@);
            }
            // The accumulated length must not wrap.
            let with_pad: usize = match cur_len.checked_add(align_pad) {
                Some(x) => x,
                None => {
                    return Err(ElfError::ArithmeticOverflow);
                },
            };
            let new_len: usize = match with_pad.checked_add(rec.file_size) {
                Some(x) => x,
                None => {
                    return Err(ElfError::ArithmeticOverflow);
                },
            };
            // Zero padding up to the alignment boundary.
            let ghost prefix = out@;
            let mut p: usize = 0;
            while p < align_pad
                invariant
                    p <= align_pad,
                    out@ == prefix + zero_seq(p as int),
                decreases align_pad - p,
            {
                out.push(0u8);
                p = p + 1;
                proof {
                    assert(out@ =~= prefix + zero_seq(p as int));
                }
            }
            // The segment's file-backed bytes, verbatim.
            let ghost mid = out@;
            let fo: usize = rec.file_offset;
            let fs: usize = rec.file_size;
            let mut j: usize = 0;
            while j < fs
                invariant
                    j <= fs,
                    nb == bytes@.len(),
                    fo + fs <= nb,
                    out@ == mid + bytes@.subrange(fo as int, fo as int + j as int),
                decreases fs - j,
            {
                let byte: u8 = *vstd::slice::slice_index_get(bytes, fo + j);
                out.push(byte);
                j = j + 1;
                proof {
                    assert(out@ =~= mid + bytes@.subrange(fo as int, fo as int + j as int));
                }
            }
            proof {
                assert(out@ =~= flatten_spec(bytes@, records@.take(k as int + 1)));
                assert(out@.len() == new_len);
            }
        } else {
            proof {
                assert(out@ == flatten_spec(bytes@, records@.take(k as int + 1)));
            }
        }
        k = k + 1;
    }
    proof {
        assert(records@.take(n_rec as int) =~= records@);
    }
    Ok(out)
}

/// Non-loadable records contribute nothing wherever they stand in the
/// table: the image of a record sequence equals the image of its loadable
/// records alone.
pub proof fn lemma_flatten_skips_nonloadable(b: Seq<u8>, recs: Seq<ProgramHeader>)
    ensures
        flatten_spec(b, recs) == flatten_spec(b, loadable_only(recs)),
    decreases recs.len(),
{
    if recs.len() > 0 {
        lemma_flatten_skips_nonloadable(b, recs.drop_last());
        if recs.last().header_type == PT_LOAD {
            let f = loadable_only(recs.drop_last()).push(recs.last());
            assert(f.drop_last() =~= loadable_only(recs.drop_last()));
            assert(f.last() == recs.last());
        }
    }
}

/// Flattening is deterministic and idempotent: the image is a function of
/// the buffer and the record sequence alone, so repeated flattenings of
/// the same input are byte-identical.
pub proof fn lemma_flatten_deterministic(
    b: Seq<u8>,
    recs: Seq<ProgramHeader>,
    out1: Seq<u8>,
    out2: Seq<u8>,
)
    requires
        out1 == flatten_spec(b, recs),
        out2 == flatten_spec(b, recs),
    ensures
        out1 == out2,
{
}

/// Flattening is order-preserving and alignment-correct: consuming record
/// `i` appends to the image of the records before it, so segments appear
/// in table order; and when record `i` is loadable with an alignment
/// constraint, its bytes begin exactly at the next multiple of its
/// alignment.
pub proof fn lemma_flatten_alignment(b: Seq<u8>, recs: Seq<ProgramHeader>, i: int)
    requires
        0 <= i < recs.len(),
        recs[i].header_type == PT_LOAD,
        recs[i].alignment > 1,
    ensures
        ({
            let before = flatten_spec(b, recs.take(i));
            let pad = pad_of(before.len() as int, recs[i].alignment);
            &&& (before.len() + pad) % (recs[i].alignment as int) == 0
            &&& flatten_spec(b, recs.take(i + 1)) == before + zero_seq(pad) + recs[
                i
            ].file_bytes_spec(b)
        }),
{
    let before = flatten_spec(b, recs.take(i));
    let a = recs[i].alignment as int;
    let l = before.len() as int;
    assert(recs.take(i + 1).drop_last() =~= recs.take(i));
    assert(recs.take(i + 1).last() == recs[i]);
    if l % a != 0 {
        vstd::arithmetic::div_mod::lemma_fundamental_div_mod(l, a);
        let q = l / a;
        assert(l == a * q + l % a);
        assert((q + 1) * a == a * q + a) by (nonlinear_arith);
        assert(l + (a - l % a) == (q + 1) * a + 0);
        vstd::arithmetic::div_mod::lemma_fundamental_div_mod_converse_mod(
            l + (a - l % a),
            a,
            q + 1,
            0,
        );
    }
}

/// The flattened image of the whole file `b`: what flattening the decoded
/// program-header table of a valid buffer yields.
pub open spec fn flatten_elf_spec(b: Seq<u8>) -> Seq<u8>
    recommends
        parse_header_spec(b) is Ok,
{
    let p = parse_header_spec(b)->Ok_0;
    flatten_spec(b, records_spec(b, p.ph_offset as int, p.ph_entry_size as int, p.ph_num as int))
}

/// Parses `bytes` as an ELF32 file, decodes its whole program-header
/// table, and flattens the loadable segments into one image. Succeeds
/// exactly when the header validates, every table entry decodes, and the
/// image length does not overflow; each failure keeps its specific kind.
pub fn flatten_elf(bytes: &[u8]) -> (r: Result<Vec<u8>, ElfError>)
    ensures
        ({
            let hr = parse_header_spec(bytes@);
            match r {
                Ok(image) => hr matches Ok(p) && {
                    let off = p.ph_offset as int;
                    let entsize = p.ph_entry_size as int;
                    let n = p.ph_num as int;
                    &&& forall|i: int| 0 <= i < n ==> entry_ok(bytes@, off, entsize, i)
                    &&& image@ == flatten_elf_spec(bytes@)
                    &&& flatten_elf_spec(bytes@).len() <= usize::MAX
                },
                Err(e) => match hr {
                    Err(he) => e == he,
                    Ok(p) => {
                        let off = p.ph_offset as int;
                        let entsize = p.ph_entry_size as int;
                        let n = p.ph_num as int;
                        ||| exists|k: int|
                            0 <= k < n && !entry_ok(bytes@, off, entsize, k) && (forall|j: int|
                                0 <= j < k ==> entry_ok(bytes@, off, entsize, j)) && e == entry_err(
                                bytes@,
                                off,
                                entsize,
                                k,
                            )
                        ||| (forall|i: int| 0 <= i < n ==> entry_ok(bytes@, off, entsize, i))
                            && e == ElfError::ArithmeticOverflow && flatten_elf_spec(
                            bytes@,
                        ).len() > usize::MAX
                    },
                },
            }
        }),
{
    let parser = match ELF32Parser::new_from_bytes(bytes) {
        Ok(p) => p,
        Err(e) => {
            return Err(e);
        },
    };
    let records = match parser.collect_records(bytes) {
        Ok(v) => v,
        Err(e) => {
            return Err(e);
        },
    };
    proof {
        let off = parser.ph_offset as int;
        let entsize = parser.ph_entry_size as int;
        let n = parser.ph_num as int;
        assert forall|i: int| 0 <= i < records@.len() implies (#[trigger] records@[i]).wf(
            bytes@,
        ) by {
            assert(records@[i] == entry_record(bytes@, off, entsize, i));
            assert(entry_ok(bytes@, off, entsize, i));
        }
    }
    flatten(bytes, &records)
}

/// The number of 512-byte sectors an image of `len` bytes occupies,
/// rounded up.
pub open spec fn sectors_of(len: int) -> int {
    (len + 511) / 512
}

/// Returns how many 512-byte sectors an image of `image_len` bytes
/// occupies: the length divided by 512, rounded up.
pub fn sector_count(image_len: usize) -> (r: usize)
    ensures
        r == sectors_of(image_len as int),
{
    let d: usize = image_len / 512;
    let m: usize = image_len % 512;
    if m != 0 {
        d + 1
    } else {
        d
    }
}

/// The sector count is the ceiling of the length over 512: it covers the
/// whole image, the last sector is not wasted, and a length that is an
/// exact multiple of 512 needs exactly that many sectors, not one more.
pub proof fn lemma_sectors_ceil(len: int)
    requires
        len >= 0,
    ensures
        512 * sectors_of(len) >= len,
        len > 0 ==> 512 * (sectors_of(len) - 1) < len,
        len % 512 == 0 ==> sectors_of(len) == len / 512,
{
}

} // verus!
