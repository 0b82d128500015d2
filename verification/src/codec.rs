//! The binary encoding of a chunk: its position as three signed 32-bit
//! words, the present sections in ascending index order — each an index
//! word and exactly 4096 packed cell words — and the two timestamps, all
//! little-endian.  Decoding reconstructs a clean chunk; any section not
//! present reads as all air.

use crate::chunk::{Chunk, ChunkModel};
use crate::pos::ChunkVector;
use crate::section::{count_non_air, lemma_count_push, ChunkSection};
use vstd::prelude::*;

verus! {

/// A failure to decode chunk bytes.
#[derive(Debug, Clone, Copy, PartialEq, Eq, Structural)]
pub enum CodecError {
    /// The data ends before the record does.
    Truncated,
    /// The section count exceeds the sixteen slots of a chunk.
    TooManySections,
    /// A section index is out of range or out of ascending order.
    BadSectionIndex,
    /// Bytes follow the end of the record.
    TrailingData,
}

/// The little-endian bytes of a 32-bit word.
pub open spec fn spec_le32(v: u32) -> Seq<u8> {
    seq![
        (v as int % 256) as u8,
        (v as int / 256 % 256) as u8,
        (v as int / 65536 % 256) as u8,
        (v as int / 16777216 % 256) as u8,
    ]
}

/// The little-endian bytes of a 64-bit word.
pub open spec fn spec_le64(v: u64) -> Seq<u8> {
    seq![
        (v as int % 256) as u8,
        (v as int / 256 % 256) as u8,
        (v as int / 0x1_0000 % 256) as u8,
        (v as int / 0x100_0000 % 256) as u8,
        (v as int / 0x1_0000_0000 % 256) as u8,
        (v as int / 0x100_0000_0000 % 256) as u8,
        (v as int / 0x1_0000_0000_0000 % 256) as u8,
        (v as int / 0x100_0000_0000_0000 % 256) as u8,
    ]
}

/// The unsigned word that stands for a signed 32-bit value.
pub open spec fn spec_word32(v: int) -> u32 {
    if v >= 0 {
        (v % 0x1_0000_0000) as u32
    } else {
        ((v + 0x1_0000_0000) % 0x1_0000_0000) as u32
    }
}

/// The bytes of a sequence of cell words.
pub open spec fn spec_cells_bytes(cells: Seq<u32>) -> Seq<u8>
    decreases cells.len(),
{
    if cells.len() == 0 {
        Seq::empty()
    } else {
        spec_cells_bytes(cells.drop_last()) + spec_le32(cells.last())
    }
}

/// The bytes of the present sections with index at least `lo`, in
/// ascending index order.
pub open spec fn spec_sections_bytes_from(secs: Seq<Option<Seq<u32>>>, lo: int) -> Seq<u8>
    decreases 16 - lo,
{
    if lo < 0 || lo >= 16 {
        Seq::empty()
    } else {
        (match secs[lo] {
            Some(cells) => spec_le32(spec_word32(lo)) + spec_cells_bytes(cells),
            None => Seq::empty(),
        }) + spec_sections_bytes_from(secs, lo + 1)
    }
}

/// The number of present sections with index at least `lo`.
pub open spec fn spec_section_count_from(secs: Seq<Option<Seq<u32>>>, lo: int) -> int
    decreases 16 - lo,
{
    if lo < 0 || lo >= 16 {
        0
    } else {
        (if secs[lo] is Some {
            1int
        } else {
            0int
        }) + spec_section_count_from(secs, lo + 1)
    }
}

/// The binary encoding of a chunk value.
pub open spec fn spec_encode(m: ChunkModel) -> Seq<u8> {
    spec_le32(spec_word32(m.position.x as int)) + spec_le32(spec_word32(m.position.y as int))
        + spec_le32(spec_word32(m.position.z as int)) + spec_le32(
        spec_section_count_from(m.sections, 0) as u32,
    ) + spec_sections_bytes_from(m.sections, 0) + spec_le64(m.last_modified) + spec_le64(
        m.created_at,
    )
}

/// Appends the little-endian bytes of a 32-bit word.
fn push_le32(out: &mut Vec<u8>, v: u32)
    ensures
        final(out)@ == old(out)@ + spec_le32(v),
{
    out.push((v % 256) as u8);
    out.push((v / 256 % 256) as u8);
    out.push((v / 65536 % 256) as u8);
    out.push((v / 16777216 % 256) as u8);
    proof {
        assert(out@ =~= old(out)@ + spec_le32(v));
    }
}

/// Appends the little-endian bytes of a 64-bit word.
fn push_le64(out: &mut Vec<u8>, v: u64)
    ensures
        final(out)@ == old(out)@ + spec_le64(v),
{
    out.push((v % 256) as u8);
    out.push((v / 256 % 256) as u8);
    out.push((v / 0x1_0000 % 256) as u8);
    out.push((v / 0x100_0000 % 256) as u8);
    out.push((v / 0x1_0000_0000 % 256) as u8);
    out.push((v / 0x100_0000_0000 % 256) as u8);
    out.push((v / 0x1_0000_0000_0000 % 256) as u8);
    out.push((v / 0x100_0000_0000_0000 % 256) as u8);
    proof {
        assert(out@ =~= old(out)@ + spec_le64(v));
    }
}

/// The unsigned word that stands for a signed 32-bit value.
fn to_word32(v: i32) -> (r: u32)
    ensures
        r == spec_word32(v as int),
{
    if v >= 0 {
        v as u32
    } else {
        0xFFFF_FFFFu32 - ((-(v + 1)) as u32)
    }
}

/// The signed 32-bit value that a word stands for.
fn from_word32(w: u32) -> (r: i32)
    ensures
        spec_word32(r as int) == w,
{
    if w <= 0x7FFF_FFFF {
        w as i32
    } else {
        -1 - ((0xFFFF_FFFFu32 - w) as i32)
    }
}

/// Reads a little-endian 32-bit word.
fn read_le32(data: &[u8], offset: usize) -> (r: u32)
    requires
        offset + 4 <= data@.len(),
    ensures
        spec_le32(r) == data@.subrange(offset as int, offset as int + 4),
{
    let b0 = data[offset] as u32;
    let b1 = data[offset + 1] as u32;
    let b2 = data[offset + 2] as u32;
    let b3 = data[offset + 3] as u32;
    let r = b0 + b1 * 256 + b2 * 65536 + b3 * 16777216;
    proof {
        assert(r as int % 256 == b0 && r as int / 256 % 256 == b1 && r as int / 65536 % 256 == b2
            && r as int / 16777216 % 256 == b3) by (nonlinear_arith)
            requires
                b0 < 256,
                b1 < 256,
                b2 < 256,
                b3 < 256,
                r == b0 + b1 * 256 + b2 * 65536 + b3 * 16777216,
        ;
        assert(spec_le32(r) =~= data@.subrange(offset as int, offset as int + 4));
    }
    r
}

/// Reads a little-endian 64-bit word.
fn read_le64(data: &[u8], offset: usize) -> (r: u64)
    requires
        offset + 8 <= data@.len(),
    ensures
        spec_le64(r) == data@.subrange(offset as int, offset as int + 8),
{
    let b0 = data[offset] as u64;
    let b1 = data[offset + 1] as u64;
    let b2 = data[offset + 2] as u64;
    let b3 = data[offset + 3] as u64;
    let b4 = data[offset + 4] as u64;
    let b5 = data[offset + 5] as u64;
    let b6 = data[offset + 6] as u64;
    let b7 = data[offset + 7] as u64;
    let r = b0 + b1 * 256 + b2 * 0x1_0000 + b3 * 0x100_0000 + b4 * 0x1_0000_0000 + b5
        * 0x100_0000_0000 + b6 * 0x1_0000_0000_0000 + b7 * 0x100_0000_0000_0000;
    proof {
        lemma_le64_digits(b0, b1, b2, b3, b4, b5, b6, b7, r);
        assert(spec_le64(r) =~= data@.subrange(offset as int, offset as int + 8));
    }
    r
}

/// The base-256 digits of an eight-byte word are recovered by division
/// and remainder.
proof fn lemma_le64_digits(
    b0: u64,
    b1: u64,
    b2: u64,
    b3: u64,
    b4: u64,
    b5: u64,
    b6: u64,
    b7: u64,
    r: u64,
)
    requires
        b0 < 256,
        b1 < 256,
        b2 < 256,
        b3 < 256,
        b4 < 256,
        b5 < 256,
        b6 < 256,
        b7 < 256,
        r == b0 + b1 * 256 + b2 * 0x1_0000 + b3 * 0x100_0000 + b4 * 0x1_0000_0000 + b5
            * 0x100_0000_0000 + b6 * 0x1_0000_0000_0000 + b7 * 0x100_0000_0000_0000,
    ensures
        r as int % 256 == b0,
        r as int / 256 % 256 == b1,
        r as int / 0x1_0000 % 256 == b2,
        r as int / 0x100_0000 % 256 == b3,
        r as int / 0x1_0000_0000 % 256 == b4,
        r as int / 0x100_0000_0000 % 256 == b5,
        r as int / 0x1_0000_0000_0000 % 256 == b6,
        r as int / 0x100_0000_0000_0000 % 256 == b7,
{
    let v = r as int;
    assert(v % 256 == b0 && v / 256 == b1 + b2 * 256 + b3 * 0x1_0000 + b4 * 0x100_0000 + b5
        * 0x1_0000_0000 + b6 * 0x100_0000_0000 + b7 * 0x1_0000_0000_0000) by (nonlinear_arith)
        requires
            b0 < 256,
            v == b0 + b1 * 256 + b2 * 0x1_0000 + b3 * 0x100_0000 + b4 * 0x1_0000_0000 + b5
                * 0x100_0000_0000 + b6 * 0x1_0000_0000_0000 + b7 * 0x100_0000_0000_0000,
    ;
    let v1 = v / 256;
    assert(v1 % 256 == b1 && v1 / 256 == b2 + b3 * 256 + b4 * 0x1_0000 + b5 * 0x100_0000 + b6
        * 0x1_0000_0000 + b7 * 0x100_0000_0000) by (nonlinear_arith)
        requires
            b1 < 256,
            v1 == b1 + b2 * 256 + b3 * 0x1_0000 + b4 * 0x100_0000 + b5 * 0x1_0000_0000 + b6
                * 0x100_0000_0000 + b7 * 0x1_0000_0000_0000,
    ;
    let v2 = v1 / 256;
    assert(v2 % 256 == b2 && v2 / 256 == b3 + b4 * 256 + b5 * 0x1_0000 + b6 * 0x100_0000 + b7
        * 0x1_0000_0000) by (nonlinear_arith)
        requires
            b2 < 256,
            v2 == b2 + b3 * 256 + b4 * 0x1_0000 + b5 * 0x100_0000 + b6 * 0x1_0000_0000 + b7
                * 0x100_0000_0000,
    ;
    let v3 = v2 / 256;
    assert(v3 % 256 == b3 && v3 / 256 == b4 + b5 * 256 + b6 * 0x1_0000 + b7 * 0x100_0000)
        by (nonlinear_arith)
        requires
            b3 < 256,
            v3 == b3 + b4 * 256 + b5 * 0x1_0000 + b6 * 0x100_0000 + b7 * 0x1_0000_0000,
    ;
    let v4 = v3 / 256;
    assert(v4 % 256 == b4 && v4 / 256 == b5 + b6 * 256 + b7 * 0x1_0000) by (nonlinear_arith)
        requires
            b4 < 256,
            v4 == b4 + b5 * 256 + b6 * 0x1_0000 + b7 * 0x100_0000,
    ;
    let v5 = v4 / 256;
    assert(v5 % 256 == b5 && v5 / 256 == b6 + b7 * 256) by (nonlinear_arith)
        requires
            b5 < 256,
            v5 == b5 + b6 * 256 + b7 * 0x1_0000,
    ;
    let v6 = v5 / 256;
    assert(v6 % 256 == b6 && v6 / 256 == b7) by (nonlinear_arith)
        requires
            b6 < 256,
            b7 < 256,
            v6 == b6 + b7 * 256,
    ;
    assert(v / 0x1_0000 == v1 / 256 && v / 0x100_0000 == v2 / 256 && v / 0x1_0000_0000 == v3 / 256
        && v / 0x100_0000_0000 == v4 / 256 && v / 0x1_0000_0000_0000 == v5 / 256 && v
        / 0x100_0000_0000_0000 == v6 / 256) by (nonlinear_arith)
        requires
            v >= 0,
            v1 == v / 256,
            v2 == v1 / 256,
            v3 == v2 / 256,
            v4 == v3 / 256,
            v5 == v4 / 256,
            v6 == v5 / 256,
    ;
}

/// The sections beyond a bound contribute nothing when they are all
/// empty.
proof fn lemma_sections_bytes_none_tail(secs: Seq<Option<Seq<u32>>>, lo: int)
    requires
        forall|j: int| lo <= j < 16 ==> secs[j] is None,
    ensures
        spec_sections_bytes_from(secs, lo) == Seq::<u8>::empty(),
    decreases 16 - lo,
{
    if 0 <= lo < 16 {
        lemma_sections_bytes_none_tail(secs, lo + 1);
        assert(spec_sections_bytes_from(secs, lo) =~= Seq::<u8>::empty());
    }
}

/// Filling a slot beyond every present one appends that slot's bytes.
proof fn lemma_sections_bytes_update(
    secs: Seq<Option<Seq<u32>>>,
    idx: int,
    cells: Seq<u32>,
    prev: int,
    lo: int,
)
    requires
        secs.len() == 16,
        -1 <= prev < idx < 16,
        forall|j: int| prev < j < 16 ==> secs[j] is None,
        0 <= lo <= 16,
    ensures
        lo <= idx ==> spec_sections_bytes_from(secs.update(idx, Some(cells)), lo)
            == spec_sections_bytes_from(secs, lo) + spec_le32(spec_word32(idx))
            + spec_cells_bytes(cells),
        lo > idx ==> spec_sections_bytes_from(secs.update(idx, Some(cells)), lo)
            == spec_sections_bytes_from(secs, lo),
    decreases 16 - lo,
{
    let upd = secs.update(idx, Some(cells));
    if lo >= 16 {
    } else {
        lemma_sections_bytes_update(secs, idx, cells, prev, lo + 1);
        if lo == idx {
            lemma_sections_bytes_none_tail(secs, lo);
            lemma_sections_bytes_none_tail(upd, lo + 1);
            assert(spec_sections_bytes_from(upd, lo) =~= spec_sections_bytes_from(secs, lo)
                + spec_le32(spec_word32(idx)) + spec_cells_bytes(cells));
        } else if lo < idx {
            assert(upd[lo] == secs[lo]);
            assert(spec_sections_bytes_from(upd, lo) =~= spec_sections_bytes_from(secs, lo)
                + spec_le32(spec_word32(idx)) + spec_cells_bytes(cells));
        } else {
            assert(upd[lo] == secs[lo]);
        }
    }
}

/// Filling a slot raises the section count by one.
proof fn lemma_section_count_update(
    secs: Seq<Option<Seq<u32>>>,
    idx: int,
    cells: Seq<u32>,
    lo: int,
)
    requires
        secs.len() == 16,
        0 <= idx < 16,
        secs[idx] is None,
        0 <= lo <= 16,
    ensures
        lo <= idx ==> spec_section_count_from(secs.update(idx, Some(cells)), lo)
            == spec_section_count_from(secs, lo) + 1,
        lo > idx ==> spec_section_count_from(secs.update(idx, Some(cells)), lo)
            == spec_section_count_from(secs, lo),
    decreases 16 - lo,
{
    if lo < 16 {
        lemma_section_count_update(secs, idx, cells, lo + 1);
    }
}

/// The count of present sections lies between zero and sixteen.
proof fn lemma_section_count_bounds(secs: Seq<Option<Seq<u32>>>, lo: int)
    ensures
        0 <= spec_section_count_from(secs, lo) <= 16 - lo || lo < 0 || lo >= 16,
        0 <= spec_section_count_from(secs, lo) <= 16,
    decreases 16 - lo,
{
    if 0 <= lo < 16 {
        lemma_section_count_bounds(secs, lo + 1);
    }
}

/// The bytes of the present sections with index below `hi`, in
/// ascending index order.
pub open spec fn spec_sections_bytes_upto(secs: Seq<Option<Seq<u32>>>, hi: int) -> Seq<u8>
    decreases hi,
{
    if hi <= 0 || hi > 16 {
        Seq::empty()
    } else {
        spec_sections_bytes_upto(secs, hi - 1) + (match secs[hi - 1] {
            Some(cells) => spec_le32(spec_word32(hi - 1)) + spec_cells_bytes(cells),
            None => Seq::<u8>::empty(),
        })
    }
}

/// The two enumerations of section bytes, from the front and from the
/// back, split the whole between them.
proof fn lemma_sections_bytes_split(secs: Seq<Option<Seq<u32>>>, k: int)
    requires
        0 <= k <= 16,
    ensures
        spec_sections_bytes_from(secs, 0) == spec_sections_bytes_upto(secs, k)
            + spec_sections_bytes_from(secs, k),
    decreases k,
{
    if k == 0 {
        assert(spec_sections_bytes_from(secs, 0) =~= spec_sections_bytes_upto(secs, 0)
            + spec_sections_bytes_from(secs, 0));
    } else {
        lemma_sections_bytes_split(secs, k - 1);
        assert(spec_sections_bytes_from(secs, 0) =~= spec_sections_bytes_upto(secs, k)
            + spec_sections_bytes_from(secs, k));
    }
}

impl Chunk {
    /// Serializes this chunk to its binary encoding.
    pub fn serialize(&self) -> (r: Vec<u8>)
        requires
            self.wf(),
        ensures
            r@ == spec_encode(self.model()),
    {
        let ghost m = self.model();
        let mut out: Vec<u8> = Vec::new();
        push_le32(&mut out, to_word32(self.position.x));
        push_le32(&mut out, to_word32(self.position.y));
        push_le32(&mut out, to_word32(self.position.z));

        let mut count: u32 = 0;
        let mut i: usize = 0;
        while i < 16
            invariant
                self.wf(),
                i <= 16,
                m == self.model(),
                count == spec_section_count_from(m.sections, 0) - spec_section_count_from(
                    m.sections,
                    i as int,
                ),
                count <= 16,
            decreases 16 - i,
        {
            proof {
                lemma_section_count_bounds(m.sections, 0);
                lemma_section_count_bounds(m.sections, i + 1);
            }
            match &self.sections[i] {
                Some(_) => {
                    count = count + 1;
                },
                None => {},
            }
            i = i + 1;
        }
        push_le32(&mut out, count);

        let ghost header = out@;
        let mut i: usize = 0;
        while i < 16
            invariant
                self.wf(),
                i <= 16,
                m == self.model(),
                out@ == header + spec_sections_bytes_upto(m.sections, i as int),
            decreases 16 - i,
        {
            match &self.sections[i] {
                Some(section) => {
                    push_le32(&mut out, to_word32(i as i32));
                    let ghost base = out@;
                    let mut j: usize = 0;
                    while j < 4096
                        invariant
                            self.wf(),
                            i < 16,
                            self.sections@[i as int] matches Some(s) && s.blocks@.len() == 4096
                                && s.blocks@ == section.blocks@,
                            j <= 4096,
                            out@ == base + spec_cells_bytes(section.blocks@.take(j as int)),
                        decreases 4096 - j,
                    {
                        let cell = section.blocks[j];
                        push_le32(&mut out, cell);
                        proof {
                            assert(section.blocks@.take(j + 1).drop_last() =~= section.blocks@.take(
                                j as int,
                            ));
                            assert(out@ =~= base + spec_cells_bytes(section.blocks@.take(j + 1)));
                        }
                        j = j + 1;
                    }
                    proof {
                        assert(section.blocks@.take(4096) =~= section.blocks@);
                        assert(out@ =~= header + spec_sections_bytes_upto(m.sections, i + 1));
                    }
                },
                None => {
                    proof {
                        assert(out@ =~= header + spec_sections_bytes_upto(m.sections, i + 1));
                    }
                },
            }
            i = i + 1;
        }
        proof {
            lemma_sections_bytes_split(m.sections, 16);
            assert(spec_sections_bytes_from(m.sections, 16) =~= Seq::<u8>::empty());
            assert(out@ =~= header + spec_sections_bytes_from(m.sections, 0));
        }
        push_le64(&mut out, self.last_modified);
        push_le64(&mut out, self.created_at);
        proof {
            assert(out@ =~= spec_encode(m));
        }
        out
    }
}

/// The word read from four little-endian bytes.
pub open spec fn spec_read32(data: Seq<u8>, offset: int) -> int {
    data[offset] + 256 * data[offset + 1] + 65536 * data[offset + 2] + 16777216 * data[offset
        + 3]
}

/// The signed value a 32-bit word stands for.
pub open spec fn spec_signed32(w: int) -> int {
    if w <= 0x7FFF_FFFF {
        w
    } else {
        w - 0x1_0000_0000
    }
}

/// Whether the given number of section records, starting at an offset,
/// carry strictly ascending in-range indices.
pub open spec fn spec_sections_ok(data: Seq<u8>, offset: int, prev: int, remaining: int) -> bool
    decreases remaining,
{
    if remaining <= 0 {
        true
    } else {
        let idx = spec_signed32(spec_read32(data, offset));
        &&& prev < idx < 16
        &&& spec_sections_ok(data, offset + 16388, idx, remaining - 1)
    }
}

/// Whether a byte sequence is a well-formed chunk encoding: the fixed
/// header, a section count of at most sixteen, the exact record length,
/// and ascending in-range section indices.
pub open spec fn spec_valid_encoding(data: Seq<u8>) -> bool {
    &&& data.len() >= 16
    &&& spec_read32(data, 12) <= 16
    &&& data.len() == 32 + spec_read32(data, 12) * 16388
    &&& spec_sections_ok(data, 16, -1, spec_read32(data, 12))
}

/// A word whose little-endian bytes stand at an offset is the word read
/// there.
proof fn lemma_read32(r: u32, data: Seq<u8>, offset: int)
    requires
        0 <= offset,
        offset + 4 <= data.len(),
        spec_le32(r) == data.subrange(offset, offset + 4),
    ensures
        r == spec_read32(data, offset),
{
    assert(data[offset] == spec_le32(r)[0]);
    assert(data[offset + 1] == spec_le32(r)[1]);
    assert(data[offset + 2] == spec_le32(r)[2]);
    assert(data[offset + 3] == spec_le32(r)[3]);
    let v = r as int;
    assert(v == v % 256 + 256 * (v / 256 % 256) + 65536 * (v / 65536 % 256) + 16777216 * (v
        / 16777216 % 256)) by (nonlinear_arith)
        requires
            0 <= v < 0x1_0000_0000,
    ;
}

/// The signed reading of the word that stands for a signed value is that
/// value.
proof fn lemma_signed_word32(v: i32)
    ensures
        spec_signed32(spec_word32(v as int) as int) == v,
{
}

impl Chunk {
    /// Decodes a chunk from its binary encoding.  Decoding succeeds on
    /// exactly the well-formed encodings; the decoded chunk is then
    /// clean, well formed, and encodes back to exactly the given bytes.
    /// On failure nothing is built.
    pub fn deserialize(data: &[u8]) -> (r: Result<Chunk, CodecError>)
        ensures
            r is Ok <==> spec_valid_encoding(data@),
            r matches Ok(c) ==> {
                &&& c.wf()
                &&& !c.is_dirty
                &&& spec_encode(c.model()) == data@
            },
    {
        if data.len() < 16 {
            return Err(CodecError::Truncated);
        }
        let wx = read_le32(data, 0);
        let wy = read_le32(data, 4);
        let wz = read_le32(data, 8);
        let count = read_le32(data, 12);
        let px = from_word32(wx);
        let py = from_word32(wy);
        let pz = from_word32(wz);
        proof {
            lemma_read32(count, data@, 12);
        }
        if count > 16 {
            return Err(CodecError::TooManySections);
        }

        let mut sections: Vec<Option<ChunkSection>> = Vec::new();
        let mut i: usize = 0;
        while i < 16
            invariant
                i <= 16,
                sections@.len() == i,
                forall|j: int| 0 <= j < i ==> sections@[j] is None,
            decreases 16 - i,
        {
            sections.push(None);
            i = i + 1;
        }

        let mut offset: usize = 16;
        let mut prev: i32 = -1;
        let mut k: u32 = 0;
        proof {
            let msecs = sections@.map_values(
                |o: Option<ChunkSection>| crate::chunk::opt_section_view(o),
            );
            lemma_sections_bytes_none_tail(msecs, 0);
            lemma_section_count_none_tail(msecs, 0);
            assert(spec_sections_bytes_from(msecs, 0) =~= data@.subrange(16, offset as int));
            assert(spec_valid_encoding(data@) <==> (data@.len() == offset + (count - k) * 16388
                + 16 && spec_sections_ok(data@, offset as int, -1, count - k)));
        }
        while k < count
            invariant
                count <= 16,
                k <= count,
                16 <= offset <= data@.len(),
                data@.len() <= usize::MAX,
                count == spec_read32(data@, 12),
                offset == 16 + k * 16388,
                spec_valid_encoding(data@) <==> (data@.len() == offset + (count - k) * 16388
                    + 16 && spec_sections_ok(data@, offset as int, prev as int, count - k)),
                -1 <= prev < 16,
                sections@.len() == 16,
                forall|j: int|
                    0 <= j < 16 ==> crate::chunk::opt_section_wf(#[trigger] sections@[j]),
                forall|j: int| prev < j < 16 ==> sections@[j] is None,
                ({
                    let msecs = sections@.map_values(
                        |o: Option<ChunkSection>| crate::chunk::opt_section_view(o),
                    );
                    &&& spec_section_count_from(msecs, 0) == k
                    &&& spec_sections_bytes_from(msecs, 0) == data@.subrange(16, offset as int)
                }),
            decreases count - k,
        {
            proof {
                assert((count - k) * 16388 >= 16388) by (nonlinear_arith)
                    requires
                        count - k >= 1,
                ;
            }
            if data.len() - offset < 4 {
                return Err(CodecError::Truncated);
            }
            let idx_word = read_le32(data, offset);
            let idx = from_word32(idx_word);
            proof {
                lemma_read32(idx_word, data@, offset as int);
                lemma_signed_word32(idx);
            }
            if idx <= prev || idx >= 16 {
                return Err(CodecError::BadSectionIndex);
            }
            if data.len() - offset - 4 < 16384 {
                return Err(CodecError::Truncated);
            }
            let cells_start = offset + 4;
            let mut blocks: Vec<u32> = Vec::new();
            let mut non_air: u16 = 0;
            let mut j: usize = 0;
            while j < 4096
                invariant
                    j <= 4096,
                    cells_start + 16384 <= data@.len(),
                    data@.len() <= usize::MAX,
                    blocks@.len() == j,
                    non_air == count_non_air(blocks@),
                    non_air <= blocks@.len(),
                    spec_cells_bytes(blocks@) == data@.subrange(
                        cells_start as int,
                        cells_start as int + 4 * j,
                    ),
                decreases 4096 - j,
            {
                let cell = read_le32(data, cells_start + 4 * j);
                proof {
                    lemma_count_push(blocks@, cell);
                    assert(blocks@.push(cell).drop_last() =~= blocks@);
                    assert(spec_cells_bytes(blocks@.push(cell)) =~= data@.subrange(
                        cells_start as int,
                        cells_start as int + 4 * (j + 1),
                    ));
                }
                blocks.push(cell);
                let b = crate::block::Block::unpack(cell);
                if !b.is_air() {
                    non_air = non_air + 1;
                }
                j = j + 1;
            }
            let section = ChunkSection { blocks, non_air_count: non_air };
            let ghost old_secs = sections@;
            let ghost old_msecs = sections@.map_values(
                |o: Option<ChunkSection>| crate::chunk::opt_section_view(o),
            );
            sections.set(idx as usize, Some(section));
            proof {
                let msecs = sections@.map_values(
                    |o: Option<ChunkSection>| crate::chunk::opt_section_view(o),
                );
                assert(msecs =~= old_msecs.update(idx as int, Some(section.blocks@)));
                lemma_sections_bytes_update(old_msecs, idx as int, section.blocks@, prev as int, 0);
                lemma_section_count_update(old_msecs, idx as int, section.blocks@, 0);
                assert(spec_le32(spec_word32(idx as int)) == data@.subrange(
                    offset as int,
                    offset as int + 4,
                ));
                assert(spec_sections_bytes_from(msecs, 0) =~= data@.subrange(
                    16,
                    offset as int + 4 + 16384,
                ));
                assert((count - k) * 16388 == 16388 + (count - k - 1) * 16388)
                    by (nonlinear_arith)
                    requires
                        count - k >= 1,
                ;
                assert(spec_sections_ok(data@, offset as int, prev as int, count - k)
                    <==> spec_sections_ok(data@, offset as int + 16388, idx as int, count - k
                    - 1));
            }
            offset = offset + 4 + 16384;
            prev = idx;
            k = k + 1;
        }

        if data.len() - offset < 16 {
            return Err(CodecError::Truncated);
        }
        if data.len() - offset > 16 {
            return Err(CodecError::TrailingData);
        }
        let last_modified = read_le64(data, offset);
        let created_at = read_le64(data, offset + 8);
        let chunk = Chunk {
            position: ChunkVector { x: px, y: py, z: pz },
            sections,
            last_modified,
            is_dirty: false,
            created_at,
        };
        proof {
            let m = chunk.model();
            assert(spec_section_count_from(m.sections, 0) == count);
            assert(spec_le32(spec_section_count_from(m.sections, 0) as u32) == data@.subrange(
                12,
                16,
            ));
            assert(spec_encode(m) =~= data@);
        }
        Ok(chunk)
    }
}

/// Whether every present section slot holds exactly 4096 cell words.
pub open spec fn sections_sized(secs: Seq<Option<Seq<u32>>>) -> bool {
    forall|i: int|
        0 <= i < secs.len() ==> match #[trigger] secs[i] {
            Some(cells) => cells.len() == 4096,
            None => true,
        }
}

/// The bytes of a full section's cells are 16384 bytes long.
proof fn lemma_cells_bytes_len(cells: Seq<u32>)
    ensures
        spec_cells_bytes(cells).len() == 4 * cells.len(),
    decreases cells.len(),
{
    if cells.len() > 0 {
        lemma_cells_bytes_len(cells.drop_last());
    }
}

/// The bytes of the sections from an index are one full record per
/// present section.
proof fn lemma_sections_bytes_len(secs: Seq<Option<Seq<u32>>>, lo: int)
    requires
        secs.len() == 16,
        sections_sized(secs),
    ensures
        spec_sections_bytes_from(secs, lo).len() == 16388 * spec_section_count_from(secs, lo),
    decreases 16 - lo,
{
    if 0 <= lo < 16 {
        lemma_sections_bytes_len(secs, lo + 1);
        match secs[lo] {
            Some(cells) => {
                lemma_cells_bytes_len(cells);
            },
            None => {},
        }
    }
}

/// Reading the word whose little-endian bytes stand at an offset of a
/// sequence gives that word back.
proof fn lemma_read32_of_le32(v: u32, data: Seq<u8>, offset: int)
    requires
        0 <= offset,
        offset + 4 <= data.len(),
        data.subrange(offset, offset + 4) == spec_le32(v),
    ensures
        spec_read32(data, offset) == v,
{
    lemma_read32(v, data, offset);
}

/// The section records of an encoding parse back: each present section
/// contributes an in-range index above every earlier one.
proof fn lemma_sections_ok_encode(
    data: Seq<u8>,
    base: int,
    secs: Seq<Option<Seq<u32>>>,
    lo: int,
    prev: int,
)
    requires
        secs.len() == 16,
        sections_sized(secs),
        0 <= lo <= 16,
        -1 <= prev < lo,
        0 <= base,
        base + spec_sections_bytes_from(secs, lo).len() <= data.len(),
        data.subrange(base, base + spec_sections_bytes_from(secs, lo).len() as int)
            == spec_sections_bytes_from(secs, lo),
    ensures
        spec_sections_ok(data, base, prev, spec_section_count_from(secs, lo)),
    decreases 16 - lo,
{
    if lo >= 16 {
    } else {
        match secs[lo] {
            Some(cells) => {
                lemma_cells_bytes_len(cells);
                lemma_sections_bytes_len(secs, lo + 1);
                lemma_section_count_bounds(secs, lo + 1);
                let entry = spec_le32(spec_word32(lo)) + spec_cells_bytes(cells);
                let rest = spec_sections_bytes_from(secs, lo + 1);
                assert(spec_sections_bytes_from(secs, lo) == entry + rest);
                assert forall|k: int| 0 <= k < 4 implies data[base + k] == spec_le32(
                    spec_word32(lo),
                )[k] by {
                    let whole = spec_sections_bytes_from(secs, lo);
                    assert(data.subrange(base, base + whole.len() as int)[k] == data[base + k]);
                    assert((entry + rest)[k] == entry[k]);
                }
                assert(data.subrange(base, base + 4) =~= spec_le32(spec_word32(lo)));
                lemma_read32_of_le32(spec_word32(lo), data, base);
                assert(spec_signed32(spec_word32(lo) as int) == lo);
                assert forall|k: int| 0 <= k < rest.len() implies data[base + 16388 + k]
                    == rest[k] by {
                    let whole = spec_sections_bytes_from(secs, lo);
                    assert(data.subrange(base, base + whole.len() as int)[16388 + k] == data[base
                        + 16388 + k]);
                    assert((entry + rest)[16388 + k] == rest[k]);
                }
                assert(data.subrange(base + 16388, base + 16388 + rest.len() as int) =~= rest);
                lemma_sections_ok_encode(data, base + 16388, secs, lo + 1, lo);
                assert(spec_section_count_from(secs, lo) == 1 + spec_section_count_from(
                    secs,
                    lo + 1,
                ));
            },
            None => {
                lemma_sections_ok_encode(data, base, secs, lo + 1, prev);
            },
        }
    }
}

/// The encoding of a chunk value with sixteen full-sized section slots is
/// a well-formed encoding: decoding it always succeeds.
pub proof fn lemma_encode_valid(m: ChunkModel)
    requires
        m.sections.len() == 16,
        sections_sized(m.sections),
    ensures
        spec_valid_encoding(spec_encode(m)),
{
    let data = spec_encode(m);
    let count = spec_section_count_from(m.sections, 0);
    lemma_section_count_bounds(m.sections, 0);
    lemma_sections_bytes_len(m.sections, 0);
    assert(data.len() == 32 + count * 16388);
    assert(data.subrange(12, 16) =~= spec_le32(count as u32));
    lemma_read32_of_le32(count as u32, data, 12);
    assert(data.subrange(16, 16 + spec_sections_bytes_from(m.sections, 0).len() as int)
        =~= spec_sections_bytes_from(m.sections, 0));
    lemma_sections_ok_encode(data, 16, m.sections, 0, -1);
}

/// Serializing a well-formed chunk always yields bytes that decode: the
/// encode-decode round trip never fails.
pub proof fn lemma_round_trip_decodes(c: &Chunk)
    requires
        c.wf(),
    ensures
        spec_valid_encoding(spec_encode(c.model())),
{
    assert forall|i: int| 0 <= i < c.model().sections.len() implies match #[trigger] c.model().sections[i] {
        Some(cells) => cells.len() == 4096,
        None => true,
    } by {
        assert(crate::chunk::opt_section_wf(c.sections@[i]));
    }
    lemma_encode_valid(c.model());
}

/// A 32-bit word is recovered from its base-256 digits.
proof fn lemma_recompose32(v: u32)
    ensures
        v == v as int % 256 + 256 * (v as int / 256 % 256) + 65536 * (v as int / 65536 % 256)
            + 16777216 * (v as int / 16777216 % 256),
{
    assert(v as int == v as int % 256 + 256 * (v as int / 256 % 256) + 65536 * (v as int / 65536
        % 256) + 16777216 * (v as int / 16777216 % 256)) by (nonlinear_arith)
        requires
            0 <= v < 0x1_0000_0000,
    ;
}

/// Two words with the same little-endian bytes are the same word.
proof fn lemma_le32_injective(a: u32, b: u32)
    requires
        spec_le32(a) == spec_le32(b),
    ensures
        a == b,
{
    assert(spec_le32(a)[0] == spec_le32(b)[0]);
    assert(spec_le32(a)[1] == spec_le32(b)[1]);
    assert(spec_le32(a)[2] == spec_le32(b)[2]);
    assert(spec_le32(a)[3] == spec_le32(b)[3]);
    lemma_recompose32(a);
    lemma_recompose32(b);
}

/// Two signed coordinates with the same word are the same coordinate.
proof fn lemma_word32_injective(a: i32, b: i32)
    requires
        spec_word32(a as int) == spec_word32(b as int),
    ensures
        a == b,
{
}

/// Two cell sequences of one length with the same bytes are the same
/// sequence.
proof fn lemma_cells_bytes_injective(c1: Seq<u32>, c2: Seq<u32>)
    requires
        c1.len() == c2.len(),
        spec_cells_bytes(c1) == spec_cells_bytes(c2),
    ensures
        c1 =~= c2,
    decreases c1.len(),
{
    if c1.len() > 0 {
        lemma_cells_bytes_len(c1);
        lemma_cells_bytes_len(c2);
        let p1 = spec_cells_bytes(c1.drop_last());
        let p2 = spec_cells_bytes(c2.drop_last());
        lemma_cells_bytes_len(c1.drop_last());
        lemma_cells_bytes_len(c2.drop_last());
        assert forall|k: int| 0 <= k < 4 implies spec_le32(c1.last())[k] == spec_le32(
            c2.last(),
        )[k] by {
            assert((p1 + spec_le32(c1.last()))[p1.len() + k] == spec_le32(c1.last())[k]);
            assert((p2 + spec_le32(c2.last()))[p2.len() + k] == spec_le32(c2.last())[k]);
        }
        assert(spec_le32(c1.last()) =~= spec_le32(c2.last()));
        lemma_le32_injective(c1.last(), c2.last());
        assert forall|k: int| 0 <= k < p1.len() implies p1[k] == p2[k] by {
            assert((p1 + spec_le32(c1.last()))[k] == p1[k]);
            assert((p2 + spec_le32(c2.last()))[k] == p2[k]);
        }
        assert(p1 =~= p2);
        lemma_cells_bytes_injective(c1.drop_last(), c2.drop_last());
        assert forall|k: int| 0 <= k < c1.len() implies c1[k] == c2[k] by {
            if k < c1.len() - 1 {
                assert(c1.drop_last()[k] == c1[k]);
                assert(c2.drop_last()[k] == c2[k]);
            }
        }
    }
}

/// The first filled slot at or above an index.
spec fn spec_first_present(secs: Seq<Option<Seq<u32>>>, lo: int) -> int
    decreases 16 - lo,
{
    if lo < 0 || lo >= 16 {
        16
    } else if secs[lo] is Some {
        lo
    } else {
        spec_first_present(secs, lo + 1)
    }
}

/// With a filled slot remaining, the section bytes are those from the
/// first filled slot, which begin with that slot's index word.
proof fn lemma_first_present(secs: Seq<Option<Seq<u32>>>, lo: int)
    requires
        secs.len() == 16,
        0 <= lo <= 16,
        spec_section_count_from(secs, lo) > 0,
    ensures
        lo <= spec_first_present(secs, lo) < 16,
        secs[spec_first_present(secs, lo)] is Some,
        spec_sections_bytes_from(secs, lo) == spec_sections_bytes_from(
            secs,
            spec_first_present(secs, lo),
        ),
    decreases 16 - lo,
{
    if lo < 16 && secs[lo] is None {
        lemma_first_present(secs, lo + 1);
        assert(spec_sections_bytes_from(secs, lo) =~= spec_sections_bytes_from(secs, lo + 1));
    }
}

/// Two sized section tables with the same count and the same bytes are
/// the same table.
#[verifier::rlimit(60)]
proof fn lemma_sections_bytes_injective(s1: Seq<Option<Seq<u32>>>, s2: Seq<Option<Seq<u32>>>, lo: int)
    requires
        s1.len() == 16,
        s2.len() == 16,
        sections_sized(s1),
        sections_sized(s2),
        0 <= lo <= 16,
        spec_section_count_from(s1, lo) == spec_section_count_from(s2, lo),
        spec_sections_bytes_from(s1, lo) == spec_sections_bytes_from(s2, lo),
    ensures
        forall|i: int| lo <= i < 16 ==> s1[i] == s2[i],
    decreases 16 - lo,
{
    if lo >= 16 {
    } else {
        match (s1[lo], s2[lo]) {
            (Some(c1), Some(c2)) => {
                lemma_cells_bytes_len(c1);
                lemma_cells_bytes_len(c2);
                let e1 = spec_le32(spec_word32(lo)) + spec_cells_bytes(c1);
                let e2 = spec_le32(spec_word32(lo)) + spec_cells_bytes(c2);
                let r1 = spec_sections_bytes_from(s1, lo + 1);
                let r2 = spec_sections_bytes_from(s2, lo + 1);
                lemma_sections_bytes_len(s1, lo + 1);
                lemma_sections_bytes_len(s2, lo + 1);
                assert(r1.len() == r2.len());
                assert forall|k: int| 0 <= k < 16384 implies spec_cells_bytes(c1)[k]
                    == spec_cells_bytes(c2)[k] by {
                    assert((e1 + r1)[4 + k] == spec_cells_bytes(c1)[k]);
                    assert((e2 + r2)[4 + k] == spec_cells_bytes(c2)[k]);
                }
                assert(spec_cells_bytes(c1) =~= spec_cells_bytes(c2));
                lemma_cells_bytes_injective(c1, c2);
                assert forall|k: int| 0 <= k < r1.len() implies r1[k] == r2[k] by {
                    assert((e1 + r1)[e1.len() + k] == r1[k]);
                    assert((e2 + r2)[e2.len() + k] == r2[k]);
                }
                assert(r1 =~= r2);
                lemma_sections_bytes_injective(s1, s2, lo + 1);
                assert(s1[lo] == s2[lo]);
            },
            (None, None) => {
                lemma_sections_bytes_injective(s1, s2, lo + 1);
            },
            (Some(c1), None) => {
                lemma_head_word_differs(s1, s2, lo, c1);
            },
            (None, Some(c2)) => {
                assert(spec_sections_bytes_from(s2, lo) == spec_sections_bytes_from(s1, lo));
                lemma_head_word_differs(s2, s1, lo, c2);
            },
        }
    }
}

/// The bytes of the sections from a filled slot begin with that slot's
/// index word.
proof fn lemma_head_word(secs: Seq<Option<Seq<u32>>>, lo: int, c: Seq<u32>)
    requires
        secs.len() == 16,
        sections_sized(secs),
        0 <= lo < 16,
        secs[lo] == Some(c),
    ensures
        spec_sections_bytes_from(secs, lo).len() >= 4,
        forall|k: int|
            0 <= k < 4 ==> #[trigger] spec_sections_bytes_from(secs, lo)[k] == spec_le32(
                spec_word32(lo),
            )[k],
{
    lemma_cells_bytes_len(c);
    let e = spec_le32(spec_word32(lo)) + spec_cells_bytes(c);
    let rest = spec_sections_bytes_from(secs, lo + 1);
    assert(spec_sections_bytes_from(secs, lo) == e + rest);
    assert forall|k: int| 0 <= k < 4 implies #[trigger] spec_sections_bytes_from(secs, lo)[k]
        == spec_le32(spec_word32(lo))[k] by {
        assert((e + rest)[k] == e[k]);
        assert(e[k] == spec_le32(spec_word32(lo))[k]);
    }
}

/// A filled slot on one side and an empty one on the other cannot carry
/// the same bytes: the bytes would begin with different index words, so
/// the slots agree after all.
proof fn lemma_head_word_differs(
    s1: Seq<Option<Seq<u32>>>,
    s2: Seq<Option<Seq<u32>>>,
    lo: int,
    c1: Seq<u32>,
)
    requires
        s1.len() == 16,
        s2.len() == 16,
        sections_sized(s1),
        sections_sized(s2),
        0 <= lo < 16,
        s1[lo] == Some(c1),
        spec_section_count_from(s1, lo) == spec_section_count_from(s2, lo),
        spec_sections_bytes_from(s1, lo) == spec_sections_bytes_from(s2, lo),
    ensures
        s2[lo] is Some,
{
    if s2[lo] is None {
        lemma_section_count_bounds(s1, lo + 1);
        assert(spec_section_count_from(s1, lo) >= 1);
        lemma_first_present(s2, lo);
        let f = spec_first_present(s2, lo);
        let c2 = s2[f]->Some_0;
        lemma_head_word(s1, lo, c1);
        lemma_head_word(s2, f, c2);
        assert forall|k: int| 0 <= k < 4 implies spec_le32(spec_word32(lo))[k] == spec_le32(
            spec_word32(f),
        )[k] by {
            assert(spec_sections_bytes_from(s1, lo)[k] == spec_le32(spec_word32(lo))[k]);
            assert(spec_sections_bytes_from(s2, f)[k] == spec_le32(spec_word32(f))[k]);
        }
        assert(spec_le32(spec_word32(lo)) =~= spec_le32(spec_word32(f)));
        lemma_le32_injective(spec_word32(lo), spec_word32(f));
        assert(spec_signed32(spec_word32(lo) as int) == lo);
        assert(spec_signed32(spec_word32(f) as int) == f);
    }
}

/// Two clean chunk values with sized sections and the same encoding are
/// the same value: on clean chunks the encoding is injective, so decoding
/// is unambiguous.
#[verifier::rlimit(80)]
pub proof fn lemma_encode_injective(m1: ChunkModel, m2: ChunkModel)
    requires
        m1.sections.len() == 16,
        m2.sections.len() == 16,
        sections_sized(m1.sections),
        sections_sized(m2.sections),
        !m1.is_dirty,
        !m2.is_dirty,
        spec_encode(m1) == spec_encode(m2),
    ensures
        m1 == m2,
{
    let d = spec_encode(m1);
    lemma_section_count_bounds(m1.sections, 0);
    lemma_section_count_bounds(m2.sections, 0);
    lemma_sections_bytes_len(m1.sections, 0);
    lemma_sections_bytes_len(m2.sections, 0);
    assert(d.subrange(0, 4) =~= spec_le32(spec_word32(m1.position.x as int)));
    assert(d.subrange(0, 4) =~= spec_le32(spec_word32(m2.position.x as int)));
    lemma_le32_injective(
        spec_word32(m1.position.x as int),
        spec_word32(m2.position.x as int),
    );
    lemma_word32_injective(m1.position.x, m2.position.x);
    assert(d.subrange(4, 8) =~= spec_le32(spec_word32(m1.position.y as int)));
    assert(d.subrange(4, 8) =~= spec_le32(spec_word32(m2.position.y as int)));
    lemma_le32_injective(
        spec_word32(m1.position.y as int),
        spec_word32(m2.position.y as int),
    );
    lemma_word32_injective(m1.position.y, m2.position.y);
    assert(d.subrange(8, 12) =~= spec_le32(spec_word32(m1.position.z as int)));
    assert(d.subrange(8, 12) =~= spec_le32(spec_word32(m2.position.z as int)));
    lemma_le32_injective(
        spec_word32(m1.position.z as int),
        spec_word32(m2.position.z as int),
    );
    lemma_word32_injective(m1.position.z, m2.position.z);
    assert(d.subrange(12, 16) =~= spec_le32(spec_section_count_from(m1.sections, 0) as u32));
    assert(d.subrange(12, 16) =~= spec_le32(spec_section_count_from(m2.sections, 0) as u32));
    lemma_le32_injective(
        spec_section_count_from(m1.sections, 0) as u32,
        spec_section_count_from(m2.sections, 0) as u32,
    );
    let count = spec_section_count_from(m1.sections, 0);
    let sb1 = spec_sections_bytes_from(m1.sections, 0);
    let sb2 = spec_sections_bytes_from(m2.sections, 0);
    assert(sb1.len() == sb2.len());
    assert forall|k: int| 0 <= k < sb1.len() implies sb1[k] == sb2[k] by {
        assert(d[16 + k] == sb1[k]);
        assert(d[16 + k] == sb2[k]);
    }
    assert(sb1 =~= sb2);
    lemma_sections_bytes_injective(m1.sections, m2.sections, 0);
    assert(m1.sections =~= m2.sections);
    let base = 16 + sb1.len() as int;
    assert(d.subrange(base, base + 8) =~= spec_le64(m1.last_modified));
    assert(d.subrange(base, base + 8) =~= spec_le64(m2.last_modified));
    lemma_le64_injective(m1.last_modified, m2.last_modified);
    assert(d.subrange(base + 8, base + 16) =~= spec_le64(m1.created_at));
    assert(d.subrange(base + 8, base + 16) =~= spec_le64(m2.created_at));
    lemma_le64_injective(m1.created_at, m2.created_at);
    assert(m1 =~~= m2);
}

/// An eight-byte word is recovered from its base-256 digits.
proof fn lemma_recompose64(v: u64)
    ensures
        v == v as int % 256 + 256 * (v as int / 256 % 256) + 0x1_0000 * (v as int / 0x1_0000
            % 256) + 0x100_0000 * (v as int / 0x100_0000 % 256) + 0x1_0000_0000 * (v as int
            / 0x1_0000_0000 % 256) + 0x100_0000_0000 * (v as int / 0x100_0000_0000 % 256)
            + 0x1_0000_0000_0000 * (v as int / 0x1_0000_0000_0000 % 256) + 0x100_0000_0000_0000
            * (v as int / 0x100_0000_0000_0000 % 256),
{
    let v0 = v as int;
    let x1 = v0 / 256;
    let x2 = v0 / 0x1_0000;
    let x3 = v0 / 0x100_0000;
    let x4 = v0 / 0x1_0000_0000;
    let x5 = v0 / 0x100_0000_0000;
    let x6 = v0 / 0x1_0000_0000_0000;
    let x7 = v0 / 0x100_0000_0000_0000;
    assert(x1 / 256 == x2 && x2 / 256 == x3 && x3 / 256 == x4 && x4 / 256 == x5 && x5 / 256
        == x6 && x6 / 256 == x7) by (nonlinear_arith)
        requires
            v0 >= 0,
            x1 == v0 / 256,
            x2 == v0 / 0x1_0000,
            x3 == v0 / 0x100_0000,
            x4 == v0 / 0x1_0000_0000,
            x5 == v0 / 0x100_0000_0000,
            x6 == v0 / 0x1_0000_0000_0000,
            x7 == v0 / 0x100_0000_0000_0000,
    ;
    assert(v0 == v0 % 256 + 256 * x1 && x1 == x1 % 256 + 256 * (x1 / 256) && x2 == x2 % 256
        + 256 * (x2 / 256) && x3 == x3 % 256 + 256 * (x3 / 256) && x4 == x4 % 256 + 256 * (x4
        / 256) && x5 == x5 % 256 + 256 * (x5 / 256) && x6 == x6 % 256 + 256 * (x6 / 256))
        by (nonlinear_arith)
        requires
            v0 >= 0,
            x1 >= 0,
            x2 >= 0,
            x3 >= 0,
            x4 >= 0,
            x5 >= 0,
            x6 >= 0,
            x1 == v0 / 256,
    ;
    assert(x7 < 256);
}

/// Two words with the same little-endian bytes are the same word.
#[verifier::rlimit(50)]
proof fn lemma_le64_injective(a: u64, b: u64)
    requires
        spec_le64(a) == spec_le64(b),
    ensures
        a == b,
{
    assert(spec_le64(a)[0] == spec_le64(b)[0]);
    assert(spec_le64(a)[1] == spec_le64(b)[1]);
    assert(spec_le64(a)[2] == spec_le64(b)[2]);
    assert(spec_le64(a)[3] == spec_le64(b)[3]);
    assert(spec_le64(a)[4] == spec_le64(b)[4]);
    assert(spec_le64(a)[5] == spec_le64(b)[5]);
    assert(spec_le64(a)[6] == spec_le64(b)[6]);
    assert(spec_le64(a)[7] == spec_le64(b)[7]);
    lemma_recompose64(a);
    lemma_recompose64(b);
}

/// The count of present sections is zero when every slot is empty.
proof fn lemma_section_count_none_tail(secs: Seq<Option<Seq<u32>>>, lo: int)
    requires
        forall|j: int| lo <= j < 16 ==> secs[j] is None,
    ensures
        spec_section_count_from(secs, lo) == 0,
    decreases 16 - lo,
{
    if 0 <= lo < 16 {
        lemma_section_count_none_tail(secs, lo + 1);
    }
}

} // verus!
