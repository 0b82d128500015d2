//! Chunk sections: a dense 16x16x16 array of packed blocks together with a
//! counter of the non-air cells, maintained exactly across every mutation.

use crate::block::{spec_pack, spec_unpack, Block};
use crate::pos::{chunk_index, spec_chunk_index};
use vstd::prelude::*;

verus! {

/// A 16x16x16 sub-volume of a chunk.  The cells hold packed blocks in
/// row-major order; `non_air_count` caches how many of them are not air.
#[derive(Debug)]
pub struct ChunkSection {
    /// The packed blocks of this section.
    pub blocks: Vec<u32>,
    /// The number of cells whose block type is not air.
    pub non_air_count: u16,
}

/// The number of non-air cells of a packed-block sequence.
pub open spec fn count_non_air(s: Seq<u32>) -> int
    decreases s.len(),
{
    if s.len() == 0 {
        0
    } else {
        count_non_air(s.drop_last()) + if spec_unpack(s.last()).block_type != 0 {
            1int
        } else {
            0int
        }
    }
}

/// The count of non-air cells never exceeds the number of cells.
pub proof fn lemma_count_bounds(s: Seq<u32>)
    ensures
        0 <= count_non_air(s) <= s.len(),
    decreases s.len(),
{
    if s.len() > 0 {
        lemma_count_bounds(s.drop_last());
    }
}

/// Updating one cell changes the count by exactly the delta implied by the
/// air states of the old and the new cell value.
pub proof fn lemma_count_update(s: Seq<u32>, i: int, v: u32)
    requires
        0 <= i < s.len(),
    ensures
        count_non_air(s.update(i, v)) == count_non_air(s) + (if spec_unpack(v).block_type != 0 {
            1int
        } else {
            0int
        }) - (if spec_unpack(s[i]).block_type != 0 {
            1int
        } else {
            0int
        }),
    decreases s.len(),
{
    let t = s.update(i, v);
    if i == s.len() - 1 {
        assert(t.drop_last() =~= s.drop_last());
    } else {
        lemma_count_update(s.drop_last(), i, v);
        assert(t.drop_last() =~= s.drop_last().update(i, v));
        assert(t.last() == s.last());
    }
}

/// Appending a cell adds its own contribution to the count.
pub proof fn lemma_count_push(s: Seq<u32>, v: u32)
    ensures
        count_non_air(s.push(v)) == count_non_air(s) + if spec_unpack(v).block_type != 0 {
            1int
        } else {
            0int
        },
{
    assert(s.push(v).drop_last() =~= s);
}

/// The count of a constant sequence is all or nothing.
pub proof fn lemma_count_constant(s: Seq<u32>, v: u32)
    requires
        forall|i: int| 0 <= i < s.len() ==> s[i] == v,
    ensures
        count_non_air(s) == if spec_unpack(v).block_type != 0 {
            s.len() as int
        } else {
            0int
        },
    decreases s.len(),
{
    if s.len() > 0 {
        lemma_count_constant(s.drop_last(), v);
    }
}

impl ChunkSection {
    /// A section is well formed when it holds exactly 4096 cells and the
    /// cached counter equals the number of non-air cells.
    pub open spec fn wf(&self) -> bool {
        &&& self.blocks@.len() == 4096
        &&& self.non_air_count == count_non_air(self.blocks@)
    }

    /// The block stored at a local position; air for positions outside the
    /// 16x16x16 range.
    pub open spec fn spec_block_at(&self, x: int, y: int, z: int) -> Block {
        if 0 <= x < 16 && 0 <= y < 16 && 0 <= z < 16 {
            spec_unpack(self.blocks@[spec_chunk_index(x, y, z)])
        } else {
            Block { block_type: 0, metadata: 0 }
        }
    }

    /// Creates a new section filled with air.
    pub fn new() -> (r: ChunkSection)
        ensures
            r.wf(),
            r.blocks@ == Seq::new(4096, |i: int| 0u32),
            r.non_air_count == 0,
    {
        let mut blocks: Vec<u32> = Vec::new();
        let mut i: usize = 0;
        while i < 4096
            invariant
                i <= 4096,
                blocks@.len() == i,
                forall|k: int| 0 <= k < i ==> blocks@[k] == 0u32,
            decreases 4096 - i,
        {
            blocks.push(0);
            i = i + 1;
        }
        proof {
            assert(blocks@ =~= Seq::new(4096, |i: int| 0u32));
            assert(((0u32 >> 16) & 0xFFFF) == 0u32) by (bit_vector);
            lemma_count_constant(blocks@, 0);
        }
        ChunkSection { blocks, non_air_count: 0 }
    }

    /// Gets the block at a local position; air when the position falls
    /// outside the section.
    pub fn get_block(&self, x: usize, y: usize, z: usize) -> (r: Block)
        requires
            self.wf(),
        ensures
            r == self.spec_block_at(x as int, y as int, z as int),
    {
        if x < 16 && y < 16 && z < 16 {
            let index = chunk_index(x, y, z);
            Block::unpack(self.blocks[index])
        } else {
            Block::new(0)
        }
    }

    /// Sets the block at a local position, keeping the non-air counter
    /// exact.  Out-of-range positions are ignored.
    pub fn set_block(&mut self, x: usize, y: usize, z: usize, block: Block)
        requires
            old(self).wf(),
        ensures
            final(self).wf(),
            x < 16 && y < 16 && z < 16 ==> final(self).blocks@ == old(self).blocks@.update(
                spec_chunk_index(x as int, y as int, z as int),
                spec_pack(block),
            ),
            !(x < 16 && y < 16 && z < 16) ==> *final(self) == *old(self),
            final(self).spec_block_at(x as int, y as int, z as int) == if x < 16 && y < 16 && z
                < 16 {
                block
            } else {
                Block { block_type: 0, metadata: 0 }
            },
    {
        if x < 16 && y < 16 && z < 16 {
            let index = chunk_index(x, y, z);
            let old_block = Block::unpack(self.blocks[index]);
            let packed = block.pack();
            proof {
                lemma_count_update(self.blocks@, index as int, packed);
                lemma_count_bounds(self.blocks@);
                crate::block::lemma_unpack_pack(block);
                if spec_unpack(self.blocks@[index as int]).block_type != 0 {
                    lemma_cell_implies_positive(self.blocks@, index as int);
                }
            }
            if old_block.is_air() && !block.is_air() {
                self.non_air_count = self.non_air_count + 1;
            } else if !old_block.is_air() && block.is_air() {
                self.non_air_count = self.non_air_count - 1;
            }
            self.blocks.set(index, packed);
            proof {
                crate::block::lemma_unpack_pack(block);
            }
        }
    }

    /// Fills the entire section with one block, resetting the counter to
    /// zero or to the full volume.
    pub fn fill(&mut self, block: Block)
        ensures
            final(self).wf(),
            final(self).blocks@ == Seq::new(4096, |i: int| spec_pack(block)),
            final(self).non_air_count == if block.block_type != 0 {
                4096int
            } else {
                0int
            },
    {
        let packed = block.pack();
        let mut blocks: Vec<u32> = Vec::new();
        let mut i: usize = 0;
        while i < 4096
            invariant
                i <= 4096,
                blocks@.len() == i,
                packed == spec_pack(block),
                forall|k: int| 0 <= k < i ==> blocks@[k] == packed,
            decreases 4096 - i,
        {
            blocks.push(packed);
            i = i + 1;
        }
        proof {
            assert(blocks@ =~= Seq::new(4096, |i: int| spec_pack(block)));
            lemma_count_constant(blocks@, packed);
            crate::block::lemma_unpack_pack(block);
        }
        let count: u16 = if block.is_air() {
            0
        } else {
            4096
        };
        self.blocks = blocks;
        self.non_air_count = count;
    }

    /// Fills the section with blocks of the given type and default
    /// metadata.
    pub fn fill_with(&mut self, block_type: u16)
        ensures
            final(self).wf(),
            final(self).blocks@ == Seq::new(
                4096,
                |i: int| spec_pack(Block { block_type, metadata: 0u16 }),
            ),
            final(self).non_air_count == if block_type != 0 {
                4096int
            } else {
                0int
            },
    {
        self.fill(Block::new(block_type));
    }

    /// The number of non-air blocks of this section.
    pub fn count_non_air_blocks(&self) -> (r: usize)
        requires
            self.wf(),
        ensures
            r == count_non_air(self.blocks@),
    {
        self.non_air_count as usize
    }

    /// Whether the section consists of air only.
    pub fn is_empty(&self) -> (r: bool)
        requires
            self.wf(),
        ensures
            r == (count_non_air(self.blocks@) == 0),
    {
        self.non_air_count == 0
    }

    /// Whether every cell of the section holds a non-air block.
    pub fn is_full(&self) -> (r: bool)
        requires
            self.wf(),
        ensures
            r == (count_non_air(self.blocks@) == 4096),
    {
        self.non_air_count == 4096
    }

    /// Creates a deep copy of this section.
    pub fn clone_section(&self) -> (r: ChunkSection)
        ensures
            r.blocks@ == self.blocks@,
            r.non_air_count == self.non_air_count,
            self.wf() ==> r.wf(),
    {
        let mut blocks: Vec<u32> = Vec::new();
        let mut i: usize = 0;
        while i < self.blocks.len()
            invariant
                i <= self.blocks@.len(),
                blocks@ == self.blocks@.take(i as int),
            decreases self.blocks@.len() - i,
        {
            blocks.push(self.blocks[i]);
            proof {
                assert(blocks@ =~= self.blocks@.take(i + 1));
            }
            i = i + 1;
        }
        proof {
            assert(blocks@ =~= self.blocks@);
        }
        ChunkSection { blocks, non_air_count: self.non_air_count }
    }
}

/// A non-air cell forces the count to be at least one.
proof fn lemma_cell_implies_positive(s: Seq<u32>, i: int)
    requires
        0 <= i < s.len(),
        spec_unpack(s[i]).block_type != 0,
    ensures
        count_non_air(s) >= 1,
    decreases s.len(),
{
    if i < s.len() - 1 {
        lemma_cell_implies_positive(s.drop_last(), i);
        lemma_count_bounds(s);
    } else {
        lemma_count_bounds(s.drop_last());
    }
}

} // verus!
