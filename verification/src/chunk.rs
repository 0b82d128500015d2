//! Chunks: a 16x16 column of up to 256 blocks, stored as a sparse stack of
//! sections that are created lazily on first write.

use crate::block::{spec_pack, Block};
use crate::pos::{BlockVector, ChunkVector};
use crate::section::{count_non_air, ChunkSection};
use vstd::prelude::*;

verus! {

/// A chunk of the world.  The column is divided into 16 vertical sections;
/// a missing section reads as all air.
#[derive(Debug)]
pub struct Chunk {
    /// The position of the chunk, immutable after creation.
    pub position: ChunkVector,
    /// The sections of the chunk, indexed by vertical section index.
    pub sections: Vec<Option<ChunkSection>>,
    /// The timestamp when this chunk was last modified, epoch seconds.
    pub last_modified: u64,
    /// Whether the chunk has been modified since it was last saved.
    pub is_dirty: bool,
    /// The timestamp when this chunk was generated or loaded, epoch seconds.
    pub created_at: u64,
}

/// The all-air block.
pub open spec fn air() -> Block {
    Block { block_type: 0, metadata: 0 }
}

/// A section slot is well formed when it is empty or holds a well-formed
/// section.
pub open spec fn opt_section_wf(o: Option<ChunkSection>) -> bool {
    match o {
        Some(s) => s.wf(),
        None => true,
    }
}

/// Two section slots carry the same data.
pub open spec fn opt_section_equiv(a: Option<ChunkSection>, b: Option<ChunkSection>) -> bool {
    match (a, b) {
        (Some(sa), Some(sb)) => sa.blocks@ == sb.blocks@ && sa.non_air_count == sb.non_air_count,
        (None, None) => true,
        _ => false,
    }
}

/// The mathematical value of a chunk: its position, timestamps, dirty flag
/// and the cell words of each section slot.  Generator contracts and the
/// binary codec are stated over this value.
#[verifier::ext_equal]
pub struct ChunkModel {
    pub position: ChunkVector,
    pub sections: Seq<Option<Seq<u32>>>,
    pub last_modified: u64,
    pub is_dirty: bool,
    pub created_at: u64,
}

/// The cell words of a section slot.
pub open spec fn opt_section_view(o: Option<ChunkSection>) -> Option<Seq<u32>> {
    match o {
        Some(s) => Some(s.blocks@),
        None => None,
    }
}

/// The model of a freshly created chunk: sixteen empty section slots.
pub open spec fn model_new(position: ChunkVector, now: u64) -> ChunkModel {
    ChunkModel {
        position,
        sections: Seq::new(16, |i: int| None),
        last_modified: now,
        is_dirty: true,
        created_at: now,
    }
}

/// The model after a block write: the owning section slot is filled on
/// first write, the cell word replaced, the chunk marked dirty and
/// touched.  Writes outside the column leave the model unchanged.
pub open spec fn model_set_block(
    m: ChunkModel,
    x: int,
    y: int,
    z: int,
    b: Block,
    now: u64,
) -> ChunkModel {
    if 0 <= x < 16 && 0 <= y < 256 && 0 <= z < 16 {
        let cells = match m.sections[y / 16] {
            Some(s) => s,
            None => Seq::new(4096, |i: int| 0u32),
        };
        ChunkModel {
            sections: m.sections.update(
                y / 16,
                Some(cells.update(crate::pos::spec_chunk_index(x, y % 16, z), spec_pack(b))),
            ),
            last_modified: now,
            is_dirty: true,
            ..m
        }
    } else {
        m
    }
}

/// The model after a section replacement.
pub open spec fn model_set_section(
    m: ChunkModel,
    section_y: int,
    cells: Seq<u32>,
    now: u64,
) -> ChunkModel {
    if 0 <= section_y < 16 {
        ChunkModel {
            sections: m.sections.update(section_y, Some(cells)),
            last_modified: now,
            is_dirty: true,
            ..m
        }
    } else {
        m
    }
}

impl Chunk {
    /// A chunk is well formed when it holds exactly 16 section slots and
    /// every present section is well formed.
    pub open spec fn wf(&self) -> bool {
        &&& self.sections@.len() == 16
        &&& forall|i: int| 0 <= i < 16 ==> opt_section_wf(#[trigger] self.sections@[i])
    }

    /// The block stored at a local position of the column; air for a
    /// missing section and for positions outside the column.
    pub open spec fn spec_block_at(&self, x: int, y: int, z: int) -> Block {
        if 0 <= x < 16 && 0 <= y < 256 && 0 <= z < 16 {
            match self.sections@[y / 16] {
                Some(s) => s.spec_block_at(x, y % 16, z),
                None => air(),
            }
        } else {
            air()
        }
    }

    /// Whether the section slot at the given index holds a section.
    pub open spec fn spec_has_section(&self, section_y: int) -> bool {
        0 <= section_y < 16 && self.sections@[section_y] is Some
    }

    /// The mathematical value of this chunk.
    pub open spec fn model(&self) -> ChunkModel {
        ChunkModel {
            position: self.position,
            sections: self.sections@.map_values(|o: Option<ChunkSection>| opt_section_view(o)),
            last_modified: self.last_modified,
            is_dirty: self.is_dirty,
            created_at: self.created_at,
        }
    }

    /// Two chunks carry the same data: same position, timestamps, dirty
    /// flag, and cell-for-cell equal sections.
    pub open spec fn equiv(&self, other: &Chunk) -> bool {
        &&& self.position == other.position
        &&& self.last_modified == other.last_modified
        &&& self.created_at == other.created_at
        &&& self.is_dirty == other.is_dirty
        &&& self.sections@.len() == other.sections@.len()
        &&& forall|i: int|
            0 <= i < self.sections@.len() ==> opt_section_equiv(
                #[trigger] self.sections@[i],
                other.sections@[i],
            )
    }

    /// Creates a new empty chunk at the given position, stamped with the
    /// given creation time.
    pub fn new(position: ChunkVector, now: u64) -> (r: Chunk)
        ensures
            r.wf(),
            r.position == position,
            r.last_modified == now,
            r.created_at == now,
            r.is_dirty,
            forall|i: int| 0 <= i < 16 ==> r.sections@[i] is None,
            forall|x: int, y: int, z: int| r.spec_block_at(x, y, z) == air(),
            r.model() == model_new(position, now),
    {
        let mut sections: Vec<Option<ChunkSection>> = Vec::new();
        let mut i: usize = 0;
        while i < 16
            invariant
                i <= 16,
                sections@.len() == i,
                forall|k: int| 0 <= k < i ==> sections@[k] is None,
            decreases 16 - i,
        {
            sections.push(None);
            i = i + 1;
        }
        let chunk = Chunk { position, sections, last_modified: now, is_dirty: true, created_at: now };
        proof {
            assert(chunk.model() =~~= model_new(position, now));
        }
        chunk
    }

    /// Gets the block at the given local position, or `None` when the
    /// section that would hold it has never been written.
    pub fn get_block(&self, x: usize, y: usize, z: usize) -> (r: Option<Block>)
        requires
            self.wf(),
        ensures
            r == if y < 256 && self.spec_has_section(y as int / 16) {
                Some(self.spec_block_at(x as int, y as int, z as int))
            } else {
                Option::<Block>::None
            },
    {
        let section_y = y / 16;
        if section_y >= 16 {
            return None;
        }
        match &self.sections[section_y] {
            Some(section) => {
                let b = section.get_block(x, y % 16, z);
                proof {
                    if !(x < 16 && z < 16) {
                        assert(self.spec_block_at(x as int, y as int, z as int) == air());
                    }
                }
                Some(b)
            },
            None => None,
        }
    }

    /// Gets the block at the given world position; `None` when the world
    /// position lies outside this chunk column's vertical range or the
    /// section is missing.
    pub fn get_block_at(&self, position: &BlockVector) -> (r: Option<Block>)
        requires
            self.wf(),
            crate::pos::coord_in_range(position.x as int),
            crate::pos::coord_in_range(position.z as int),
        ensures
            r == if 0 <= position.y < 256 && self.spec_has_section(position.y as int / 16) {
                Some(
                    self.spec_block_at(
                        position.x as int % 16,
                        position.y as int,
                        position.z as int % 16,
                    ),
                )
            } else {
                Option::<Block>::None
            },
    {
        if position.y < 0 || position.y >= 256 {
            return None;
        }
        let (local_x, _, local_z) = crate::pos::block_to_local(position.x, 0, position.z);
        self.get_block(local_x, position.y as usize, local_z)
    }

    /// Sets the block at the given local position, creating the section on
    /// first write, marking the chunk dirty and refreshing the
    /// modification time.  Returns whether the write happened; positions
    /// outside the column are ignored.
    pub fn set_block(&mut self, x: usize, y: usize, z: usize, block: Block, now: u64) -> (r:
        bool)
        requires
            old(self).wf(),
        ensures
            final(self).wf(),
            r == (x < 16 && y < 256 && z < 16),
            r ==> {
                &&& final(self).spec_block_at(x as int, y as int, z as int) == block
                &&& final(self).is_dirty
                &&& final(self).last_modified == now
                &&& final(self).spec_has_section(y as int / 16)
                &&& forall|i: int|
                    0 <= i < 16 && i != y as int / 16 ==> final(self).sections@[i]
                        == old(self).sections@[i]
                &&& forall|x2: int, y2: int, z2: int|
                    !(x2 == x as int && y2 == y as int && z2 == z as int)
                        ==> final(self).spec_block_at(x2, y2, z2)
                        == old(self).spec_block_at(x2, y2, z2)
            },
            !r ==> *final(self) == *old(self),
            final(self).position == old(self).position,
            final(self).created_at == old(self).created_at,
            final(self).model() == model_set_block(
                old(self).model(),
                x as int,
                y as int,
                z as int,
                block,
                now,
            ),
    {
        if !(x < 16 && y < 256 && z < 16) {
            return false;
        }
        let section_y = y / 16;
        let local_y = y % 16;
        let sec_opt = self.sections.remove(section_y);
        let mut section = match sec_opt {
            Some(s) => s,
            None => ChunkSection::new(),
        };
        section.set_block(x, local_y, z, block);
        self.sections.insert(section_y, Some(section));
        proof {
            assert(self.sections@ =~= old(self).sections@.update(
                y as int / 16,
                self.sections@[y as int / 16],
            ));
        }
        self.is_dirty = true;
        self.last_modified = now;
        proof {
            self.lemma_frame_after_cell_update(*old(self), x as int, y as int, z as int);
            assert(self.model().sections =~~= model_set_block(
                old(self).model(),
                x as int,
                y as int,
                z as int,
                block,
                now,
            ).sections);
            assert(self.model() =~~= model_set_block(
                old(self).model(),
                x as int,
                y as int,
                z as int,
                block,
                now,
            ));
        }
        true
    }

    /// Sets the block at the given world position after validating that it
    /// falls inside the chunk column.  Returns whether the write happened.
    pub fn set_block_at(&mut self, position: &BlockVector, block: Block, now: u64) -> (r: bool)
        requires
            old(self).wf(),
            crate::pos::coord_in_range(position.x as int),
            crate::pos::coord_in_range(position.z as int),
        ensures
            final(self).wf(),
            r == (0 <= position.y < 256),
            r ==> {
                &&& final(self).spec_block_at(
                    position.x as int % 16,
                    position.y as int,
                    position.z as int % 16,
                ) == block
                &&& final(self).is_dirty
                &&& final(self).last_modified == now
            },
            !r ==> *final(self) == *old(self),
            final(self).position == old(self).position,
            final(self).created_at == old(self).created_at,
            final(self).model() == model_set_block(
                old(self).model(),
                position.x as int % 16,
                position.y as int,
                position.z as int % 16,
                block,
                now,
            ),
    {
        if position.y < 0 || position.y >= 256 {
            return false;
        }
        let (local_x, _, local_z) = crate::pos::block_to_local(position.x, 0, position.z);
        self.set_block(local_x, position.y as usize, local_z, block, now)
    }

    /// Whether the chunk holds a section at the given vertical index.
    pub fn has_section(&self, section_y: i32) -> (r: bool)
        requires
            self.wf(),
        ensures
            r == self.spec_has_section(section_y as int),
    {
        0 <= section_y && section_y < 16 && self.sections[section_y as usize].is_some()
    }

    /// Gets a copy of the section at the given vertical index.
    pub fn get_section(&self, section_y: i32) -> (r: Option<ChunkSection>)
        requires
            self.wf(),
        ensures
            r is Some <==> self.spec_has_section(section_y as int),
            r matches Some(s) ==> {
                &&& s.blocks@ == self.sections@[section_y as int]->Some_0.blocks@
                &&& s.non_air_count == self.sections@[section_y as int]->Some_0.non_air_count
                &&& s.wf()
            },
    {
        if 0 <= section_y && section_y < 16 {
            match &self.sections[section_y as usize] {
                Some(s) => Some(s.clone_section()),
                None => None,
            }
        } else {
            None
        }
    }

    /// Replaces the section at the given vertical index, marking the chunk
    /// dirty.  Indices outside the column are ignored.
    pub fn set_section(&mut self, section_y: i32, section: ChunkSection, now: u64)
        requires
            old(self).wf(),
            section.wf(),
        ensures
            final(self).wf(),
            0 <= section_y < 16 ==> {
                &&& final(self).sections@ == old(self).sections@.update(
                    section_y as int,
                    Some(section),
                )
                &&& final(self).is_dirty
                &&& final(self).last_modified == now
            },
            !(0 <= section_y < 16) ==> *final(self) == *old(self),
            final(self).position == old(self).position,
            final(self).created_at == old(self).created_at,
            final(self).model() == model_set_section(
                old(self).model(),
                section_y as int,
                section.blocks@,
                now,
            ),
    {
        if 0 <= section_y && section_y < 16 {
            let idx = section_y as usize;
            let _ = self.sections.remove(idx);
            self.sections.insert(idx, Some(section));
            proof {
                assert(self.sections@ =~= old(self).sections@.update(
                    section_y as int,
                    self.sections@[section_y as int],
                ));
            }
            self.is_dirty = true;
            self.last_modified = now;
            proof {
                assert(self.model().sections =~~= model_set_section(
                    old(self).model(),
                    section_y as int,
                    section.blocks@,
                    now,
                ).sections);
                assert(self.model() =~~= model_set_section(
                    old(self).model(),
                    section_y as int,
                    section.blocks@,
                    now,
                ));
            }
        }
    }

    /// Counts the non-air blocks over all sections of the chunk.
    pub fn count_non_air_blocks(&self) -> (r: usize)
        requires
            self.wf(),
        ensures
            r == spec_chunk_non_air(self.sections@),
    {
        let mut total: usize = 0;
        let mut i: usize = 0;
        while i < 16
            invariant
                self.wf(),
                i <= 16,
                total == spec_chunk_non_air(self.sections@.take(i as int)),
                total <= 4096 * i,
            decreases 16 - i,
        {
            proof {
                assert(self.sections@.take(i + 1).drop_last() =~= self.sections@.take(i as int));
                match self.sections@[i as int] {
                    Some(s) => {
                        crate::section::lemma_count_bounds(s.blocks@);
                    },
                    None => {},
                }
            }
            match &self.sections[i] {
                Some(section) => {
                    total = total + section.count_non_air_blocks();
                },
                None => {},
            }
            i = i + 1;
        }
        proof {
            assert(self.sections@.take(16) =~= self.sections@);
        }
        total
    }

    /// Marks the chunk as saved.
    pub fn mark_clean(&mut self)
        ensures
            *final(self) == (Chunk { is_dirty: false, ..*old(self) }),
            final(self).model() == (ChunkModel { is_dirty: false, ..old(self).model() }),
    {
        self.is_dirty = false;
        proof {
            assert(self.model() =~~= (ChunkModel { is_dirty: false, ..old(self).model() }));
        }
    }

    /// Marks the chunk as holding unsaved changes.
    pub fn mark_dirty(&mut self)
        ensures
            *final(self) == (Chunk { is_dirty: true, ..*old(self) }),
    {
        self.is_dirty = true;
    }

    /// Whether the chunk holds unsaved changes.
    pub fn is_dirty(&self) -> (r: bool)
        ensures
            r == self.is_dirty,
    {
        self.is_dirty
    }

    /// The position of this chunk.
    pub fn position(&self) -> (r: ChunkVector)
        ensures
            r == self.position,
    {
        self.position
    }

    /// Creates a deep copy of this chunk.
    pub fn clone_chunk(&self) -> (r: Chunk)
        requires
            self.wf(),
        ensures
            r.wf(),
            r.equiv(self),
            r.model() == self.model(),
            r.position == self.position,
            r.is_dirty == self.is_dirty,
    {
        let mut sections: Vec<Option<ChunkSection>> = Vec::new();
        let mut i: usize = 0;
        while i < 16
            invariant
                self.wf(),
                i <= 16,
                sections@.len() == i,
                forall|k: int|
                    0 <= k < i ==> opt_section_equiv(#[trigger] sections@[k], self.sections@[k])
                        && opt_section_wf(sections@[k]),
            decreases 16 - i,
        {
            match &self.sections[i] {
                Some(section) => {
                    sections.push(Some(section.clone_section()));
                },
                None => {
                    sections.push(None);
                },
            }
            i = i + 1;
        }
        let copy = Chunk {
            position: self.position,
            sections,
            last_modified: self.last_modified,
            is_dirty: self.is_dirty,
            created_at: self.created_at,
        };
        proof {
            assert(copy.model().sections =~~= self.model().sections);
            assert(copy.model() =~~= self.model());
        }
        copy
    }

    /// After one section slot was rewritten with one cell changed, every
    /// other cell of the chunk reads as before.
    proof fn lemma_frame_after_cell_update(&self, prev: Chunk, x: int, y: int, z: int)
        requires
            0 <= x < 16,
            0 <= y < 256,
            0 <= z < 16,
            prev.wf(),
            self.sections@.len() == 16,
            forall|i: int|
                0 <= i < 16 && i != y / 16 ==> self.sections@[i] == prev.sections@[i],
            self.sections@[y / 16] is Some,
            ({
                let s = self.sections@[y / 16]->Some_0;
                let prev_blocks = match prev.sections@[y / 16] {
                    Some(p) => p.blocks@,
                    None => Seq::new(4096, |i: int| 0u32),
                };
                s.blocks@ =~= prev_blocks.update(
                    crate::pos::spec_chunk_index(x, y % 16, z),
                    s.blocks@[crate::pos::spec_chunk_index(x, y % 16, z)],
                )
            }),
        ensures
            forall|x2: int, y2: int, z2: int|
                !(x2 == x && y2 == y && z2 == z) ==> self.spec_block_at(x2, y2, z2)
                    == prev.spec_block_at(x2, y2, z2),
    {
        assert(((0u32 >> 16) & 0xFFFF) == 0u32) by (bit_vector);
        assert((0u32 & 0xFFFF) == 0u32) by (bit_vector);
        assert forall|x2: int, y2: int, z2: int|
            !(x2 == x && y2 == y && z2 == z) implies self.spec_block_at(x2, y2, z2)
            == prev.spec_block_at(x2, y2, z2) by {
            if 0 <= x2 < 16 && 0 <= y2 < 256 && 0 <= z2 < 16 {
                if y2 / 16 == y / 16 {
                    let idx = crate::pos::spec_chunk_index(x, y % 16, z);
                    let idx2 = crate::pos::spec_chunk_index(x2, y2 % 16, z2);
                    if idx2 != idx {
                    } else {
                        crate::pos::lemma_chunk_index_injective(x, y % 16, z, x2, y2 % 16, z2);
                        assert(16 * (y / 16) + y % 16 == y);
                        assert(16 * (y2 / 16) + y2 % 16 == y2);
                        assert(false);
                    }
                }
            }
        }
    }
}

/// The block stored at a local position of a chunk value; air for a
/// missing section and for positions outside the column.
pub open spec fn model_block_at(m: ChunkModel, x: int, y: int, z: int) -> Block {
    if 0 <= x < 16 && 0 <= y < 256 && 0 <= z < 16 {
        match m.sections[y / 16] {
            Some(cells) => crate::block::spec_unpack(
                cells[crate::pos::spec_chunk_index(x, y % 16, z)],
            ),
            None => air(),
        }
    } else {
        air()
    }
}

/// Reading a chunk agrees with reading its value.
pub proof fn lemma_block_at_model(c: &Chunk)
    requires
        c.sections@.len() == 16,
    ensures
        forall|x: int, y: int, z: int| #[trigger] c.spec_block_at(x, y, z) == model_block_at(
            c.model(),
            x,
            y,
            z,
        ),
        forall|i: int|
            0 <= i < 16 ==> (c.spec_has_section(i) <==> c.model().sections[i] is Some),
{
}

/// Two well-formed chunks with equal models carry the same data: the
/// cached non-air counters are determined by the cells.
pub proof fn lemma_equal_models_equiv(c1: &Chunk, c2: &Chunk)
    requires
        c1.wf(),
        c2.wf(),
        c1.model() == c2.model(),
    ensures
        c1.equiv(c2),
{
    assert(c1.sections@.len() == c1.model().sections.len());
    assert(c2.sections@.len() == c2.model().sections.len());
    assert forall|i: int| 0 <= i < c1.sections@.len() implies opt_section_equiv(
        #[trigger] c1.sections@[i],
        c2.sections@[i],
    ) by {
        assert(c1.model().sections[i] == c2.model().sections[i]);
        assert(opt_section_view(c1.sections@[i]) == opt_section_view(c2.sections@[i]));
        assert(opt_section_wf(c1.sections@[i]));
        assert(opt_section_wf(c2.sections@[i]));
    }
}

/// The number of non-air cells over a sequence of optional sections.
pub open spec fn spec_chunk_non_air(s: Seq<Option<ChunkSection>>) -> int
    decreases s.len(),
{
    if s.len() == 0 {
        0
    } else {
        spec_chunk_non_air(s.drop_last()) + match s.last() {
            Some(sec) => count_non_air(sec.blocks@),
            None => 0int,
        }
    }
}

} // verus!
