//! The chunk registry: a mapping from chunk position to chunk, with lookup,
//! insert, remove, radius queries and dirty-set extraction.

use crate::block::Block;
use crate::chunk::Chunk;
use crate::pos::{BlockVector, ChunkVector};
use vstd::prelude::*;

verus! {

/// A registry of loaded chunks keyed by their position.  At most one chunk
/// is held per position.
#[derive(Debug)]
pub struct ChunkCollection {
    /// The loaded chunks; their positions are pairwise distinct.
    pub entries: Vec<Chunk>,
}

/// Whether the chunks of a sequence have pairwise distinct positions.
pub open spec fn positions_unique(s: Seq<Chunk>) -> bool {
    forall|i: int, j: int|
        0 <= i < j < s.len() ==> (#[trigger] s[i]).position != (#[trigger] s[j]).position
}

/// The chunk stored for a position: the last chunk of the sequence that
/// carries it, if any.
pub open spec fn seq_get(s: Seq<Chunk>, p: ChunkVector) -> Option<Chunk>
    decreases s.len(),
{
    if s.len() == 0 {
        None
    } else if s.last().position == p {
        Some(s.last())
    } else {
        seq_get(s.drop_last(), p)
    }
}

/// The number of stored chunks whose dirty flag is set.
pub open spec fn count_dirty(s: Seq<Chunk>) -> int
    decreases s.len(),
{
    if s.len() == 0 {
        0
    } else {
        count_dirty(s.drop_last()) + if s.last().is_dirty {
            1int
        } else {
            0int
        }
    }
}

/// A position is stored exactly when some entry carries it.
pub proof fn lemma_seq_get_none(s: Seq<Chunk>, p: ChunkVector)
    ensures
        seq_get(s, p) is None <==> forall|i: int| 0 <= i < s.len() ==> (#[trigger] s[i]).position
            != p,
    decreases s.len(),
{
    if s.len() > 0 {
        lemma_seq_get_none(s.drop_last(), p);
        if s.last().position == p {
            assert(s[s.len() - 1].position == p);
        } else if seq_get(s.drop_last(), p) is None {
            assert forall|i: int| 0 <= i < s.len() implies (#[trigger] s[i]).position != p by {
                if i < s.len() - 1 {
                    assert(s[i] == s.drop_last()[i]);
                }
            }
        } else {
            let i0 = choose|i: int|
                0 <= i < s.drop_last().len() && (#[trigger] s.drop_last()[i]).position == p;
            assert(s[i0] == s.drop_last()[i0]);
        }
    }
}

/// A stored chunk is one of the entries, and carries the position it is
/// stored under.
pub proof fn lemma_seq_get_some(s: Seq<Chunk>, p: ChunkVector)
    requires
        seq_get(s, p) is Some,
    ensures
        exists|i: int|
            0 <= i < s.len() && #[trigger] s[i] == seq_get(s, p)->Some_0 && s[i].position == p,
    decreases s.len(),
{
    if s.last().position == p {
        assert(s[s.len() - 1] == seq_get(s, p)->Some_0);
    } else {
        lemma_seq_get_some(s.drop_last(), p);
        let i = choose|i: int|
            0 <= i < s.len() - 1 && #[trigger] s.drop_last()[i] == seq_get(s.drop_last(), p)->Some_0
                && s.drop_last()[i].position == p;
        assert(s[i] == s.drop_last()[i]);
    }
}

/// With pairwise distinct positions, lookup at an entry's position yields
/// exactly that entry.
pub proof fn lemma_seq_get_at_index(s: Seq<Chunk>, i: int)
    requires
        positions_unique(s),
        0 <= i < s.len(),
    ensures
        seq_get(s, s[i].position) == Some(s[i]),
    decreases s.len(),
{
    if i == s.len() - 1 {
    } else {
        assert(s[i].position != s.last().position);
        lemma_seq_get_at_index(s.drop_last(), i);
        assert(s.drop_last()[i] == s[i]);
    }
}

/// Appending an entry changes lookups only at its position.
pub proof fn lemma_seq_get_push(s: Seq<Chunk>, c: Chunk, p: ChunkVector)
    ensures
        seq_get(s.push(c), p) == if c.position == p {
            Some(c)
        } else {
            seq_get(s, p)
        },
{
    assert(s.push(c).drop_last() =~= s);
}

/// Removing the entry at an index erases its position from lookups and
/// leaves every other position unchanged.
pub proof fn lemma_seq_get_remove(s: Seq<Chunk>, i: int, p: ChunkVector)
    requires
        positions_unique(s),
        0 <= i < s.len(),
    ensures
        seq_get(s.remove(i), p) == if s[i].position == p {
            Option::<Chunk>::None
        } else {
            seq_get(s, p)
        },
    decreases s.len(),
{
    if s[i].position == p {
        lemma_seq_get_none(s, p);
        lemma_seq_get_none(s.remove(i), p);
        if seq_get(s.remove(i), p) is Some {
            lemma_seq_get_some(s.remove(i), p);
            let k = choose|k: int|
                0 <= k < s.remove(i).len() && #[trigger] s.remove(i)[k] == seq_get(
                    s.remove(i),
                    p,
                )->Some_0 && s.remove(i)[k].position == p;
            let orig = if k < i {
                k
            } else {
                k + 1
            };
            assert(s[orig] == s.remove(i)[k]);
            assert(false);
        }
    } else {
        if i == s.len() - 1 {
            assert(s.remove(i) =~= s.drop_last());
        } else {
            if s.last().position == p {
                assert(s.remove(i).last() == s.last());
                assert(s.remove(i).len() == s.len() - 1);
            } else {
                assert(s.remove(i).last() == s.last());
                assert(s.remove(i).drop_last() =~= s.drop_last().remove(i));
                assert(positions_unique(s.drop_last()));
                lemma_seq_get_remove(s.drop_last(), i, p);
            }
        }
    }
}

/// Removing an entry keeps the remaining positions pairwise distinct.
pub proof fn lemma_unique_remove(s: Seq<Chunk>, i: int)
    requires
        positions_unique(s),
        0 <= i < s.len(),
    ensures
        positions_unique(s.remove(i)),
{
    let t = s.remove(i);
    assert forall|a: int, b: int| 0 <= a < b < t.len() implies (#[trigger] t[a]).position
        != (#[trigger] t[b]).position by {
        let oa = if a < i {
            a
        } else {
            a + 1
        };
        let ob = if b < i {
            b
        } else {
            b + 1
        };
        assert(t[a] == s[oa]);
        assert(t[b] == s[ob]);
    }
}

impl ChunkCollection {
    /// A registry is well formed when its entries are well-formed chunks
    /// with pairwise distinct positions.
    pub open spec fn wf(&self) -> bool {
        &&& positions_unique(self.entries@)
        &&& forall|i: int| 0 <= i < self.entries@.len() ==> (#[trigger] self.entries@[i]).wf()
    }

    /// The chunk stored for a position.
    pub open spec fn spec_get(&self, p: ChunkVector) -> Option<Chunk> {
        seq_get(self.entries@, p)
    }

    /// Creates a new empty registry.
    pub fn new() -> (r: ChunkCollection)
        ensures
            r.wf(),
            r.entries@.len() == 0,
            forall|p: ChunkVector| r.spec_get(p) is None,
    {
        ChunkCollection { entries: Vec::new() }
    }

    /// Finds the index of the entry stored at a position.
    fn find_index(&self, position: ChunkVector) -> (r: Option<usize>)
        requires
            self.wf(),
        ensures
            match r {
                Some(i) => i < self.entries@.len() && self.entries@[i as int].position == position
                    && self.spec_get(position) == Some(self.entries@[i as int]),
                None => self.spec_get(position) is None,
            },
    {
        let mut i: usize = 0;
        while i < self.entries.len()
            invariant
                self.wf(),
                i <= self.entries@.len(),
                forall|j: int| 0 <= j < i ==> (#[trigger] self.entries@[j]).position != position,
            decreases self.entries@.len() - i,
        {
            if self.entries[i].position == position {
                proof {
                    lemma_seq_get_at_index(self.entries@, i as int);
                }
                return Some(i);
            }
            i = i + 1;
        }
        proof {
            lemma_seq_get_none(self.entries@, position);
        }
        None
    }

    /// Looks up the chunk at a position.
    pub fn get_chunk(&self, position: ChunkVector) -> (r: Option<&Chunk>)
        requires
            self.wf(),
        ensures
            match r {
                Some(c) => self.spec_get(position) == Some(*c) && c.wf() && c.position
                    == position,
                None => self.spec_get(position) is None,
            },
    {
        match self.find_index(position) {
            Some(i) => Some(&self.entries[i]),
            None => None,
        }
    }

    /// Whether a chunk is stored at a position.
    pub fn contains_chunk(&self, position: ChunkVector) -> (r: bool)
        requires
            self.wf(),
        ensures
            r == (self.spec_get(position) is Some),
    {
        self.get_chunk(position).is_some()
    }

    /// Inserts a chunk, replacing any chunk previously stored at the same
    /// position: the last writer wins.
    pub fn insert_chunk(&mut self, chunk: Chunk)
        requires
            old(self).wf(),
            chunk.wf(),
        ensures
            final(self).wf(),
            final(self).spec_get(chunk.position) == Some(chunk),
            forall|p: ChunkVector|
                p != chunk.position ==> #[trigger] final(self).spec_get(p) == old(self).spec_get(
                    p,
                ),
            final(self).entries@.len() == old(self).entries@.len() + (if old(self).spec_get(
                chunk.position,
            ) is Some {
                0int
            } else {
                1int
            }),
    {
        let ghost prev = self.entries@;
        match self.find_index(chunk.position) {
            Some(i) => {
                proof {
                    lemma_unique_remove(prev, i as int);
                }
                let _ = self.entries.remove(i);
                proof {
                    assert forall|p: ChunkVector| true implies seq_get(prev.remove(i as int), p)
                        == (if prev[i as int].position == p {
                        Option::<Chunk>::None
                    } else {
                        seq_get(prev, p)
                    }) by {
                        lemma_seq_get_remove(prev, i as int, p);
                    }
                    assert forall|k: int| 0 <= k < prev.remove(i as int).len() implies (
                    #[trigger] prev.remove(i as int)[k]).wf() by {
                        if k < i {
                            assert(prev.remove(i as int)[k] == prev[k]);
                        } else {
                            assert(prev.remove(i as int)[k] == prev[k + 1]);
                        }
                    }
                }
            },
            None => {},
        }
        let ghost mid = self.entries@;
        self.entries.push(chunk);
        proof {
            assert forall|p: ChunkVector| true implies seq_get(mid.push(chunk), p) == (if
                chunk.position == p {
                Some(chunk)
            } else {
                seq_get(mid, p)
            }) by {
                lemma_seq_get_push(mid, chunk, p);
            }
            assert forall|a: int, b: int|
                0 <= a < b < self.entries@.len() implies (#[trigger] self.entries@[a]).position
                != (#[trigger] self.entries@[b]).position by {
                if b == self.entries@.len() - 1 {
                    lemma_seq_get_none(mid, mid[a].position);
                    lemma_seq_get_at_index(mid, a);
                }
            }
        }
    }

    /// Removes and returns the chunk stored at a position.
    pub fn remove_chunk(&mut self, position: ChunkVector) -> (r: Option<Chunk>)
        requires
            old(self).wf(),
        ensures
            final(self).wf(),
            r == old(self).spec_get(position),
            final(self).spec_get(position) is None,
            forall|p: ChunkVector|
                p != position ==> #[trigger] final(self).spec_get(p) == old(self).spec_get(p),
            final(self).entries@.len() == old(self).entries@.len() - (if old(self).spec_get(
                position,
            ) is Some {
                1int
            } else {
                0int
            }),
    {
        let ghost prev = self.entries@;
        match self.find_index(position) {
            Some(i) => {
                proof {
                    lemma_unique_remove(prev, i as int);
                    assert forall|p: ChunkVector| true implies seq_get(prev.remove(i as int), p)
                        == (if prev[i as int].position == p {
                        Option::<Chunk>::None
                    } else {
                        seq_get(prev, p)
                    }) by {
                        lemma_seq_get_remove(prev, i as int, p);
                    }
                    assert forall|k: int| 0 <= k < prev.remove(i as int).len() implies (
                    #[trigger] prev.remove(i as int)[k]).wf() by {
                        if k < i {
                            assert(prev.remove(i as int)[k] == prev[k]);
                        } else {
                            assert(prev.remove(i as int)[k] == prev[k + 1]);
                        }
                    }
                }
                let removed = self.entries.remove(i);
                Some(removed)
            },
            None => None,
        }
    }

    /// The number of chunks stored.
    pub fn chunk_count(&self) -> (r: usize)
        requires
            self.wf(),
        ensures
            r == self.entries@.len(),
    {
        self.entries.len()
    }

    /// Removes every chunk from the registry.
    pub fn clear(&mut self)
        ensures
            final(self).wf(),
            final(self).entries@.len() == 0,
            forall|p: ChunkVector| final(self).spec_get(p) is None,
    {
        self.entries.clear();
    }

    /// The positions of all stored chunks.
    pub fn get_chunk_positions(&self) -> (r: Vec<ChunkVector>)
        requires
            self.wf(),
        ensures
            r@ == self.entries@.map_values(|c: Chunk| c.position),
    {
        let mut positions: Vec<ChunkVector> = Vec::new();
        let mut i: usize = 0;
        while i < self.entries.len()
            invariant
                i <= self.entries@.len(),
                positions@ == self.entries@.take(i as int).map_values(|c: Chunk| c.position),
            decreases self.entries@.len() - i,
        {
            positions.push(self.entries[i].position);
            proof {
                assert(self.entries@.take(i + 1).map_values(|c: Chunk| c.position)
                    =~= self.entries@.take(i as int).map_values(|c: Chunk| c.position).push(
                    self.entries@[i as int].position,
                ));
            }
            i = i + 1;
        }
        proof {
            assert(self.entries@.take(self.entries@.len() as int) =~= self.entries@);
        }
        positions
    }

    /// Copies of all stored chunks.
    pub fn get_all_chunks(&self) -> (r: Vec<Chunk>)
        requires
            self.wf(),
        ensures
            r@.len() == self.entries@.len(),
            forall|k: int|
                0 <= k < r@.len() ==> (#[trigger] r@[k]).wf() && r@[k].equiv(&self.entries@[k]),
    {
        let mut chunks: Vec<Chunk> = Vec::new();
        let mut i: usize = 0;
        while i < self.entries.len()
            invariant
                self.wf(),
                i <= self.entries@.len(),
                chunks@.len() == i,
                forall|k: int|
                    0 <= k < i ==> (#[trigger] chunks@[k]).wf() && chunks@[k].equiv(
                        &self.entries@[k],
                    ),
            decreases self.entries@.len() - i,
        {
            chunks.push(self.entries[i].clone_chunk());
            i = i + 1;
        }
        chunks
    }

    /// The chunks stored within the cube of the given radius around a
    /// center position: inclusive bounds on all three axes.
    pub fn get_chunks_in_radius(&self, center: ChunkVector, radius: i32) -> (r: Vec<Chunk>)
        requires
            self.wf(),
            0 <= radius,
        ensures
            forall|k: int|
                0 <= k < r@.len() ==> {
                    &&& in_chunk_cube((#[trigger] r@[k]).position, center, radius as int)
                    &&& self.spec_get(r@[k].position) is Some
                    &&& r@[k].equiv(&self.spec_get(r@[k].position)->Some_0)
                },
            forall|i: int|
                0 <= i < self.entries@.len() && in_chunk_cube(
                    (#[trigger] self.entries@[i]).position,
                    center,
                    radius as int,
                ) ==> exists|k: int| 0 <= k < r@.len() && (#[trigger] r@[k]).position
                    == self.entries@[i].position,
            forall|k1: int, k2: int|
                0 <= k1 < k2 < r@.len() ==> (#[trigger] r@[k1]).position != (
                #[trigger] r@[k2]).position,
    {
        let mut result: Vec<Chunk> = Vec::new();
        let mut i: usize = 0;
        while i < self.entries.len()
            invariant
                self.wf(),
                i <= self.entries@.len(),
                forall|k: int|
                    0 <= k < result@.len() ==> {
                        &&& in_chunk_cube(
                            (#[trigger] result@[k]).position,
                            center,
                            radius as int,
                        )
                        &&& self.spec_get(result@[k].position) is Some
                        &&& result@[k].equiv(&self.spec_get(result@[k].position)->Some_0)
                    },
                forall|j: int|
                    0 <= j < i && in_chunk_cube(
                        (#[trigger] self.entries@[j]).position,
                        center,
                        radius as int,
                    ) ==> exists|k: int| 0 <= k < result@.len() && (#[trigger] result@[k]).position
                        == self.entries@[j].position,
                forall|k: int|
                    0 <= k < result@.len() ==> exists|j: int|
                        0 <= j < i && (#[trigger] result@[k]).position
                            == self.entries@[j].position,
                forall|k1: int, k2: int|
                    0 <= k1 < k2 < result@.len() ==> (#[trigger] result@[k1]).position != (
                    #[trigger] result@[k2]).position,
            decreases self.entries@.len() - i,
        {
            let e = &self.entries[i];
            let px = e.position.x as i64;
            let py = e.position.y as i64;
            let pz = e.position.z as i64;
            let cx = center.x as i64;
            let cy = center.y as i64;
            let cz = center.z as i64;
            let rad = radius as i64;
            let inside = cx - rad <= px && px <= cx + rad && cy - rad <= py && py <= cy + rad
                && cz - rad <= pz && pz <= cz + rad;
            let ghost prev_res = result@;
            if inside {
                proof {
                    lemma_seq_get_at_index(self.entries@, i as int);
                }
                let c = e.clone_chunk();
                result.push(c);
            }
            proof {
                assert forall|j: int|
                    0 <= j < i + 1 && in_chunk_cube(
                        (#[trigger] self.entries@[j]).position,
                        center,
                        radius as int,
                    ) implies exists|k: int| 0 <= k < result@.len() && (#[trigger] result@[k]).position
                    == self.entries@[j].position by {
                    if j < i {
                        let k0 = choose|k: int|
                            0 <= k < prev_res.len() && (#[trigger] prev_res[k]).position
                                == self.entries@[j].position;
                        assert(result@[k0].position == self.entries@[j].position);
                    } else {
                        assert(result@[result@.len() - 1].position == self.entries@[j].position);
                    }
                }
                assert forall|k: int| 0 <= k < result@.len() implies exists|j: int|
                    0 <= j < i + 1 && (#[trigger] result@[k]).position
                        == self.entries@[j].position by {
                    if k < prev_res.len() {
                        let j0 = choose|j: int|
                            0 <= j < i && (#[trigger] prev_res[k]).position
                                == self.entries@[j].position;
                        assert(result@[k].position == self.entries@[j0].position);
                    } else {
                        assert(result@[k].position == self.entries@[i as int].position);
                    }
                }
                assert forall|k1: int, k2: int|
                    0 <= k1 < k2 < result@.len() implies (#[trigger] result@[k1]).position != (
                #[trigger] result@[k2]).position by {
                    if k2 == result@.len() - 1 && result@.len() > prev_res.len() {
                        let j0 = choose|j: int|
                            0 <= j < i && (#[trigger] prev_res[k1]).position
                                == self.entries@[j].position;
                        assert(result@[k1].position == self.entries@[j0].position);
                        assert(result@[k2].position == self.entries@[i as int].position);
                        assert(self.entries@[j0].position != self.entries@[i as int].position);
                    } else {
                        assert(prev_res[k1].position != prev_res[k2].position);
                    }
                }
            }
            i = i + 1;
        }
        result
    }

    /// The positions of the stored chunks whose dirty flag is set.
    pub fn get_dirty_chunks(&self) -> (r: Vec<ChunkVector>)
        requires
            self.wf(),
        ensures
            r@.len() == count_dirty(self.entries@),
            forall|k: int|
                0 <= k < r@.len() ==> {
                    &&& self.spec_get(#[trigger] r@[k]) is Some
                    &&& self.spec_get(r@[k])->Some_0.is_dirty
                },
            forall|i: int|
                0 <= i < self.entries@.len() && (#[trigger] self.entries@[i]).is_dirty
                    ==> exists|k: int| 0 <= k < r@.len() && #[trigger] r@[k]
                    == self.entries@[i].position,
    {
        let mut result: Vec<ChunkVector> = Vec::new();
        let mut i: usize = 0;
        while i < self.entries.len()
            invariant
                self.wf(),
                i <= self.entries@.len(),
                result@.len() == count_dirty(self.entries@.take(i as int)),
                forall|k: int|
                    0 <= k < result@.len() ==> {
                        &&& self.spec_get(#[trigger] result@[k]) is Some
                        &&& self.spec_get(result@[k])->Some_0.is_dirty
                    },
                forall|j: int|
                    0 <= j < i && (#[trigger] self.entries@[j]).is_dirty ==> exists|k: int|
                        0 <= k < result@.len() && #[trigger] result@[k]
                        == self.entries@[j].position,
            decreases self.entries@.len() - i,
        {
            let ghost prev_res = result@;
            proof {
                assert(self.entries@.take(i + 1).drop_last() =~= self.entries@.take(i as int));
            }
            if self.entries[i].is_dirty {
                proof {
                    lemma_seq_get_at_index(self.entries@, i as int);
                }
                result.push(self.entries[i].position);
            }
            proof {
                assert forall|j: int|
                    0 <= j < i + 1 && (#[trigger] self.entries@[j]).is_dirty implies exists|
                    k: int,
                |
                    0 <= k < result@.len() && #[trigger] result@[k]
                        == self.entries@[j].position by {
                    if j < i {
                        let k0 = choose|k: int|
                            0 <= k < prev_res.len() && #[trigger] prev_res[k]
                                == self.entries@[j].position;
                        assert(result@[k0] == self.entries@[j].position);
                    } else {
                        assert(result@[result@.len() - 1] == self.entries@[j].position);
                    }
                }
            }
            i = i + 1;
        }
        proof {
            assert(self.entries@.take(self.entries@.len() as int) =~= self.entries@);
        }
        result
    }

    /// Reads the block at a world position, resolving the owning chunk
    /// first.  The read succeeds exactly when that chunk is loaded, the
    /// height lies inside the column, and the section holding the cell has
    /// been written; it then returns exactly the stored block.
    pub fn get_block(&self, position: &BlockVector) -> (r: Option<Block>)
        requires
            self.wf(),
            crate::pos::coord_in_range(position.x as int),
            crate::pos::coord_in_range(position.y as int),
            crate::pos::coord_in_range(position.z as int),
        ensures
            ({
                let cp = ChunkVector {
                    x: crate::pos::floor_div_16(position.x as int) as i32,
                    y: crate::pos::floor_div_16(position.y as int) as i32,
                    z: crate::pos::floor_div_16(position.z as int) as i32,
                };
                &&& (r is Some <==> (self.spec_get(cp) is Some && 0 <= position.y < 256
                    && self.spec_get(cp)->Some_0.spec_has_section(position.y as int / 16)))
                &&& r matches Some(b) ==> b == self.spec_get(cp)->Some_0.spec_block_at(
                    position.x as int % 16,
                    position.y as int,
                    position.z as int % 16,
                )
            }),
    {
        let chunk_pos = position.to_chunk();
        match self.get_chunk(chunk_pos) {
            Some(chunk) => chunk.get_block_at(position),
            None => None,
        }
    }
}

/// Whether a chunk position lies inside the cube of the given radius
/// around a center.
pub open spec fn in_chunk_cube(p: ChunkVector, center: ChunkVector, radius: int) -> bool {
    &&& center.x - radius <= p.x <= center.x + radius
    &&& center.y - radius <= p.y <= center.y + radius
    &&& center.z - radius <= p.z <= center.z + radius
}

} // verus!
