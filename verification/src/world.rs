//! The world: a chunk provider together with world-level state — identity,
//! time of day, weather, and the spawn point.

use crate::block::Block;
use crate::chunk::{model_block_at, model_set_block, Chunk, ChunkModel};
use crate::collection::count_dirty;
use crate::config::fresh_world_id;
use crate::pos::{abs_diff, coord_in_range, BlockVector, ChunkVector};
use crate::provider::{ChunkProvider, MemoryChunkProvider};
use vstd::prelude::*;

verus! {

/// A game world.
#[derive(Debug)]
pub struct World {
    /// The unique identifier of this world, the 128 bits of its UUID.
    pub id: u128,
    /// The name of the world.
    pub name: String,
    /// The seed used for terrain generation.
    pub seed: i64,
    /// The provider that supplies chunks for this world.
    pub chunk_provider: MemoryChunkProvider,
    /// The time of day in ticks, always below the 24000 ticks of one day.
    pub time: u64,
    /// Whether it is raining.
    pub is_raining: bool,
    /// Whether it is thundering.
    pub is_thundering: bool,
    /// The spawn position for new players.
    pub spawn_position: BlockVector,
    /// The creation time of the world, epoch seconds.
    pub created_at: u64,
    /// The last time the world was played, epoch seconds.
    pub last_played: u64,
}

/// The Manhattan distance of two chunk positions.
pub open spec fn spec_chunk_dist(a: ChunkVector, b: ChunkVector) -> int {
    abs_diff(a.x as int, b.x as int) + abs_diff(a.y as int, b.y as int) + abs_diff(
        a.z as int,
        b.z as int,
    )
}

/// Whether a chunk position lies within the given Manhattan radius of
/// some active position.
pub open spec fn spec_near_any(p: ChunkVector, active: Seq<ChunkVector>, radius: int) -> bool {
    exists|t: int| 0 <= t < active.len() && spec_chunk_dist(p, #[trigger] active[t]) <= radius
}

/// The chunk value a world observes for a chunk position: the cached
/// chunk when one is loaded, else the chunk its generator would create.
pub open spec fn spec_resident_model(w: &World, cp: ChunkVector) -> ChunkModel {
    match w.chunk_provider.spec_cached(cp) {
        Some(c) => c.model(),
        None => w.chunk_provider.spec_generated(cp),
    }
}

impl World {
    /// A world is well formed when its provider is and the time of day
    /// lies within one day.
    pub open spec fn wf(&self) -> bool {
        &&& self.chunk_provider.wf()
        &&& self.time < 24000
    }

    /// Creates a new world over the given provider, with a fresh random
    /// identity, time zero, clear weather, and the default spawn point.
    pub fn new(name: &str, seed: i64, chunk_provider: MemoryChunkProvider, now: u64) -> (r:
        World)
        requires
            chunk_provider.wf(),
        ensures
            r.wf(),
            r.name@ == name@,
            r.seed == seed,
            r.chunk_provider == chunk_provider,
            r.time == 0,
            !r.is_raining,
            !r.is_thundering,
            r.spawn_position == (BlockVector { x: 0, y: 64, z: 0 }),
            r.created_at == now,
            r.last_played == now,
    {
        World {
            id: fresh_world_id(),
            name: name.to_owned(),
            seed,
            chunk_provider,
            time: 0,
            is_raining: false,
            is_thundering: false,
            spawn_position: BlockVector { x: 0, y: 64, z: 0 },
            created_at: now,
            last_played: now,
        }
    }

    /// Gets the chunk at a position, generating and caching it on a miss.
    pub fn get_chunk(&mut self, position: ChunkVector) -> (r: Chunk)
        requires
            old(self).wf(),
            coord_in_range(position.x as int),
            coord_in_range(position.y as int),
            coord_in_range(position.z as int),
        ensures
            final(self).wf(),
            r.wf(),
            r.position == position,
            r.model() == spec_resident_model(old(self), position),
            final(self).chunk_provider.spec_cached(position) matches Some(c) && c.model()
                == r.model(),
            forall|q: ChunkVector|
                q != position ==> #[trigger] final(self).chunk_provider.spec_cached(q) == old(
                    self,
                ).chunk_provider.spec_cached(q),
            final(self).time == old(self).time,
    {
        self.chunk_provider.get_chunk(position)
    }

    /// Whether a chunk is cached for a position.
    pub fn chunk_exists(&self, position: ChunkVector) -> (r: bool)
        requires
            self.wf(),
        ensures
            r == (self.chunk_provider.spec_cached(position) is Some),
    {
        self.chunk_provider.chunk_exists(position)
    }

    /// Gets the chunk at a position only if it is cached.
    pub fn get_chunk_if_loaded(&self, position: ChunkVector) -> (r: Option<Chunk>)
        requires
            self.wf(),
        ensures
            r is Some <==> self.chunk_provider.spec_cached(position) is Some,
            r matches Some(c) ==> ({
                &&& c.wf()
                &&& self.chunk_provider.spec_cached(position) matches Some(s) && c.model()
                    == s.model()
            }),
    {
        self.chunk_provider.get_chunk_if_loaded(position)
    }

    /// Reads the block at a world position, generating the owning chunk
    /// on a miss; positions outside the world's vertical range read as
    /// air.
    pub fn get_block(&mut self, position: BlockVector) -> (r: Block)
        requires
            old(self).wf(),
            coord_in_range(position.x as int),
            coord_in_range(position.y as int),
            coord_in_range(position.z as int),
        ensures
            final(self).wf(),
            ({
                let cp = ChunkVector {
                    x: crate::pos::floor_div_16(position.x as int) as i32,
                    y: crate::pos::floor_div_16(position.y as int) as i32,
                    z: crate::pos::floor_div_16(position.z as int) as i32,
                };
                &&& r == model_block_at(
                    spec_resident_model(old(self), cp),
                    position.x as int % 16,
                    position.y as int,
                    position.z as int % 16,
                )
                &&& final(self).chunk_provider.spec_cached(cp) matches Some(c) && c.model()
                    == spec_resident_model(old(self), cp)
                &&& forall|q: ChunkVector|
                    q != cp ==> #[trigger] final(self).chunk_provider.spec_cached(q) == old(
                        self,
                    ).chunk_provider.spec_cached(q)
            }),
            final(self).time == old(self).time,
    {
        let chunk_pos = position.to_chunk();
        let chunk = self.get_chunk(chunk_pos);
        proof {
            crate::chunk::lemma_block_at_model(&chunk);
        }
        if position.y < 0 || position.y >= 256 {
            return Block::new(0);
        }
        let (local_x, _, local_z) = crate::pos::block_to_local(position.x, 0, position.z);
        match chunk.get_block(local_x, position.y as usize, local_z) {
            Some(b) => b,
            None => Block::new(0),
        }
    }

    /// Writes the block at a world position, generating the owning chunk
    /// on a miss.  Returns whether the write happened; positions outside
    /// the world's vertical range are rejected.
    pub fn set_block(&mut self, position: BlockVector, block: Block, now: u64) -> (r: bool)
        requires
            old(self).wf(),
            coord_in_range(position.x as int),
            coord_in_range(position.y as int),
            coord_in_range(position.z as int),
        ensures
            final(self).wf(),
            r == (0 <= position.y < 256),
            ({
                let cp = ChunkVector {
                    x: crate::pos::floor_div_16(position.x as int) as i32,
                    y: crate::pos::floor_div_16(position.y as int) as i32,
                    z: crate::pos::floor_div_16(position.z as int) as i32,
                };
                let base = spec_resident_model(old(self), cp);
                &&& final(self).chunk_provider.spec_cached(cp) matches Some(c) && c.model() == (
                if r {
                    model_set_block(
                        base,
                        position.x as int % 16,
                        position.y as int,
                        position.z as int % 16,
                        block,
                        now,
                    )
                } else {
                    base
                })
                &&& forall|q: ChunkVector|
                    q != cp ==> #[trigger] final(self).chunk_provider.spec_cached(q) == old(
                        self,
                    ).chunk_provider.spec_cached(q)
            }),
            final(self).time == old(self).time,
    {
        let chunk_pos = position.to_chunk();
        let mut chunk = self.get_chunk(chunk_pos);
        let ok = chunk.set_block_at(&position, block, now);
        proof {
            if 0 <= position.y < 256 {
                assert(chunk.model() == model_set_block(
                    spec_resident_model(old(self), chunk_pos),
                    position.x as int % 16,
                    position.y as int,
                    position.z as int % 16,
                    block,
                    now,
                ));
            }
        }
        self.chunk_provider.store_chunk(chunk);
        ok
    }

    /// Sets the time of day, wrapped into one day.
    pub fn set_time(&mut self, time: u64)
        ensures
            *final(self) == (World { time: time % 24000, ..*old(self) }),
            final(self).time < 24000,
    {
        self.time = time % 24000;
    }

    /// The current time of day.
    pub fn get_time(&self) -> (r: u64)
        ensures
            r == self.time,
    {
        self.time
    }

    /// Advances the time of day, wrapping at the end of the day.
    pub fn increment_time(&mut self, delta: u64)
        requires
            old(self).wf(),
        ensures
            *final(self) == (World {
                time: (((old(self).time + delta) % 24000) as u64),
                ..*old(self)
            }),
            final(self).wf(),
    {
        let wrapped = delta % 24000;
        proof {
            let t = self.time as int;
            let d = delta as int;
            assert((t + d) % 24000 == (t + d % 24000) % 24000) by (nonlinear_arith)
                requires
                    t >= 0,
                    d >= 0,
            ;
        }
        self.time = (self.time + wrapped) % 24000;
    }

    /// Records that the world is being played now.
    pub fn update_last_played(&mut self, now: u64)
        ensures
            *final(self) == (World { last_played: now, ..*old(self) }),
    {
        self.last_played = now;
    }

    /// Sets the spawn position for new players.
    pub fn set_spawn_position(&mut self, position: BlockVector)
        ensures
            *final(self) == (World { spawn_position: position, ..*old(self) }),
    {
        self.spawn_position = position;
    }

    /// Persists every chunk that holds unsaved changes, through the
    /// provider's save operation.  Returns how many chunks were saved.
    pub fn save_dirty_chunks(&self) -> (r: usize)
        requires
            self.wf(),
        ensures
            r == count_dirty(self.chunk_provider.cache.entries@),
    {
        let dirty = self.chunk_provider.cache.get_dirty_chunks();
        let mut saved: usize = 0;
        let mut i: usize = 0;
        while i < dirty.len()
            invariant
                self.wf(),
                i <= dirty@.len(),
                saved == i,
                forall|k: int|
                    0 <= k < dirty@.len() ==> self.chunk_provider.cache.spec_get(
                        #[trigger] dirty@[k],
                    ) is Some,
            decreases dirty@.len() - i,
        {
            match self.chunk_provider.cache.get_chunk(dirty[i]) {
                Some(chunk) => {
                    match self.chunk_provider.save_chunk(chunk) {
                        Ok(_) => {
                            saved = saved + 1;
                        },
                        Err(_) => {},
                    }
                },
                None => {},
            }
            i = i + 1;
        }
        saved
    }

    /// Evicts every cached chunk whose Manhattan distance to all of the
    /// active positions exceeds the radius.  Returns how many chunks were
    /// evicted.
    pub fn unload_distant_chunks(&mut self, active_positions: &Vec<ChunkVector>, radius: i32) -> (r:
        usize)
        requires
            old(self).wf(),
            radius >= 0,
        ensures
            final(self).wf(),
            forall|q: ChunkVector|
                #[trigger] final(self).chunk_provider.spec_cached(q) == if spec_near_any(
                    q,
                    active_positions@,
                    radius as int,
                ) {
                    old(self).chunk_provider.spec_cached(q)
                } else {
                    Option::<Chunk>::None
                },
            r == old(self).chunk_provider.cache.entries@.len()
                - final(self).chunk_provider.cache.entries@.len(),
            final(self).time == old(self).time,
    {
        let positions = self.chunk_provider.cache.get_chunk_positions();
        proof {
            assert forall|i: int, j: int|
                0 <= i < j < positions@.len() implies positions@[i] != positions@[j] by {
                assert(positions@[i] == self.chunk_provider.cache.entries@[i].position);
                assert(positions@[j] == self.chunk_provider.cache.entries@[j].position);
            }
        }
        let mut evicted: usize = 0;
        let mut k: usize = 0;
        while k < positions.len()
            invariant
                self.chunk_provider.wf(),
                self.time == old(self).time,
                self.time < 24000,
                radius >= 0,
                k <= positions@.len(),
                positions@ == old(self).chunk_provider.cache.entries@.map_values(
                    |c: Chunk| c.position,
                ),
                forall|i: int, j: int|
                    0 <= i < j < positions@.len() ==> positions@[i] != positions@[j],
                forall|q: ChunkVector|
                    #[trigger] self.chunk_provider.spec_cached(q) == if (exists|i: int|
                        0 <= i < k && positions@[i] == q) && !spec_near_any(
                        q,
                        active_positions@,
                        radius as int,
                    ) {
                        Option::<Chunk>::None
                    } else {
                        old(self).chunk_provider.spec_cached(q)
                    },
                evicted == old(self).chunk_provider.cache.entries@.len()
                    - self.chunk_provider.cache.entries@.len(),
                self.chunk_provider.cache.entries@.len()
                    <= old(self).chunk_provider.cache.entries@.len(),
            decreases positions@.len() - k,
        {
            let p = positions[k];
            let ghost pre = *self;
            let mut near = false;
            let mut t: usize = 0;
            while t < active_positions.len()
                invariant
                    t <= active_positions@.len(),
                    near == exists|s: int|
                        0 <= s < t && spec_chunk_dist(p, #[trigger] active_positions@[s])
                            <= radius,
                decreases active_positions@.len() - t,
            {
                let a = active_positions[t];
                let dx = if p.x >= a.x {
                    p.x as i64 - a.x as i64
                } else {
                    a.x as i64 - p.x as i64
                };
                let dy = if p.y >= a.y {
                    p.y as i64 - a.y as i64
                } else {
                    a.y as i64 - p.y as i64
                };
                let dz = if p.z >= a.z {
                    p.z as i64 - a.z as i64
                } else {
                    a.z as i64 - p.z as i64
                };
                if dx + dy + dz <= radius as i64 {
                    near = true;
                }
                t = t + 1;
            }
            if !near {
                match self.chunk_provider.cache.remove_chunk(p) {
                    Some(_) => {
                        evicted = evicted + 1;
                    },
                    None => {},
                }
            }
            proof {
                assert forall|q: ChunkVector| true implies #[trigger] self.chunk_provider.spec_cached(
                    q,
                ) == (if (exists|i: int| 0 <= i < k + 1 && positions@[i] == q) && !spec_near_any(
                    q,
                    active_positions@,
                    radius as int,
                ) {
                    Option::<Chunk>::None
                } else {
                    old(self).chunk_provider.spec_cached(q)
                }) by {
                    let inside = (exists|i: int| 0 <= i < k + 1 && positions@[i] == q)
                        && !spec_near_any(q, active_positions@, radius as int);
                    if inside {
                        let i = choose|i: int| 0 <= i < k + 1 && positions@[i] == q;
                        if i < k {
                            assert(pre.chunk_provider.spec_cached(q) is None);
                            assert(q != p);
                        } else {
                            assert(q == p);
                            assert(!near);
                        }
                    } else {
                        if q == p {
                            assert(forall|i: int| 0 <= i < k ==> positions@[i] != q);
                            assert(spec_near_any(q, active_positions@, radius as int));
                            assert(pre.chunk_provider.spec_cached(q) == old(
                                self,
                            ).chunk_provider.spec_cached(q));
                        } else {
                            assert(self.chunk_provider.spec_cached(q)
                                == pre.chunk_provider.spec_cached(q));
                            assert((exists|i: int| 0 <= i < k && positions@[i] == q) <==> (exists|
                                i: int,
                            | 0 <= i < k + 1 && positions@[i] == q));
                        }
                    }
                }
            }
            k = k + 1;
        }
        proof {
            assert forall|q: ChunkVector| true implies #[trigger] self.chunk_provider.spec_cached(
                q,
            ) == (if spec_near_any(q, active_positions@, radius as int) {
                old(self).chunk_provider.spec_cached(q)
            } else {
                Option::<Chunk>::None
            }) by {
                if !spec_near_any(q, active_positions@, radius as int) {
                    if old(self).chunk_provider.spec_cached(q) is Some {
                        crate::collection::lemma_seq_get_some(
                            old(self).chunk_provider.cache.entries@,
                            q,
                        );
                        let i = choose|i: int|
                            0 <= i < old(self).chunk_provider.cache.entries@.len()
                                && #[trigger] old(self).chunk_provider.cache.entries@[i]
                                == old(self).chunk_provider.spec_cached(q)->Some_0 && old(
                                self,
                            ).chunk_provider.cache.entries@[i].position == q;
                        assert(positions@[i] == q);
                    }
                }
            }
        }
        evicted
    }
}

} // verus!
