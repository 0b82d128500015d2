//! Chunk providers: the component that mediates "chunk wanted" requests
//! across the cache and the terrain generator.

use crate::chunk::{Chunk, ChunkModel};
use crate::collection::ChunkCollection;
use crate::generator::{Generator, TerrainGenerator};
use crate::pos::{coord_in_range, ChunkVector};
use vstd::prelude::*;

verus! {

/// A failure to persist a chunk.
#[derive(Debug, Clone, Copy, PartialEq, Eq, Structural)]
pub enum SaveError {
    /// The backing storage could not take the chunk.
    StorageUnavailable,
}

/// A supplier of chunks, whether from its cache or by generation.
pub trait ChunkProvider: Sized {
    /// Whether this provider is in a usable state.
    spec fn wf(&self) -> bool;

    /// The chunk currently cached for a position.
    spec fn spec_cached(&self, position: ChunkVector) -> Option<Chunk>;

    /// The chunk value this provider creates for a position on a cache
    /// miss.
    spec fn spec_generated(&self, position: ChunkVector) -> ChunkModel;

    /// Whether a chunk is cached for a position; never triggers
    /// generation or loading.
    fn chunk_exists(&self, position: ChunkVector) -> (r: bool)
        requires
            self.wf(),
        ensures
            r == (self.spec_cached(position) is Some),
    ;

    /// Gets the chunk at a position, from the cache when it holds one and
    /// from the generator otherwise; a generated chunk is cached so that
    /// every later caller observes the same chunk.
    fn get_chunk(&mut self, position: ChunkVector) -> (r: Chunk)
        requires
            old(self).wf(),
            coord_in_range(position.x as int),
            coord_in_range(position.y as int),
            coord_in_range(position.z as int),
        ensures
            final(self).wf(),
            r.wf(),
            r.position == position,
            final(self).spec_cached(position) matches Some(c) && c.model() == r.model(),
            forall|q: ChunkVector|
                q != position ==> #[trigger] final(self).spec_cached(q) == old(self).spec_cached(
                    q,
                ),
            match old(self).spec_cached(position) {
                Some(c0) => r.model() == c0.model() && final(self).spec_cached(position) == old(
                    self,
                ).spec_cached(position),
                None => r.model() == old(self).spec_generated(position),
            },
            final(self).spec_generated(position) == old(self).spec_generated(position),
    ;

    /// Gets the chunk at a position only if it is cached; never triggers
    /// generation.
    fn get_chunk_if_loaded(&self, position: ChunkVector) -> (r: Option<Chunk>)
        requires
            self.wf(),
        ensures
            r is Some <==> self.spec_cached(position) is Some,
            r matches Some(c) ==> ({
                &&& c.wf()
                &&& self.spec_cached(position) matches Some(s) && c.model() == s.model()
            }),
    ;

    /// Evicts the chunk at a position from the cache; the chunk is not
    /// saved.
    fn unload_chunk(&mut self, position: ChunkVector) -> (r: bool)
        requires
            old(self).wf(),
        ensures
            final(self).wf(),
            r == (old(self).spec_cached(position) is Some),
            final(self).spec_cached(position) is None,
            forall|q: ChunkVector|
                q != position ==> #[trigger] final(self).spec_cached(q) == old(self).spec_cached(
                    q,
                ),
    ;

    /// Persists a chunk.
    fn save_chunk(&self, chunk: &Chunk) -> (r: Result<(), SaveError>)
        requires
            self.wf(),
    ;

    /// Regenerates the chunk at a position with the given generator and
    /// caches it, replacing any cached chunk.
    fn force_generate_chunk(&mut self, position: ChunkVector, generator: &Generator) -> (r:
        Chunk)
        requires
            old(self).wf(),
            coord_in_range(position.x as int),
            coord_in_range(position.y as int),
            coord_in_range(position.z as int),
        ensures
            final(self).wf(),
            r.wf(),
            r.position == position,
            r.model() == generator.spec_chunk(position),
            final(self).spec_cached(position) matches Some(c) && c.model() == r.model(),
            forall|q: ChunkVector|
                q != position ==> #[trigger] final(self).spec_cached(q) == old(self).spec_cached(
                    q,
                ),
    ;
}

/// An in-memory chunk provider: a chunk registry backed by a terrain
/// generator, with no persistent storage.
#[derive(Debug)]
pub struct MemoryChunkProvider {
    /// The cached chunks.
    pub cache: ChunkCollection,
    /// The generator that fills cache misses.
    pub generator: Generator,
}

impl MemoryChunkProvider {
    /// Creates a new in-memory provider over the given generator, with an
    /// empty cache.
    pub fn new(generator: Generator) -> (r: MemoryChunkProvider)
        ensures
            r.wf(),
            r.generator == generator,
            forall|p: ChunkVector| r.spec_cached(p) is None,
    {
        MemoryChunkProvider { cache: ChunkCollection::new(), generator }
    }
}

impl MemoryChunkProvider {
    /// Stores a chunk in the cache, replacing any chunk at its position.
    pub fn store_chunk(&mut self, chunk: Chunk)
        requires
            old(self).wf(),
            chunk.wf(),
        ensures
            final(self).wf(),
            final(self).generator == old(self).generator,
            final(self).spec_cached(chunk.position) == Some(chunk),
            forall|q: ChunkVector|
                q != chunk.position ==> #[trigger] final(self).spec_cached(q) == old(
                    self,
                ).spec_cached(q),
    {
        self.cache.insert_chunk(chunk);
    }
}

impl ChunkProvider for MemoryChunkProvider {
    open spec fn wf(&self) -> bool {
        self.cache.wf()
    }

    open spec fn spec_cached(&self, position: ChunkVector) -> Option<Chunk> {
        self.cache.spec_get(position)
    }

    open spec fn spec_generated(&self, position: ChunkVector) -> ChunkModel {
        self.generator.spec_chunk(position)
    }

    fn chunk_exists(&self, position: ChunkVector) -> (r: bool) {
        self.cache.contains_chunk(position)
    }

    fn get_chunk(&mut self, position: ChunkVector) -> (r: Chunk) {
        let cached = match self.cache.get_chunk(position) {
            Some(c) => Some(c.clone_chunk()),
            None => None,
        };
        match cached {
            Some(c) => c,
            None => {
                let generated = self.generator.generate_chunk(position);
                let result = generated.clone_chunk();
                self.cache.insert_chunk(generated);
                result
            },
        }
    }

    fn get_chunk_if_loaded(&self, position: ChunkVector) -> (r: Option<Chunk>) {
        match self.cache.get_chunk(position) {
            Some(c) => Some(c.clone_chunk()),
            None => None,
        }
    }

    fn unload_chunk(&mut self, position: ChunkVector) -> (r: bool) {
        self.cache.remove_chunk(position).is_some()
    }

    fn save_chunk(&self, _chunk: &Chunk) -> (r: Result<(), SaveError>)
        ensures
            r is Ok,
    {
        Ok(())
    }

    fn force_generate_chunk(&mut self, position: ChunkVector, generator: &Generator) -> (r:
        Chunk) {
        let generated = generator.generate_chunk(position);
        let result = generated.clone_chunk();
        self.cache.insert_chunk(generated);
        result
    }
}

} // verus!
