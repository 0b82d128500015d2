//! The terrain-generation capability: a generator produces, for a chunk
//! position, a chunk whose value is a function of the generator's
//! parameters and the position alone.

use crate::chunk::{Chunk, ChunkModel};
use crate::flat::FlatWorldGenerator;
use crate::overworld::OverworldGenerator;
use crate::pos::{coord_in_range, ChunkVector};
use vstd::prelude::*;

verus! {

/// A terrain generator.  `spec_chunk` is the mathematical value of the
/// chunk generated at a position; `generate_chunk` must produce exactly
/// that value, which makes generation reproducible by contract.
pub trait TerrainGenerator: Sized {
    /// The seed of this generator.
    spec fn spec_seed(&self) -> i64;

    /// The name of this generator.
    spec fn spec_name(&self) -> Seq<char>;

    /// The chunk value this generator produces at a position.
    spec fn spec_chunk(&self, position: ChunkVector) -> ChunkModel;

    /// Generates the chunk at the given position.
    fn generate_chunk(&self, position: ChunkVector) -> (r: Chunk)
        requires
            coord_in_range(position.x as int),
            coord_in_range(position.y as int),
            coord_in_range(position.z as int),
        ensures
            r.wf(),
            r.position == position,
            r.model() == self.spec_chunk(position),
    ;

    /// The name of this generator.
    fn name(&self) -> (r: &str)
        ensures
            r@ == self.spec_name(),
    ;

    /// The seed of this generator.
    fn seed(&self) -> (r: i64)
        ensures
            r == self.spec_seed(),
    ;
}

/// The closed set of terrain generators of this library, usable where a
/// generator has to be chosen at run time.
#[derive(Debug)]
pub enum Generator {
    Flat(FlatWorldGenerator),
    Overworld(OverworldGenerator),
}

impl TerrainGenerator for Generator {
    open spec fn spec_seed(&self) -> i64 {
        match *self {
            Generator::Flat(ref g) => g.spec_seed(),
            Generator::Overworld(ref g) => g.spec_seed(),
        }
    }

    open spec fn spec_name(&self) -> Seq<char> {
        match *self {
            Generator::Flat(ref g) => g.spec_name(),
            Generator::Overworld(ref g) => g.spec_name(),
        }
    }

    open spec fn spec_chunk(&self, position: ChunkVector) -> ChunkModel {
        match *self {
            Generator::Flat(ref g) => g.spec_chunk(position),
            Generator::Overworld(ref g) => g.spec_chunk(position),
        }
    }

    fn generate_chunk(&self, position: ChunkVector) -> (r: Chunk) {
        match self {
            Generator::Flat(g) => g.generate_chunk(position),
            Generator::Overworld(g) => g.generate_chunk(position),
        }
    }

    fn name(&self) -> (r: &str) {
        match self {
            Generator::Flat(g) => g.name(),
            Generator::Overworld(g) => g.name(),
        }
    }

    fn seed(&self) -> (r: i64) {
        match self {
            Generator::Flat(g) => g.seed(),
            Generator::Overworld(g) => g.seed(),
        }
    }
}

/// Whether a chunk position belongs to the pre-generation domain around a
/// center: inside the circle of the given radius horizontally, and within
/// one chunk of the center vertically.
pub open spec fn in_pregen_domain(p: ChunkVector, center: ChunkVector, radius: int) -> bool {
    &&& center.x - radius <= p.x <= center.x + radius
    &&& center.z - radius <= p.z <= center.z + radius
    &&& (p.x - center.x) * (p.x - center.x) + (p.z - center.z) * (p.z - center.z) <= radius
        * radius
    &&& center.y - 1 <= p.y <= center.y + 1
}

/// Whether a center position leaves room for a pre-generation pass of the
/// given radius inside the coordinate range: every position of the domain
/// must be a valid chunk coordinate.
pub open spec fn pregen_center_ok(center: ChunkVector, radius: int) -> bool {
    &&& 0 <= radius
    &&& coord_in_range(center.x - radius) && coord_in_range(center.x + radius)
    &&& coord_in_range(center.z - radius) && coord_in_range(center.z + radius)
    &&& coord_in_range(center.y - 1) && coord_in_range(center.y + 1)
}

/// Generates every chunk of the circle of the given radius around a
/// center, three vertical levels per kept column.  Every returned chunk
/// is the generator's chunk for its position, and every position of the
/// domain is covered.
pub fn pre_generate_chunks<G: TerrainGenerator>(g: &G, center: ChunkVector, radius: i32) -> (r:
    Vec<Chunk>)
    requires
        pregen_center_ok(center, radius as int),
    ensures
        forall|k: int|
            0 <= k < r@.len() ==> {
                &&& (#[trigger] r@[k]).wf()
                &&& in_pregen_domain(r@[k].position, center, radius as int)
                &&& r@[k].model() == g.spec_chunk(r@[k].position)
            },
        forall|p: ChunkVector|
            in_pregen_domain(p, center, radius as int) ==> exists|k: int|
                0 <= k < r@.len() && (#[trigger] r@[k]).position == p,
        forall|k1: int, k2: int|
            0 <= k1 < k2 < r@.len() ==> (#[trigger] r@[k1]).position != (
            #[trigger] r@[k2]).position,
{
    let mut chunks: Vec<Chunk> = Vec::new();
    let mut x = center.x - radius;
    while x <= center.x + radius
        invariant
            pregen_center_ok(center, radius as int),
            center.x - radius <= x <= center.x + radius + 1,
            forall|k: int|
                0 <= k < chunks@.len() ==> {
                    &&& (#[trigger] chunks@[k]).wf()
                    &&& in_pregen_domain(chunks@[k].position, center, radius as int)
                    &&& chunks@[k].model() == g.spec_chunk(chunks@[k].position)
                },
            forall|p: ChunkVector|
                in_pregen_domain(p, center, radius as int) && p.x < x ==> exists|k: int|
                    0 <= k < chunks@.len() && (#[trigger] chunks@[k]).position == p,
            forall|k: int| 0 <= k < chunks@.len() ==> (#[trigger] chunks@[k]).position.x < x,
            forall|k1: int, k2: int|
                0 <= k1 < k2 < chunks@.len() ==> (#[trigger] chunks@[k1]).position != (
                #[trigger] chunks@[k2]).position,
        decreases center.x + radius + 1 - x,
    {
        let mut z = center.z - radius;
        while z <= center.z + radius
            invariant
                pregen_center_ok(center, radius as int),
                center.x - radius <= x <= center.x + radius,
                center.z - radius <= z <= center.z + radius + 1,
                forall|k: int|
                    0 <= k < chunks@.len() ==> {
                        &&& (#[trigger] chunks@[k]).wf()
                        &&& in_pregen_domain(chunks@[k].position, center, radius as int)
                        &&& chunks@[k].model() == g.spec_chunk(chunks@[k].position)
                    },
                forall|p: ChunkVector|
                    in_pregen_domain(p, center, radius as int) && (p.x < x || (p.x == x && p.z
                        < z)) ==> exists|k: int|
                        0 <= k < chunks@.len() && (#[trigger] chunks@[k]).position == p,
                forall|k: int|
                    0 <= k < chunks@.len() ==> ((#[trigger] chunks@[k]).position.x < x || (
                    chunks@[k].position.x == x && chunks@[k].position.z < z)),
                forall|k1: int, k2: int|
                    0 <= k1 < k2 < chunks@.len() ==> (#[trigger] chunks@[k1]).position != (
                    #[trigger] chunks@[k2]).position,
            decreases center.z + radius + 1 - z,
        {
            let dx = (x - center.x) as i64;
            let dz = (z - center.z) as i64;
            let rad = radius as i64;
            let ghost before = chunks@;
            proof {
                assert(0 <= dx * dx <= 0x10_0000_0000_0000 && 0 <= dz * dz
                    <= 0x10_0000_0000_0000 && 0 <= rad * rad <= 0x10_0000_0000_0000)
                    by (nonlinear_arith)
                    requires
                        -0x400_0000 <= dx <= 0x400_0000,
                        -0x400_0000 <= dz <= 0x400_0000,
                        0 <= rad <= 0x400_0000,
                ;
            }
            if dx * dx + dz * dz <= rad * rad {
                let mut y = center.y - 1;
                while y <= center.y + 1
                    invariant
                        pregen_center_ok(center, radius as int),
                        center.x - radius <= x <= center.x + radius,
                        center.z - radius <= z <= center.z + radius,
                        (x - center.x) * (x - center.x) + (z - center.z) * (z - center.z)
                            <= radius * radius,
                        center.y - 1 <= y <= center.y + 2,
                        forall|k: int|
                            0 <= k < chunks@.len() ==> {
                                &&& (#[trigger] chunks@[k]).wf()
                                &&& in_pregen_domain(
                                    chunks@[k].position,
                                    center,
                                    radius as int,
                                )
                                &&& chunks@[k].model() == g.spec_chunk(chunks@[k].position)
                            },
                        forall|p: ChunkVector|
                            in_pregen_domain(p, center, radius as int) && (p.x < x || (p.x == x
                                && p.z < z) || (p.x == x && p.z == z && p.y < y)) ==> exists|
                                k: int,
                            |
                                0 <= k < chunks@.len() && (#[trigger] chunks@[k]).position == p,
                        forall|k: int|
                            0 <= k < chunks@.len() ==> ((#[trigger] chunks@[k]).position.x < x
                                || (chunks@[k].position.x == x && chunks@[k].position.z < z) || (
                            chunks@[k].position.x == x && chunks@[k].position.z == z
                                && chunks@[k].position.y < y)),
                        forall|k1: int, k2: int|
                            0 <= k1 < k2 < chunks@.len() ==> (#[trigger] chunks@[k1]).position
                                != (#[trigger] chunks@[k2]).position,
                    decreases center.y + 2 - y,
                {
                    let position = ChunkVector::new(x, y, z);
                    let chunk = g.generate_chunk(position);
                    let ghost prior = chunks@;
                    chunks.push(chunk);
                    proof {
                        assert forall|p: ChunkVector|
                            in_pregen_domain(p, center, radius as int) && (p.x < x || (p.x == x
                                && p.z < z) || (p.x == x && p.z == z && p.y < y
                                + 1)) implies exists|k: int|
                            0 <= k < chunks@.len() && (#[trigger] chunks@[k]).position == p by {
                            if p.x == x && p.z == z && p.y == y {
                                assert(chunks@[chunks@.len() - 1].position == p);
                            } else {
                                let k0 = choose|k: int|
                                    0 <= k < prior.len() && (#[trigger] prior[k]).position == p;
                                assert(chunks@[k0].position == p);
                            }
                        }
                    }
                    y = y + 1;
                }
            } else {
                proof {
                    assert forall|p: ChunkVector|
                        in_pregen_domain(p, center, radius as int) && (p.x < x || (p.x == x
                            && p.z < z + 1)) implies exists|k: int|
                        0 <= k < chunks@.len() && (#[trigger] chunks@[k]).position == p by {
                        if p.x == x && p.z == z {
                            assert((p.x - center.x) * (p.x - center.x) + (p.z - center.z) * (p.z
                                - center.z) > radius as int * radius as int);
                            assert(false);
                        } else {
                            let k0 = choose|k: int|
                                0 <= k < before.len() && (#[trigger] before[k]).position == p;
                            assert(chunks@[k0].position == p);
                        }
                    }
                }
            }
            z = z + 1;
        }
        x = x + 1;
    }
    chunks
}

/// Generates the spawn area: the circle of the given radius around the
/// origin.
pub fn create_spawn_area<G: TerrainGenerator>(g: &G, radius: i32) -> (r: Vec<Chunk>)
    requires
        0 <= radius,
        coord_in_range(radius as int),
    ensures
        forall|k: int|
            0 <= k < r@.len() ==> {
                &&& (#[trigger] r@[k]).wf()
                &&& in_pregen_domain(r@[k].position, ChunkVector { x: 0, y: 0, z: 0 }, radius as int)
                &&& r@[k].model() == g.spec_chunk(r@[k].position)
            },
        forall|p: ChunkVector|
            in_pregen_domain(p, ChunkVector { x: 0, y: 0, z: 0 }, radius as int) ==> exists|k: int|
                0 <= k < r@.len() && (#[trigger] r@[k]).position == p,
{
    pre_generate_chunks(g, ChunkVector::new(0, 0, 0), radius)
}

} // verus!
