//! The overworld terrain generator: noise-driven surface heights, beaches
//! and sea water, dirt and stone banding, bedrock, ore veins, cave
//! carving, and tree growth.
//!
//! Every random choice is drawn from a stateless hash of the seed and the
//! world position of the cell it concerns, so a chunk's value is a pure
//! function of the generator's parameters and the chunk position.

use crate::block::{spec_pack, Block, BlockType};
use crate::chunk::{model_new, model_set_block, model_set_section, Chunk, ChunkModel};
use crate::generator::TerrainGenerator;
use crate::noise::{
    spec_cave_sample, spec_hash_milli, spec_surface_height, NoiseGenerator,
};
use crate::pos::ChunkVector;
use crate::section::{count_non_air, lemma_count_push, ChunkSection};
use vstd::prelude::*;

verus! {

/// The hash tag of the bedrock-or-stone choice.
pub const TAG_BEDROCK: u64 = 11;

/// The hash tag of the ore-kind choice.
pub const TAG_ORE: u64 = 12;

/// The hash tag of the tree-presence choice.
pub const TAG_TREE: u64 = 13;

/// The hash tag of the trunk-height choice.
pub const TAG_TRUNK: u64 = 14;

/// The hash tag of the leaf-presence choice.
pub const TAG_LEAF: u64 = 15;

/// A generator of realistic terrain.
#[derive(Debug)]
pub struct OverworldGenerator {
    /// The name of this generator.
    pub name: String,
    /// The seed for terrain generation.
    pub seed: i64,
    /// The sea level: cells above the surface but at or below it are
    /// water.
    pub sea_level: i32,
    /// The horizontal scale factor, in thousandths.
    pub scale_milli: u32,
}

/// The scale factor a generator works with: scale factors outside the
/// supported range are clamped to it.
pub open spec fn spec_effective_scale(scale_milli: u32) -> u32 {
    if scale_milli < 1 {
        1u32
    } else if scale_milli > 10_000 {
        10_000u32
    } else {
        scale_milli
    }
}

/// The least surface height among the first `n` columns of a chunk's
/// heightmap.
pub open spec fn spec_min_height(seed: i64, scale: int, cx: int, cz: int, n: int) -> int
    decreases n,
{
    if n <= 1 {
        spec_surface_height(seed, scale, cx, cz, 0, 0)
    } else {
        let h = spec_surface_height(seed, scale, cx, cz, (n - 1) / 16, (n - 1) % 16);
        let rest = spec_min_height(seed, scale, cx, cz, n - 1);
        if h < rest {
            h
        } else {
            rest
        }
    }
}

/// The greatest surface height among the first `n` columns of a chunk's
/// heightmap.
pub open spec fn spec_max_height(seed: i64, scale: int, cx: int, cz: int, n: int) -> int
    decreases n,
{
    if n <= 1 {
        spec_surface_height(seed, scale, cx, cz, 0, 0)
    } else {
        let h = spec_surface_height(seed, scale, cx, cz, (n - 1) / 16, (n - 1) % 16);
        let rest = spec_max_height(seed, scale, cx, cz, n - 1);
        if h > rest {
            h
        } else {
            rest
        }
    }
}

/// The classification of one cell, before cave carving: the priority
/// order runs water and air above the surface, the surface cover, the
/// dirt band, the bedrock floor, the ore band, and stone everywhere else.
pub open spec fn spec_classify(
    seed: i64,
    sea: int,
    wy: int,
    height: int,
    cave: int,
    wx: int,
    wz: int,
) -> u16 {
    if wy > height {
        if wy <= sea {
            9
        } else {
            0
        }
    } else if wy == height {
        if wy <= sea + 2 {
            12
        } else {
            2
        }
    } else if wy >= height - 3 {
        3
    } else if wy <= 20 {
        if wy <= 5 {
            if wy == 0 || (wy <= 4 && spec_hash_milli(seed, TAG_BEDROCK, wx, wy, wz) < 500) {
                7
            } else {
                1
            }
        } else {
            if cave > 700 {
                spec_ore_kind(spec_hash_milli(seed, TAG_ORE, wx, wy, wz))
            } else {
                1
            }
        }
    } else {
        1
    }
}

/// The ore kind drawn from a fraction in thousandths: coal below 400,
/// iron below 700, gold below 850, redstone below 950, diamond above.
pub open spec fn spec_ore_kind(draw: int) -> u16 {
    if draw < 400 {
        16
    } else if draw < 700 {
        15
    } else if draw < 850 {
        14
    } else if draw < 950 {
        73
    } else {
        56
    }
}

/// The final cell after cave carving: every classified cell but bedrock
/// and air is kept only where the cave noise stays above the carving
/// threshold.
pub open spec fn spec_carved(t: u16, cave: int) -> u16 {
    if t != 7 && t != 0 && cave <= -300 {
        0
    } else {
        t
    }
}

/// The packed word of the terrain cell at flat index `i` of the section a
/// chunk fills.
#[verifier::opaque]
pub open spec fn spec_terrain_cell(
    seed: i64,
    scale: int,
    sea: int,
    pos: ChunkVector,
    i: int,
) -> u32 {
    let x = i % 16;
    let y = i / 256;
    let z = (i / 16) % 16;
    let wx = pos.x * 16 + x;
    let wy = pos.y * 16 + y;
    let wz = pos.z * 16 + z;
    let height = spec_surface_height(seed, scale, pos.x as int, pos.z as int, x, z);
    let cave = spec_cave_sample(
        seed,
        scale,
        pos.x as int,
        pos.y as int,
        pos.z as int,
        x,
        y,
        z,
    );
    spec_pack(
        Block {
            block_type: spec_carved(spec_classify(seed, sea, wy, height, cave, wx, wz), cave),
            metadata: 0,
        },
    )
}

/// The chunk an overworld generator produces: empty when the chunk's
/// vertical index lies outside the section range its heightmap touches,
/// else the terrain section at that index.
pub open spec fn spec_overworld_chunk(
    seed: i64,
    sea: int,
    scale_milli: u32,
    pos: ChunkVector,
) -> ChunkModel {
    let scale = spec_effective_scale(scale_milli) as int;
    let min_sec = spec_min_height(seed, scale, pos.x as int, pos.z as int, 256) / 16;
    let max_sec = spec_max_height(seed, scale, pos.x as int, pos.z as int, 256) / 16 + 1;
    let lo = if min_sec > 0 {
        min_sec
    } else {
        0
    };
    let hi = if max_sec < 15 {
        max_sec
    } else {
        15
    };
    if pos.y < lo || pos.y > hi {
        model_new(pos, 0)
    } else {
        model_set_section(
            model_new(pos, 0),
            pos.y as int,
            Seq::new(4096, |i: int| spec_terrain_cell(seed, scale as int, sea, pos, i)),
            0,
        )
    }
}

impl OverworldGenerator {
    /// Creates a new overworld generator with the default sea level of 64
    /// and the default scale factor of one.
    pub fn new(name: &str, seed: i64) -> (r: OverworldGenerator)
        ensures
            r.name@ == name@,
            r.seed == seed,
            r.sea_level == 64,
            r.scale_milli == 1000,
    {
        OverworldGenerator { name: name.to_owned(), seed, sea_level: 64, scale_milli: 1000 }
    }

    /// Sets the sea level of this generator.
    pub fn with_sea_level(self, sea_level: i32) -> (r: OverworldGenerator)
        ensures
            r == (OverworldGenerator { sea_level, ..self }),
    {
        OverworldGenerator { sea_level, ..self }
    }

    /// Sets the scale factor of this generator, in thousandths.
    pub fn with_scale(self, scale_milli: u32) -> (r: OverworldGenerator)
        ensures
            r == (OverworldGenerator { scale_milli, ..self }),
    {
        OverworldGenerator { scale_milli, ..self }
    }
}

/// Computes the classification of one cell before carving.
fn classify(seed: i64, sea: i64, wy: i64, height: i64, cave: i64, wx: i64, wz: i64) -> (r: u16)
    requires
        -0x1_0000_0000 <= sea <= 0x1_0000_0000,
        -0x1_0000_0000 <= height <= 0x1_0000_0000,
        0 <= wy <= 0x1_0000_0000,
    ensures
        r == spec_classify(seed, sea as int, wy as int, height as int, cave as int, wx as int, wz as int),
{
    if wy > height {
        if wy <= sea {
            9
        } else {
            0
        }
    } else if wy == height {
        if wy <= sea + 2 {
            12
        } else {
            2
        }
    } else if wy >= height - 3 {
        3
    } else if wy <= 20 {
        if wy <= 5 {
            let draw = crate::noise::hash_milli(seed, TAG_BEDROCK, wx, wy, wz);
            if wy == 0 || (wy <= 4 && draw < 500) {
                7
            } else {
                1
            }
        } else {
            if cave > 700 {
                let draw = crate::noise::hash_milli(seed, TAG_ORE, wx, wy, wz);
                if draw < 400 {
                    16
                } else if draw < 700 {
                    15
                } else if draw < 850 {
                    14
                } else if draw < 950 {
                    73
                } else {
                    56
                }
            } else {
                1
            }
        }
    } else {
        1
    }
}

impl TerrainGenerator for OverworldGenerator {
    open spec fn spec_seed(&self) -> i64 {
        self.seed
    }

    open spec fn spec_name(&self) -> Seq<char> {
        self.name@
    }

    open spec fn spec_chunk(&self, position: ChunkVector) -> ChunkModel {
        spec_overworld_chunk(self.seed, self.sea_level as int, self.scale_milli, position)
    }

    fn generate_chunk(&self, position: ChunkVector) -> (r: Chunk) {
        let scale = if self.scale_milli < 1 {
            1
        } else if self.scale_milli > 10_000 {
            10_000
        } else {
            self.scale_milli
        };
        let mut chunk = Chunk::new(position, 0);
        let noise = NoiseGenerator::new(self.seed);
        let heightmap = noise.generate_heightmap(position.x, position.z, scale);

        let mut min_height = heightmap[0];
        let mut max_height = heightmap[0];
        let mut i: usize = 1;
        while i < 256
            invariant
                noise.seed == self.seed,
                crate::noise::scale_in_range(scale as int),
                1 <= i <= 256,
                heightmap@.len() == 256,
                forall|k: int|
                    0 <= k < 256 ==> #[trigger] heightmap@[k] == spec_surface_height(
                        self.seed,
                        scale as int,
                        position.x as int,
                        position.z as int,
                        k / 16,
                        k % 16,
                    ),
                forall|k: int| 0 <= k < 256 ==> 64 <= #[trigger] heightmap@[k] <= 124,
                min_height == spec_min_height(
                    self.seed,
                    scale as int,
                    position.x as int,
                    position.z as int,
                    i as int,
                ),
                max_height == spec_max_height(
                    self.seed,
                    scale as int,
                    position.x as int,
                    position.z as int,
                    i as int,
                ),
                64 <= min_height <= 124,
                64 <= max_height <= 124,
            decreases 256 - i,
        {
            let h = heightmap[i];
            if h < min_height {
                min_height = h;
            }
            if h > max_height {
                max_height = h;
            }
            i = i + 1;
        }

        let min_section = if min_height / 16 > 0 {
            min_height / 16
        } else {
            0
        };
        let max_section = if max_height / 16 + 1 < 15 {
            max_height / 16 + 1
        } else {
            15
        };
        if position.y < min_section || position.y > max_section {
            return chunk;
        }

        let cave = noise.generate_3d_noise(position.x, position.y, position.z, scale);
        let mut blocks: Vec<u32> = Vec::new();
        let mut count: u16 = 0;
        let mut y: usize = 0;
        while y < 16
            invariant
                noise.seed == self.seed,
                crate::noise::scale_in_range(scale as int),
                crate::pos::coord_in_range(position.x as int),
                crate::pos::coord_in_range(position.y as int),
                crate::pos::coord_in_range(position.z as int),
                0 <= position.y < 16,
                heightmap@.len() == 256,
                forall|k: int|
                    0 <= k < 256 ==> #[trigger] heightmap@[k] == spec_surface_height(
                        self.seed,
                        scale as int,
                        position.x as int,
                        position.z as int,
                        k / 16,
                        k % 16,
                    ),
                forall|k: int| 0 <= k < 256 ==> 64 <= #[trigger] heightmap@[k] <= 124,
                cave@.len() == 4096,
                forall|k: int|
                    0 <= k < 4096 ==> #[trigger] cave@[k] == spec_cave_sample(
                        self.seed,
                        scale as int,
                        position.x as int,
                        position.y as int,
                        position.z as int,
                        k % 16,
                        k / 256,
                        (k / 16) % 16,
                    ),
                forall|k: int| 0 <= k < 4096 ==> -1000 <= #[trigger] cave@[k] <= 1000,
                y <= 16,
                blocks@.len() == y * 256,
                count == count_non_air(blocks@),
                count <= blocks@.len(),
                forall|k: int|
                    0 <= k < blocks@.len() ==> #[trigger] blocks@[k] == spec_terrain_cell(
                        self.seed,
                        scale as int,
                        self.sea_level as int,
                        position,
                        k,
                    ),
            decreases 16 - y,
        {
            let mut z: usize = 0;
            while z < 16
                invariant
                    noise.seed == self.seed,
                    crate::noise::scale_in_range(scale as int),
                    crate::pos::coord_in_range(position.x as int),
                    crate::pos::coord_in_range(position.y as int),
                    crate::pos::coord_in_range(position.z as int),
                    0 <= position.y < 16,
                    heightmap@.len() == 256,
                    forall|k: int|
                        0 <= k < 256 ==> #[trigger] heightmap@[k] == spec_surface_height(
                            self.seed,
                            scale as int,
                            position.x as int,
                            position.z as int,
                            k / 16,
                            k % 16,
                        ),
                    forall|k: int| 0 <= k < 256 ==> 64 <= #[trigger] heightmap@[k] <= 124,
                    cave@.len() == 4096,
                    forall|k: int|
                        0 <= k < 4096 ==> #[trigger] cave@[k] == spec_cave_sample(
                            self.seed,
                            scale as int,
                            position.x as int,
                            position.y as int,
                            position.z as int,
                            k % 16,
                            k / 256,
                            (k / 16) % 16,
                        ),
                    forall|k: int| 0 <= k < 4096 ==> -1000 <= #[trigger] cave@[k] <= 1000,
                    y < 16,
                    z <= 16,
                    blocks@.len() == y * 256 + z * 16,
                    count == count_non_air(blocks@),
                    count <= blocks@.len(),
                    forall|k: int|
                        0 <= k < blocks@.len() ==> #[trigger] blocks@[k] == spec_terrain_cell(
                            self.seed,
                            scale as int,
                            self.sea_level as int,
                            position,
                            k,
                        ),
                decreases 16 - z,
            {
                let mut x: usize = 0;
                while x < 16
                    invariant
                        noise.seed == self.seed,
                        crate::noise::scale_in_range(scale as int),
                        crate::pos::coord_in_range(position.x as int),
                        crate::pos::coord_in_range(position.y as int),
                        crate::pos::coord_in_range(position.z as int),
                        0 <= position.y < 16,
                        heightmap@.len() == 256,
                        forall|k: int|
                            0 <= k < 256 ==> #[trigger] heightmap@[k] == spec_surface_height(
                                self.seed,
                                scale as int,
                                position.x as int,
                                position.z as int,
                                k / 16,
                                k % 16,
                            ),
                        forall|k: int| 0 <= k < 256 ==> 64 <= #[trigger] heightmap@[k] <= 124,
                        cave@.len() == 4096,
                        forall|k: int|
                            0 <= k < 4096 ==> #[trigger] cave@[k] == spec_cave_sample(
                                self.seed,
                                scale as int,
                                position.x as int,
                                position.y as int,
                                position.z as int,
                                k % 16,
                                k / 256,
                                (k / 16) % 16,
                            ),
                        forall|k: int| 0 <= k < 4096 ==> -1000 <= #[trigger] cave@[k] <= 1000,
                        y < 16,
                        z < 16,
                        x <= 16,
                        blocks@.len() == y * 256 + z * 16 + x,
                        count == count_non_air(blocks@),
                        count <= blocks@.len(),
                        forall|k: int|
                            0 <= k < blocks@.len() ==> #[trigger] blocks@[k] == spec_terrain_cell(
                                self.seed,
                                scale as int,
                                self.sea_level as int,
                                position,
                                k,
                            ),
                    decreases 16 - x,
                {
                    let column = x * 16 + z;
                    let height = heightmap[column] as i64;
                    let cell = y * 256 + z * 16 + x;
                    let cave_val = cave[cell];
                    let wx = position.x as i64 * 16 + x as i64;
                    let wy = position.y as i64 * 16 + y as i64;
                    let wz = position.z as i64 * 16 + z as i64;
                    let classified = classify(
                        self.seed,
                        self.sea_level as i64,
                        wy,
                        height,
                        cave_val,
                        wx,
                        wz,
                    );
                    let carved: u16 = if classified != 7 && classified != 0 && cave_val <= -300 {
                        0
                    } else {
                        classified
                    };
                    let packed = Block::new(carved).pack();
                    proof {
                        let k = y * 256 + z * 16 + x;
                        assert(k % 16 == x && k / 256 == y && (k / 16) % 16 == z)
                            by (nonlinear_arith)
                            requires
                                x < 16,
                                y < 16,
                                z < 16,
                                k == y * 256 + z * 16 + x,
                        ;
                        assert((x * 16 + z) / 16 == x && (x * 16 + z) % 16 == z)
                            by (nonlinear_arith)
                            requires
                                x < 16,
                                z < 16,
                        ;
                        reveal(spec_terrain_cell);
                        lemma_count_push(blocks@, packed);
                        crate::block::lemma_unpack_pack(Block { block_type: carved, metadata: 0 });
                    }
                    blocks.push(packed);
                    if carved != 0 {
                        count = count + 1;
                    }
                    x = x + 1;
                }
                z = z + 1;
            }
            y = y + 1;
        }
        proof {
            assert(blocks@ =~= Seq::new(
                4096,
                |i: int| spec_terrain_cell(
                    self.seed,
                    spec_effective_scale(self.scale_milli) as int,
                    self.sea_level as int,
                    position,
                    i,
                ),
            ));
        }
        let section = ChunkSection { blocks, non_air_count: count };
        chunk.set_section(position.y, section, 0);
        chunk
    }

    fn name(&self) -> (r: &str) {
        self.name.as_str()
    }

    fn seed(&self) -> (r: i64) {
        self.seed
    }
}

/// Two overworld generators with the same seed, sea level and scale
/// factor produce the same chunk value at every position, whatever their
/// names: generation is deterministic in the seed, and two independent
/// runs yield identical chunks.
pub proof fn law_overworld_deterministic(
    g1: &OverworldGenerator,
    g2: &OverworldGenerator,
    position: ChunkVector,
)
    requires
        g1.seed == g2.seed,
        g1.sea_level == g2.sea_level,
        g1.scale_milli == g2.scale_milli,
    ensures
        g1.spec_chunk(position) == g2.spec_chunk(position),
{
}

/// The trunk height of the tree rooted at a world position: four to six
/// blocks.
pub open spec fn spec_trunk_height(seed: i64, wx: int, y: int, wz: int) -> int {
    4 + crate::noise::spec_cell_hash(seed, TAG_TRUNK, wx, y, wz) as int % 3
}

/// The effect of one slot of the tree-growing pass on a chunk value.  The
/// first six slots lay the trunk; the hundred that follow walk the leaf
/// canopy, five levels of five-by-five cells, skipping cells beyond the
/// level's radius, the square's corners, cells outside the chunk, and a
/// tenth of the rest.
pub open spec fn spec_tree_step(
    seed: i64,
    pos: ChunkVector,
    x: int,
    y: int,
    z: int,
    m: ChunkModel,
    s: int,
) -> ChunkModel {
    let t = spec_trunk_height(seed, pos.x * 16 + x, y, pos.z * 16 + z);
    if s < 6 {
        if s < t {
            model_set_block(m, x, y + s, z, Block { block_type: 17, metadata: 0 }, 0)
        } else {
            m
        }
    } else {
        let e = s - 6;
        let lyi = e / 25;
        let dx = (e % 25) / 5 - 2;
        let dz = e % 5 - 2;
        let radius = if lyi == 3 {
            1int
        } else {
            2int
        };
        let ly = y + t - 3 + lyi;
        if dx < -radius || dx > radius || dz < -radius || dz > radius {
            m
        } else if (dx == radius || dx == -radius) && (dz == radius || dz == -radius) {
            m
        } else {
            let lx = x + dx;
            let lz = z + dz;
            if 0 <= lx < 16 && 0 <= lz < 16 {
                if spec_hash_milli(seed, TAG_LEAF, pos.x * 16 + lx, ly, pos.z * 16 + lz) < 900 {
                    model_set_block(m, lx, ly, lz, Block { block_type: 18, metadata: 0 }, 0)
                } else {
                    m
                }
            } else {
                m
            }
        }
    }
}

/// The chunk value after the first `n` slots of the tree-growing pass.
pub open spec fn spec_tree_fold(
    seed: i64,
    pos: ChunkVector,
    x: int,
    y: int,
    z: int,
    m: ChunkModel,
    n: int,
) -> ChunkModel
    decreases n,
{
    if n <= 0 {
        m
    } else {
        spec_tree_step(seed, pos, x, y, z, spec_tree_fold(seed, pos, x, y, z, m, n - 1), n - 1)
    }
}

/// The chunk value after growing one tree rooted at a local position.
pub open spec fn spec_tree(
    seed: i64,
    pos: ChunkVector,
    x: int,
    y: int,
    z: int,
    m: ChunkModel,
) -> ChunkModel {
    spec_tree_fold(seed, pos, x, y, z, m, 106)
}

impl OverworldGenerator {
    /// Whether a tree takes root in the column at a local position, given
    /// the column's surface height: the surface must lie strictly between
    /// the beach band and height 100, and the column must win a draw with
    /// probability one in fifty.
    pub fn grows_tree(&self, position: ChunkVector, x: usize, z: usize, height: i32) -> (r:
        bool)
        requires
            x < 16,
            z < 16,
        ensures
            r <==> (self.sea_level + 2 < height < 100 && spec_hash_milli(
                self.seed,
                TAG_TREE,
                position.x * 16 + x,
                0,
                position.z * 16 + z,
            ) < 20),
    {
        if !(self.sea_level as i64 + 2 < height as i64 && height < 100) {
            return false;
        }
        let wx = position.x as i64 * 16 + x as i64;
        let wz = position.z as i64 * 16 + z as i64;
        crate::noise::hash_milli(self.seed, TAG_TREE, wx, 0, wz) < 20
    }

    /// Grows one tree rooted at the given local position of a chunk: a
    /// trunk of four to six log blocks and a leaf canopy.  The default
    /// heightmap keeps every surface at height 64 or above, so the
    /// generated chunks never reach the tree pass on their own; this is
    /// the operation that grows a tree where a caller asks for one.
    pub fn generate_tree(&self, chunk: &mut Chunk, x: usize, y: usize, z: usize)
        requires
            old(chunk).wf(),
            x < 16,
            y < 256,
            z < 16,
        ensures
            final(chunk).wf(),
            final(chunk).model() == spec_tree(
                self.seed,
                old(chunk).position,
                x as int,
                y as int,
                z as int,
                old(chunk).model(),
            ),
    {
        let wx = chunk.position.x as i64 * 16 + x as i64;
        let wz = chunk.position.z as i64 * 16 + z as i64;
        let ghost pos0 = chunk.position;
        let ghost m0 = chunk.model();
        let tree_height = 4 + (crate::noise::cell_hash(self.seed, TAG_TRUNK, wx, y as i64, wz)
            % 3) as usize;
        let mut i: usize = 0;
        while i < 6
            invariant
                chunk.wf(),
                chunk.position == pos0,
                x < 16,
                y < 256,
                z < 16,
                i <= 6,
                wx == pos0.x * 16 + x,
                wz == pos0.z * 16 + z,
                tree_height == spec_trunk_height(self.seed, pos0.x * 16 + x, y as int, pos0.z
                    * 16 + z),
                chunk.model() == spec_tree_fold(
                    self.seed,
                    pos0,
                    x as int,
                    y as int,
                    z as int,
                    m0,
                    i as int,
                ),
            decreases 6 - i,
        {
            if i < tree_height {
                let _ = chunk.set_block(x, y + i, z, Block::new(17), 0);
            }
            i = i + 1;
        }
        let mut lyi: usize = 0;
        while lyi < 4
            invariant
                chunk.wf(),
                chunk.position == pos0,
                x < 16,
                y < 256,
                z < 16,
                lyi <= 4,
                wx == pos0.x * 16 + x,
                wz == pos0.z * 16 + z,
                tree_height == spec_trunk_height(self.seed, pos0.x * 16 + x, y as int, pos0.z
                    * 16 + z),
                4 <= tree_height <= 6,
                chunk.model() == spec_tree_fold(
                    self.seed,
                    pos0,
                    x as int,
                    y as int,
                    z as int,
                    m0,
                    6 + lyi * 25,
                ),
            decreases 4 - lyi,
        {
            let radius: i32 = if lyi == 3 {
                1
            } else {
                2
            };
            let ly = y + tree_height - 3 + lyi;
            let mut dxi: usize = 0;
            while dxi < 5
                invariant
                    chunk.wf(),
                    chunk.position == pos0,
                    x < 16,
                    y < 256,
                    z < 16,
                    lyi < 4,
                    dxi <= 5,
                    wx == pos0.x * 16 + x,
                    wz == pos0.z * 16 + z,
                    tree_height == spec_trunk_height(self.seed, pos0.x * 16 + x, y as int, pos0.z
                        * 16 + z),
                    4 <= tree_height <= 6,
                    radius == if lyi == 3 {
                        1int
                    } else {
                        2int
                    },
                    ly == y + tree_height - 3 + lyi,
                    chunk.model() == spec_tree_fold(
                        self.seed,
                        pos0,
                        x as int,
                        y as int,
                        z as int,
                        m0,
                        6 + lyi * 25 + dxi * 5,
                    ),
                decreases 5 - dxi,
            {
                let dx = dxi as i32 - 2;
                let mut dzi: usize = 0;
                while dzi < 5
                    invariant
                        chunk.wf(),
                        chunk.position == pos0,
                        x < 16,
                        y < 256,
                        z < 16,
                        lyi < 4,
                        dxi < 5,
                        dzi <= 5,
                        wx == pos0.x * 16 + x,
                        wz == pos0.z * 16 + z,
                        tree_height == spec_trunk_height(self.seed, pos0.x * 16 + x, y as int,
                            pos0.z * 16 + z),
                        4 <= tree_height <= 6,
                        radius == if lyi == 3 {
                            1int
                        } else {
                            2int
                        },
                        ly == y + tree_height - 3 + lyi,
                        dx == dxi - 2,
                        chunk.model() == spec_tree_fold(
                            self.seed,
                            pos0,
                            x as int,
                            y as int,
                            z as int,
                            m0,
                            6 + lyi * 25 + dxi * 5 + dzi,
                        ),
                    decreases 5 - dzi,
                {
                    let dz = dzi as i32 - 2;
                    proof {
                        let s = 6 + lyi * 25 + dxi * 5 + dzi;
                        let e = s - 6;
                        assert(e / 25 == lyi && (e % 25) / 5 == dxi && e % 5 == dzi)
                            by (nonlinear_arith)
                            requires
                                lyi < 4,
                                dxi < 5,
                                dzi < 5,
                                e == lyi * 25 + dxi * 5 + dzi,
                        ;
                    }
                    if dx >= -radius && dx <= radius && dz >= -radius && dz <= radius && !((dx
                        == radius || dx == -radius) && (dz == radius || dz == -radius)) {
                        let lx = x as i32 + dx;
                        let lz = z as i32 + dz;
                        if lx >= 0 && lx < 16 && lz >= 0 && lz < 16 {
                            let wlx = chunk.position.x as i64 * 16 + lx as i64;
                            let wlz = chunk.position.z as i64 * 16 + lz as i64;
                            let draw = crate::noise::hash_milli(
                                self.seed,
                                TAG_LEAF,
                                wlx,
                                ly as i64,
                                wlz,
                            );
                            if draw < 900 {
                                let _ = chunk.set_block(
                                    lx as usize,
                                    ly,
                                    lz as usize,
                                    Block::new(18),
                                    0,
                                );
                            }
                        }
                    }
                    dzi = dzi + 1;
                }
                dxi = dxi + 1;
            }
            lyi = lyi + 1;
        }
        proof {
            assert(6 + 4 * 25 == 106);
        }
    }
}

} // verus!
