//! The flat terrain generator: stacked uniform layers at the bottom of the
//! world, every other chunk empty.

use crate::block::{spec_pack, Block, BlockType};
use crate::chunk::{model_new, model_set_section, Chunk, ChunkModel};
use crate::generator::TerrainGenerator;
use crate::pos::ChunkVector;
use crate::section::{count_non_air, lemma_count_push, ChunkSection};
use vstd::prelude::*;

verus! {

/// A flat world generator, parameterized by an ordered list of layers,
/// bottom-up: each a block type with a thickness.
#[derive(Debug)]
pub struct FlatWorldGenerator {
    /// The name of this generator.
    pub name: String,
    /// The seed of this generator; a flat world does not depend on it.
    pub seed: i64,
    /// The layers to generate, bottom-up.
    pub layers: Vec<(BlockType, u32)>,
}

/// The type id of the cell at height `y` of a layer stack: the first
/// layer whose span contains `y`, air when the stack ends below `y`.
pub open spec fn spec_flat_cell(layers: Seq<(BlockType, u32)>, y: int) -> u16
    decreases layers.len(),
{
    if layers.len() == 0 {
        0
    } else if y < layers[0].1 {
        layers[0].0.spec_id()
    } else {
        spec_flat_cell(layers.drop_first(), y - layers[0].1)
    }
}

/// The cell words of the one section a flat world fills.
pub open spec fn spec_flat_section(layers: Seq<(BlockType, u32)>) -> Seq<u32> {
    Seq::new(
        4096,
        |i: int| spec_pack(Block { block_type: spec_flat_cell(layers, i / 256), metadata: 0 }),
    )
}

/// The chunk a flat world generates: the layer section at vertical index
/// zero, empty everywhere else.
pub open spec fn spec_flat_chunk(layers: Seq<(BlockType, u32)>, position: ChunkVector) -> ChunkModel {
    if position.y == 0 {
        model_set_section(model_new(position, 0), 0, spec_flat_section(layers), 0)
    } else {
        model_new(position, 0)
    }
}

impl FlatWorldGenerator {
    /// Creates a new flat world generator with the default layer stack:
    /// one layer of bedrock, three of stone, one of dirt, one of grass.
    pub fn new(name: &str, seed: i64) -> (r: FlatWorldGenerator)
        ensures
            r.name@ == name@,
            r.seed == seed,
            r.layers@ == seq![
                (BlockType::Bedrock, 1u32),
                (BlockType::Stone, 3u32),
                (BlockType::Dirt, 1u32),
                (BlockType::Grass, 1u32),
            ],
    {
        let mut layers: Vec<(BlockType, u32)> = Vec::new();
        layers.push((BlockType::Bedrock, 1));
        layers.push((BlockType::Stone, 3));
        layers.push((BlockType::Dirt, 1));
        layers.push((BlockType::Grass, 1));
        proof {
            assert(layers@ =~= seq![
                (BlockType::Bedrock, 1u32),
                (BlockType::Stone, 3u32),
                (BlockType::Dirt, 1u32),
                (BlockType::Grass, 1u32),
            ]);
        }
        FlatWorldGenerator { name: name.to_owned(), seed, layers }
    }

    /// Replaces the layer stack of this generator.
    pub fn with_layers(self, layers: Vec<(BlockType, u32)>) -> (r: FlatWorldGenerator)
        ensures
            r.name@ == self.name@,
            r.seed == self.seed,
            r.layers@ == layers@,
    {
        FlatWorldGenerator { layers, ..self }
    }
}

/// Two flat generators with the same layer stack produce the same chunk
/// value at every position, whatever their names or seeds.
pub proof fn law_flat_deterministic(
    g1: &FlatWorldGenerator,
    g2: &FlatWorldGenerator,
    position: ChunkVector,
)
    requires
        g1.layers@ == g2.layers@,
    ensures
        g1.spec_chunk(position) == g2.spec_chunk(position),
{
}

/// The type id of the cell at height `y` of a layer stack.
fn flat_cell(layers: &Vec<(BlockType, u32)>, y: u32) -> (r: u16)
    ensures
        r == spec_flat_cell(layers@, y as int),
{
    let mut i: usize = 0;
    let mut rem: u32 = y;
    proof {
        assert(layers@.skip(0) =~= layers@);
    }
    while i < layers.len()
        invariant
            i <= layers@.len(),
            spec_flat_cell(layers@.skip(i as int), rem as int) == spec_flat_cell(
                layers@,
                y as int,
            ),
        decreases layers@.len() - i,
    {
        let (block_type, thickness) = layers[i];
        proof {
            assert(layers@.skip(i as int)[0] == layers@[i as int]);
            assert(layers@.skip(i as int).drop_first() =~= layers@.skip(i + 1));
        }
        if rem < thickness {
            return block_type.id();
        }
        rem = rem - thickness;
        i = i + 1;
    }
    proof {
        assert(layers@.skip(layers@.len() as int).len() == 0);
    }
    0
}

impl TerrainGenerator for FlatWorldGenerator {
    open spec fn spec_seed(&self) -> i64 {
        self.seed
    }

    open spec fn spec_name(&self) -> Seq<char> {
        self.name@
    }

    open spec fn spec_chunk(&self, position: ChunkVector) -> ChunkModel {
        spec_flat_chunk(self.layers@, position)
    }

    fn generate_chunk(&self, position: ChunkVector) -> (r: Chunk) {
        let mut chunk = Chunk::new(position, 0);
        if position.y != 0 {
            return chunk;
        }
        let mut blocks: Vec<u32> = Vec::new();
        let mut count: u16 = 0;
        let mut y: usize = 0;
        while y < 16
            invariant
                y <= 16,
                blocks@.len() == y * 256,
                count == count_non_air(blocks@),
                count <= blocks@.len(),
                forall|i: int|
                    0 <= i < blocks@.len() ==> #[trigger] blocks@[i] == spec_flat_section(
                        self.layers@,
                    )[i],
            decreases 16 - y,
        {
            let ty = flat_cell(&self.layers, y as u32);
            let packed = Block::new(ty).pack();
            proof {
                crate::block::lemma_unpack_pack(Block { block_type: ty, metadata: 0 });
            }
            let mut j: usize = 0;
            while j < 256
                invariant
                    y < 16,
                    j <= 256,
                    blocks@.len() == y * 256 + j,
                    count == count_non_air(blocks@),
                    count <= blocks@.len(),
                    ty == spec_flat_cell(self.layers@, y as int),
                    packed == spec_pack(Block { block_type: ty, metadata: 0 }),
                    forall|i: int|
                        0 <= i < blocks@.len() ==> #[trigger] blocks@[i] == spec_flat_section(
                            self.layers@,
                        )[i],
                decreases 256 - j,
            {
                proof {
                    lemma_count_push(blocks@, packed);
                    crate::block::lemma_unpack_pack(Block { block_type: ty, metadata: 0 });
                    let i = y * 256 + j;
                    assert(i / 256 == y) by (nonlinear_arith)
                        requires
                            y < 16,
                            j < 256,
                            i == y * 256 + j,
                    ;
                }
                blocks.push(packed);
                if ty != 0 {
                    count = count + 1;
                }
                j = j + 1;
            }
            y = y + 1;
        }
        proof {
            assert(blocks@ =~= spec_flat_section(self.layers@));
        }
        let section = ChunkSection { blocks, non_air_count: count };
        chunk.set_section(0, section, 0);
        chunk
    }

    fn name(&self) -> (r: &str) {
        self.name.as_str()
    }

    fn seed(&self) -> (r: i64) {
        self.seed
    }
}

} // verus!
