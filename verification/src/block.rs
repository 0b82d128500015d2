//! Blocks: a typed, metadata-bearing cell of the world grid, with its
//! canonical packed 32-bit encoding and the static block-property table.

use vstd::prelude::*;

verus! {

/// A block in the game world: a pair of a 16-bit type identifier and
/// 16-bit metadata.  Type id 0 is reserved for air.
#[derive(Debug, Clone, Copy, PartialEq, Eq, Structural, Hash)]
pub struct Block {
    /// The type of the block.
    pub block_type: u16,
    /// Additional metadata for the block.
    pub metadata: u16,
}

/// The canonical packed encoding of a block: the type id in the upper
/// 16 bits, the metadata in the lower 16 bits.
pub open spec fn spec_pack(b: Block) -> u32 {
    ((b.block_type as u32) << 16) | (b.metadata as u32)
}

/// The inverse of `spec_pack`.
pub open spec fn spec_unpack(packed: u32) -> Block {
    Block {
        block_type: ((packed >> 16) & 0xFFFF) as u16,
        metadata: (packed & 0xFFFF) as u16,
    }
}

/// The packed encoding equals `type_id * 2^16 + metadata`.
pub proof fn lemma_pack_value(b: Block)
    ensures
        spec_pack(b) == b.block_type * 0x10000 + b.metadata,
{
    let t = b.block_type as u32;
    let m = b.metadata as u32;
    assert((t << 16) | m == t * 0x10000 + m) by (bit_vector)
        requires
            t < 0x10000,
            m < 0x10000,
    ;
}

/// Packing then unpacking returns the block unchanged, for every
/// representable block.
pub proof fn lemma_unpack_pack(b: Block)
    ensures
        spec_unpack(spec_pack(b)) == b,
{
    let t = b.block_type as u32;
    let m = b.metadata as u32;
    assert(((((t << 16) | m) >> 16) & 0xFFFF) == t) by (bit_vector)
        requires
            t < 0x10000,
            m < 0x10000,
    ;
    assert((((t << 16) | m) & 0xFFFF) == m) by (bit_vector)
        requires
            t < 0x10000,
            m < 0x10000,
    ;
}

/// Unpacking then packing returns the packed word unchanged: the packed
/// encoding is a bijection between blocks and 32-bit words.
pub proof fn lemma_pack_unpack(packed: u32)
    ensures
        spec_pack(spec_unpack(packed)) == packed,
{
    assert(((((packed >> 16) & 0xFFFF) as u16 as u32) << 16) | ((packed & 0xFFFF) as u16 as u32)
        == packed) by (bit_vector);
}

impl Block {
    /// Creates a new block of the given type with metadata 0.
    pub fn new(block_type: u16) -> (r: Block)
        ensures
            r == (Block { block_type, metadata: 0u16 }),
    {
        Block { block_type, metadata: 0 }
    }

    /// Creates a new block with the given type and metadata.
    pub fn with_metadata(block_type: u16, metadata: u16) -> (r: Block)
        ensures
            r == (Block { block_type, metadata }),
    {
        Block { block_type, metadata }
    }

    /// Returns whether this block is air (type id 0).
    pub fn is_air(&self) -> (r: bool)
        ensures
            r == (self.block_type == 0),
    {
        self.block_type == 0
    }

    /// Packs the block into a single 32-bit word.
    pub fn pack(&self) -> (r: u32)
        ensures
            r == spec_pack(*self),
    {
        ((self.block_type as u32) << 16) | (self.metadata as u32)
    }

    /// Unpacks a block from a 32-bit word.
    pub fn unpack(packed: u32) -> (r: Block)
        ensures
            r == spec_unpack(packed),
    {
        Block {
            block_type: ((packed >> 16) & 0xFFFF) as u16,
            metadata: (packed & 0xFFFF) as u16,
        }
    }
}

/// The block types this library works with, each with a fixed type id.
#[derive(Debug, Clone, Copy, PartialEq, Eq, Structural, Hash)]
pub enum BlockType {
    Air,
    Stone,
    Grass,
    Dirt,
    Bedrock,
    Water,
    Sand,
    GoldOre,
    IronOre,
    CoalOre,
    OakLog,
    OakLeaves,
    DiamondOre,
    RedstoneOre,
}

impl BlockType {
    /// The type id of this block type.
    pub open spec fn spec_id(self) -> u16 {
        match self {
            BlockType::Air => 0,
            BlockType::Stone => 1,
            BlockType::Grass => 2,
            BlockType::Dirt => 3,
            BlockType::Bedrock => 7,
            BlockType::Water => 9,
            BlockType::Sand => 12,
            BlockType::GoldOre => 14,
            BlockType::IronOre => 15,
            BlockType::CoalOre => 16,
            BlockType::OakLog => 17,
            BlockType::OakLeaves => 18,
            BlockType::DiamondOre => 56,
            BlockType::RedstoneOre => 73,
        }
    }

    /// Returns the type id of this block type.
    pub fn id(self) -> (r: u16)
        ensures
            r == self.spec_id(),
    {
        match self {
            BlockType::Air => 0,
            BlockType::Stone => 1,
            BlockType::Grass => 2,
            BlockType::Dirt => 3,
            BlockType::Bedrock => 7,
            BlockType::Water => 9,
            BlockType::Sand => 12,
            BlockType::GoldOre => 14,
            BlockType::IronOre => 15,
            BlockType::CoalOre => 16,
            BlockType::OakLog => 17,
            BlockType::OakLeaves => 18,
            BlockType::DiamondOre => 56,
            BlockType::RedstoneOre => 73,
        }
    }
}

/// Whether a block of the given type can be collided with.  Air and
/// fluids are the only non-solid types of the table.
pub open spec fn spec_is_solid(type_id: u16) -> bool {
    type_id != 0 && type_id != 9
}

/// Whether light passes through a block of the given type.
pub open spec fn spec_is_transparent(type_id: u16) -> bool {
    type_id == 0 || type_id == 9 || type_id == 18
}

/// Whether a block of the given type is a fluid.
pub open spec fn spec_is_fluid(type_id: u16) -> bool {
    type_id == 9
}

impl Block {
    /// Whether this block can be collided with; air is never solid.
    pub fn is_solid(&self) -> (r: bool)
        ensures
            r == spec_is_solid(self.block_type),
    {
        if self.block_type == 0 {
            return false;
        }
        self.block_type != BlockType::Water.id()
    }

    /// Whether light passes through this block; air always lets light
    /// through.
    pub fn is_transparent(&self) -> (r: bool)
        ensures
            r == spec_is_transparent(self.block_type),
    {
        if self.block_type == 0 {
            return true;
        }
        self.block_type == BlockType::Water.id() || self.block_type == BlockType::OakLeaves.id()
    }

    /// Whether this block is a fluid; air is not.
    pub fn is_fluid(&self) -> (r: bool)
        ensures
            r == spec_is_fluid(self.block_type),
    {
        if self.block_type == 0 {
            return false;
        }
        self.block_type == BlockType::Water.id()
    }

    /// The light emitted by this block, 0 to 15; none of the types of the
    /// table emits light, and air never does.
    pub fn light_emission(&self) -> (r: u8)
        ensures
            r == 0,
    {
        0
    }
}

/// The face carrying a given id, 0 to 5.
pub open spec fn spec_face_of(id: int) -> BlockFace {
    if id == 0 {
        BlockFace::Top
    } else if id == 1 {
        BlockFace::Bottom
    } else if id == 2 {
        BlockFace::North
    } else if id == 3 {
        BlockFace::South
    } else if id == 4 {
        BlockFace::East
    } else {
        BlockFace::West
    }
}

/// The six faces of a block.
#[derive(Debug, Clone, Copy, PartialEq, Eq, Structural, Hash)]
pub enum BlockFace {
    Top,
    Bottom,
    North,
    South,
    East,
    West,
}

impl BlockFace {
    /// The opposite face.
    pub fn opposite(&self) -> (r: BlockFace)
        ensures
            r == match *self {
                BlockFace::Top => BlockFace::Bottom,
                BlockFace::Bottom => BlockFace::Top,
                BlockFace::North => BlockFace::South,
                BlockFace::South => BlockFace::North,
                BlockFace::East => BlockFace::West,
                BlockFace::West => BlockFace::East,
            },
    {
        match self {
            BlockFace::Top => BlockFace::Bottom,
            BlockFace::Bottom => BlockFace::Top,
            BlockFace::North => BlockFace::South,
            BlockFace::South => BlockFace::North,
            BlockFace::East => BlockFace::West,
            BlockFace::West => BlockFace::East,
        }
    }

    /// The face with the given id, taken modulo six.
    pub fn from_id(id: u8) -> (r: BlockFace)
        ensures
            r == spec_face_of(id as int % 6),
    {
        match id % 6 {
            0 => BlockFace::Top,
            1 => BlockFace::Bottom,
            2 => BlockFace::North,
            3 => BlockFace::South,
            4 => BlockFace::East,
            _ => BlockFace::West,
        }
    }

    /// The id of this face, 0 to 5.
    pub fn to_id(&self) -> (r: u8)
        ensures
            r == match *self {
                BlockFace::Top => 0int,
                BlockFace::Bottom => 1int,
                BlockFace::North => 2int,
                BlockFace::South => 3int,
                BlockFace::East => 4int,
                BlockFace::West => 5int,
            },
    {
        match self {
            BlockFace::Top => 0,
            BlockFace::Bottom => 1,
            BlockFace::North => 2,
            BlockFace::South => 3,
            BlockFace::East => 4,
            BlockFace::West => 5,
        }
    }

    /// All six faces, in id order.
    pub fn all() -> (r: [BlockFace; 6])
        ensures
            r@ == seq![
                BlockFace::Top,
                BlockFace::Bottom,
                BlockFace::North,
                BlockFace::South,
                BlockFace::East,
                BlockFace::West,
            ],
    {
        let faces = [
            BlockFace::Top,
            BlockFace::Bottom,
            BlockFace::North,
            BlockFace::South,
            BlockFace::East,
            BlockFace::West,
        ];
        proof {
            assert(faces@ =~= seq![
                BlockFace::Top,
                BlockFace::Bottom,
                BlockFace::North,
                BlockFace::South,
                BlockFace::East,
                BlockFace::West,
            ]);
        }
        faces
    }
}

} // verus!
