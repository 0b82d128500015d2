//! Integer coordinate spaces: block coordinates, chunk coordinates, and the
//! conversions between them.

use vstd::prelude::*;

verus! {

/// The horizontal and vertical extent of a chunk section, in blocks.
pub const CHUNK_EDGE: usize = 16;

/// The number of cells of one chunk section.
pub const SECTION_VOLUME: usize = 4096;

/// The number of vertical sections of a chunk column.
pub const SECTIONS_PER_CHUNK: usize = 16;

/// The full build height of a chunk column, in blocks.
pub const CHUNK_HEIGHT: usize = 256;

/// A position in block space (one unit per block).
#[derive(Debug, Clone, Copy, PartialEq, Eq, Structural, Hash)]
pub struct BlockVector {
    pub x: i32,
    pub y: i32,
    pub z: i32,
}

/// A position in chunk space (one unit per 16-block chunk).
#[derive(Debug, Clone, Copy, PartialEq, Eq, Structural, Hash)]
pub struct ChunkVector {
    pub x: i32,
    pub y: i32,
    pub z: i32,
}

/// Coordinates this library works with stay well inside `i32`, so that
/// conversions between block space and chunk space and Manhattan distances
/// never overflow.
pub open spec fn coord_in_range(v: int) -> bool {
    -0x0400_0000 <= v <= 0x0400_0000
}

impl BlockVector {
    /// Creates a new block-space vector.
    pub fn new(x: i32, y: i32, z: i32) -> (r: BlockVector)
        ensures
            r == (BlockVector { x, y, z }),
    {
        BlockVector { x, y, z }
    }

    /// The Manhattan distance to another block position.
    pub fn manhattan_distance(&self, other: &BlockVector) -> (r: i32)
        requires
            coord_in_range(self.x as int),
            coord_in_range(self.y as int),
            coord_in_range(self.z as int),
            coord_in_range(other.x as int),
            coord_in_range(other.y as int),
            coord_in_range(other.z as int),
        ensures
            r == abs_diff(self.x as int, other.x as int) + abs_diff(self.y as int, other.y as int)
                + abs_diff(self.z as int, other.z as int),
    {
        let dx = if self.x >= other.x { self.x - other.x } else { other.x - self.x };
        let dy = if self.y >= other.y { self.y - other.y } else { other.y - self.y };
        let dz = if self.z >= other.z { self.z - other.z } else { other.z - self.z };
        dx + dy + dz
    }

    /// The chunk that contains this block position.
    pub fn to_chunk(&self) -> (r: ChunkVector)
        requires
            coord_in_range(self.x as int),
            coord_in_range(self.y as int),
            coord_in_range(self.z as int),
        ensures
            r.x == floor_div_16(self.x as int),
            r.y == floor_div_16(self.y as int),
            r.z == floor_div_16(self.z as int),
    {
        let (cx, cy, cz) = block_to_chunk(self.x, self.y, self.z);
        ChunkVector { x: cx, y: cy, z: cz }
    }

    /// The position of this block inside its chunk, on each axis in
    /// `[0, 16)`.
    pub fn chunk_local(&self) -> (r: (usize, usize, usize))
        requires
            coord_in_range(self.x as int),
            coord_in_range(self.y as int),
            coord_in_range(self.z as int),
        ensures
            r.0 == mod_16(self.x as int),
            r.1 == mod_16(self.y as int),
            r.2 == mod_16(self.z as int),
    {
        block_to_local(self.x, self.y, self.z)
    }
}

impl ChunkVector {
    /// Creates a new chunk-space vector.
    pub fn new(x: i32, y: i32, z: i32) -> (r: ChunkVector)
        ensures
            r == (ChunkVector { x, y, z }),
    {
        ChunkVector { x, y, z }
    }

    /// Creates a chunk vector from the block position it contains.
    pub fn from_block(block: BlockVector) -> (r: ChunkVector)
        requires
            coord_in_range(block.x as int),
            coord_in_range(block.y as int),
            coord_in_range(block.z as int),
        ensures
            r.x == floor_div_16(block.x as int),
            r.y == floor_div_16(block.y as int),
            r.z == floor_div_16(block.z as int),
    {
        block.to_chunk()
    }

    /// The Manhattan distance to another chunk position.
    pub fn manhattan_distance(&self, other: &ChunkVector) -> (r: i32)
        requires
            coord_in_range(self.x as int),
            coord_in_range(self.y as int),
            coord_in_range(self.z as int),
            coord_in_range(other.x as int),
            coord_in_range(other.y as int),
            coord_in_range(other.z as int),
        ensures
            r == abs_diff(self.x as int, other.x as int) + abs_diff(self.y as int, other.y as int)
                + abs_diff(self.z as int, other.z as int),
    {
        let dx = if self.x >= other.x { self.x - other.x } else { other.x - self.x };
        let dy = if self.y >= other.y { self.y - other.y } else { other.y - self.y };
        let dz = if self.z >= other.z { self.z - other.z } else { other.z - self.z };
        dx + dy + dz
    }

    /// The minimum corner of this chunk, in block space.
    pub fn to_block(&self) -> (r: BlockVector)
        requires
            coord_in_range(self.x as int),
            coord_in_range(self.y as int),
            coord_in_range(self.z as int),
        ensures
            r.x == 16 * self.x,
            r.y == 16 * self.y,
            r.z == 16 * self.z,
    {
        BlockVector { x: self.x * 16, y: self.y * 16, z: self.z * 16 }
    }
}

/// The absolute difference of two integers.
pub open spec fn abs_diff(a: int, b: int) -> int {
    if a >= b {
        a - b
    } else {
        b - a
    }
}

/// Division by 16 rounded toward negative infinity, the chunk coordinate of
/// a block coordinate.  `int` division in specifications already rounds this
/// way.
pub open spec fn floor_div_16(v: int) -> int {
    v / 16
}

/// The remainder of division by 16, always in `[0, 16)`.
pub open spec fn mod_16(v: int) -> int {
    v % 16
}

/// Converts block coordinates to the coordinates of the containing chunk,
/// rounding toward negative infinity on every axis.
pub fn block_to_chunk(block_x: i32, block_y: i32, block_z: i32) -> (r: (i32, i32, i32))
    requires
        coord_in_range(block_x as int),
        coord_in_range(block_y as int),
        coord_in_range(block_z as int),
    ensures
        r.0 == floor_div_16(block_x as int),
        r.1 == floor_div_16(block_y as int),
        r.2 == floor_div_16(block_z as int),
{
    (floor_div_16_exec(block_x), floor_div_16_exec(block_y), floor_div_16_exec(block_z))
}

/// Converts block coordinates to coordinates local to the containing chunk,
/// each in `[0, 16)`.
pub fn block_to_local(block_x: i32, block_y: i32, block_z: i32) -> (r: (usize, usize, usize))
    requires
        coord_in_range(block_x as int),
        coord_in_range(block_y as int),
        coord_in_range(block_z as int),
    ensures
        r.0 == mod_16(block_x as int),
        r.1 == mod_16(block_y as int),
        r.2 == mod_16(block_z as int),
        r.0 < 16 && r.1 < 16 && r.2 < 16,
{
    (mod_16_exec(block_x), mod_16_exec(block_y), mod_16_exec(block_z))
}

/// Converts chunk coordinates and local coordinates back to block
/// coordinates.
pub fn chunk_to_block(
    chunk_x: i32,
    chunk_y: i32,
    chunk_z: i32,
    local_x: usize,
    local_y: usize,
    local_z: usize,
) -> (r: (i32, i32, i32))
    requires
        coord_in_range(chunk_x as int),
        coord_in_range(chunk_y as int),
        coord_in_range(chunk_z as int),
        local_x < 16,
        local_y < 16,
        local_z < 16,
    ensures
        r.0 == 16 * chunk_x + local_x,
        r.1 == 16 * chunk_y + local_y,
        r.2 == 16 * chunk_z + local_z,
{
    (
        chunk_x * 16 + local_x as i32,
        chunk_y * 16 + local_y as i32,
        chunk_z * 16 + local_z as i32,
    )
}

/// The flat cell index of a local position inside a 16x16x16 section, in
/// row-major order: `y * 256 + z * 16 + x`.
pub open spec fn spec_chunk_index(x: int, y: int, z: int) -> int {
    y * 256 + z * 16 + x
}

/// Calculates the flat index of a local position inside a section.
pub fn chunk_index(x: usize, y: usize, z: usize) -> (r: usize)
    requires
        x < 16,
        y < 16,
        z < 16,
    ensures
        r == spec_chunk_index(x as int, y as int, z as int),
        r < 4096,
{
    y * 256 + z * 16 + x
}

/// Distinct local positions have distinct flat indices: the row-major index
/// formula is injective on the 16x16x16 cell grid.
pub proof fn lemma_chunk_index_injective(
    x1: int,
    y1: int,
    z1: int,
    x2: int,
    y2: int,
    z2: int,
)
    requires
        0 <= x1 < 16,
        0 <= y1 < 16,
        0 <= z1 < 16,
        0 <= x2 < 16,
        0 <= y2 < 16,
        0 <= z2 < 16,
        spec_chunk_index(x1, y1, z1) == spec_chunk_index(x2, y2, z2),
    ensures
        x1 == x2 && y1 == y2 && z1 == z2,
{
}

/// The Manhattan distance between two points.
pub fn manhattan_distance(x1: i32, y1: i32, z1: i32, x2: i32, y2: i32, z2: i32) -> (r: i32)
    requires
        coord_in_range(x1 as int),
        coord_in_range(y1 as int),
        coord_in_range(z1 as int),
        coord_in_range(x2 as int),
        coord_in_range(y2 as int),
        coord_in_range(z2 as int),
    ensures
        r == abs_diff(x1 as int, x2 as int) + abs_diff(y1 as int, y2 as int) + abs_diff(
            z1 as int,
            z2 as int,
        ),
{
    let dx = if x2 >= x1 { x2 - x1 } else { x1 - x2 };
    let dy = if y2 >= y1 { y2 - y1 } else { y1 - y2 };
    let dz = if z2 >= z1 { z2 - z1 } else { z1 - z2 };
    dx + dy + dz
}

/// Clamps a value to the inclusive range `[min, max]`.
pub fn clamp(value: i64, min: i64, max: i64) -> (r: i64)
    requires
        min <= max,
    ensures
        min <= r <= max,
        r == if value < min {
            min
        } else if value > max {
            max
        } else {
            value
        },
{
    if value < min {
        min
    } else if value > max {
        max
    } else {
        value
    }
}

/// Lists every block position of the cube of the given radius around a
/// center position, in lexicographic x, y, z order.
pub fn get_blocks_to_check(position: &BlockVector, radius: i32) -> (r: Vec<(i32, i32, i32)>)
    requires
        0 <= radius <= 8,
        coord_in_range(position.x as int),
        coord_in_range(position.y as int),
        coord_in_range(position.z as int),
    ensures
        r@.len() == (2 * radius + 1) * (2 * radius + 1) * (2 * radius + 1),
        forall|k: int|
            0 <= k < r@.len() ==> #[trigger] in_cube(
                r@[k],
                *position,
                radius as int,
            ),
{
    let mut blocks: Vec<(i32, i32, i32)> = Vec::new();
    let side: i32 = 2 * radius + 1;
    let mut x = position.x - radius;
    while x <= position.x + radius
        invariant
            0 <= radius <= 8,
            coord_in_range(position.x as int),
            coord_in_range(position.y as int),
            coord_in_range(position.z as int),
            position.x - radius <= x <= position.x + radius + 1,
            side == 2 * radius + 1,
            blocks@.len() == (x - (position.x - radius)) * side * side,
            forall|k: int|
                0 <= k < blocks@.len() ==> #[trigger] in_cube(blocks@[k], *position, radius as int),
        decreases position.x + radius + 1 - x,
    {
        let ghost len_x: int = blocks@.len() as int;
        let ghost x_off: int = x - (position.x - radius);
        let mut y = position.y - radius;
        while y <= position.y + radius
            invariant
                0 <= radius <= 8,
                coord_in_range(position.x as int),
                coord_in_range(position.y as int),
                coord_in_range(position.z as int),
                position.x - radius <= x <= position.x + radius,
                position.y - radius <= y <= position.y + radius + 1,
                side == 2 * radius + 1,
                len_x == x_off * side * side,
                x_off == x - (position.x - radius),
                blocks@.len() == len_x + (y - (position.y - radius)) * side,
                forall|k: int|
                    0 <= k < blocks@.len() ==> #[trigger] in_cube(
                        blocks@[k],
                        *position,
                        radius as int,
                    ),
            decreases position.y + radius + 1 - y,
        {
            let ghost len_y: int = blocks@.len() as int;
            let mut z = position.z - radius;
            while z <= position.z + radius
                invariant
                    0 <= radius <= 8,
                    coord_in_range(position.x as int),
                    coord_in_range(position.y as int),
                    coord_in_range(position.z as int),
                    position.x - radius <= x <= position.x + radius,
                    position.y - radius <= y <= position.y + radius,
                    position.z - radius <= z <= position.z + radius + 1,
                    side == 2 * radius + 1,
                    blocks@.len() == len_y + (z - (position.z - radius)),
                    forall|k: int|
                        0 <= k < blocks@.len() ==> #[trigger] in_cube(
                            blocks@[k],
                            *position,
                            radius as int,
                        ),
                decreases position.z + radius + 1 - z,
            {
                blocks.push((x, y, z));
                z = z + 1;
            }
            proof {
                assert(blocks@.len() == len_y + side);
                assert((y + 1 - (position.y - radius)) * side == (y - (position.y - radius)) * side
                    + side) by (nonlinear_arith);
            }
            y = y + 1;
        }
        proof {
            assert(blocks@.len() == len_x + side * side);
            assert((x_off + 1) * side * side == x_off * side * side + side * side)
                by (nonlinear_arith);
        }
        x = x + 1;
    }
    proof {
        let s = side as int;
        assert(blocks@.len() == (2 * radius + 1) * s * s);
    }
    blocks
}

/// Whether a listed position lies inside the cube of the given radius
/// around a center.
pub open spec fn in_cube(p: (i32, i32, i32), center: BlockVector, radius: int) -> bool {
    center.x - radius <= p.0 <= center.x + radius && center.y - radius <= p.1 <= center.y + radius
        && center.z - radius <= p.2 <= center.z + radius
}

/// Division by 16 rounded toward negative infinity on machine integers.
fn floor_div_16_exec(v: i32) -> (r: i32)
    requires
        coord_in_range(v as int),
    ensures
        r == floor_div_16(v as int),
{
    if v < 0 && v % 16 != 0 {
        v / 16 - 1
    } else {
        v / 16
    }
}

/// The remainder of division by 16 in `[0, 16)` on machine integers.
fn mod_16_exec(v: i32) -> (r: usize)
    requires
        coord_in_range(v as int),
    ensures
        r == mod_16(v as int),
        r < 16,
{
    (((v % 16) + 16) % 16) as usize
}

} // verus!
