use minecraft_world::pos::{
    block_to_chunk, block_to_local, chunk_index, chunk_to_block, clamp, get_blocks_to_check,
    manhattan_distance, BlockVector, ChunkVector,
};

#[test]
fn block_to_chunk_floors_toward_negative_infinity() {
    assert_eq!(block_to_chunk(0, 0, 0), (0, 0, 0));
    assert_eq!(block_to_chunk(15, 16, 31), (0, 1, 1));
    assert_eq!(block_to_chunk(-1, -16, -17), (-1, -1, -2));
}

#[test]
fn block_to_local_wraps_into_sixteen() {
    assert_eq!(block_to_local(0, 5, 15), (0, 5, 15));
    assert_eq!(block_to_local(16, 17, 31), (0, 1, 15));
    assert_eq!(block_to_local(-1, -16, -17), (15, 0, 15));
}

#[test]
fn chunk_to_block_is_the_minimum_corner_plus_local() {
    assert_eq!(chunk_to_block(1, 2, -1, 3, 4, 5), (19, 36, -11));
}

#[test]
fn chunk_index_is_row_major() {
    assert_eq!(chunk_index(0, 0, 0), 0);
    assert_eq!(chunk_index(1, 0, 0), 1);
    assert_eq!(chunk_index(0, 0, 1), 16);
    assert_eq!(chunk_index(0, 1, 0), 256);
    assert_eq!(chunk_index(15, 15, 15), 4095);
}

#[test]
fn manhattan_distance_sums_axis_gaps() {
    assert_eq!(manhattan_distance(0, 0, 0, 1, 2, 3), 6);
    assert_eq!(manhattan_distance(5, -5, 0, -5, 5, 0), 20);
    assert_eq!(manhattan_distance(1, 1, 1, 1, 1, 1), 0);
}

#[test]
fn vector_distance_and_conversions() {
    let a = BlockVector::new(-3, 70, 14);
    let b = BlockVector::new(2, 64, 14);
    assert_eq!(a.manhattan_distance(&b), 11);
    assert_eq!(a.to_chunk(), ChunkVector::new(-1, 4, 0));
    assert_eq!(a.chunk_local(), (13, 6, 14));
    let c = ChunkVector::new(-1, 4, 0);
    assert_eq!(c.to_block(), BlockVector::new(-16, 64, 0));
    assert_eq!(ChunkVector::from_block(a), c);
    assert_eq!(
        ChunkVector::new(0, 0, 0).manhattan_distance(&ChunkVector::new(2, -2, 2)),
        6
    );
}

#[test]
fn clamp_bounds_its_input() {
    assert_eq!(clamp(5, 0, 10), 5);
    assert_eq!(clamp(-5, 0, 10), 0);
    assert_eq!(clamp(50, 0, 10), 10);
}

#[test]
fn blocks_to_check_covers_the_cube() {
    let center = BlockVector::new(10, 20, 30);
    let blocks = get_blocks_to_check(&center, 1);
    assert_eq!(blocks.len(), 27);
    assert!(blocks.contains(&(10, 20, 30)));
    assert!(blocks.contains(&(9, 19, 29)));
    assert!(blocks.contains(&(11, 21, 31)));
    assert!(!blocks.contains(&(12, 20, 30)));
    let single = get_blocks_to_check(&center, 0);
    assert_eq!(single, vec![(10, 20, 30)]);
}
