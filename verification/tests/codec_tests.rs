use minecraft_world::block::Block;
use minecraft_world::chunk::Chunk;
use minecraft_world::codec::CodecError;
use minecraft_world::pos::ChunkVector;

fn sample_chunk() -> Chunk {
    let mut c = Chunk::new(ChunkVector::new(-5, 2, 9), 1111);
    c.set_block(0, 0, 0, Block::with_metadata(7, 3), 2222);
    c.set_block(15, 255, 15, Block::new(1), 2222);
    c.set_block(8, 100, 8, Block::new(2), 2222);
    c
}

#[test]
fn round_trip_preserves_everything() {
    let c = sample_chunk();
    let bytes = c.serialize();
    let d = Chunk::deserialize(&bytes).unwrap();
    assert_eq!(d.position(), ChunkVector::new(-5, 2, 9));
    assert_eq!(d.created_at, 1111);
    assert_eq!(d.last_modified, 2222);
    assert!(!d.is_dirty());
    assert_eq!(d.count_non_air_blocks(), 3);
    let b = d.get_block(0, 0, 0).unwrap();
    assert_eq!(b.block_type, 7);
    assert_eq!(b.metadata, 3);
    assert_eq!(d.get_block(15, 255, 15).unwrap().block_type, 1);
    assert_eq!(d.get_block(8, 100, 8).unwrap().block_type, 2);
    assert_eq!(d.serialize(), bytes);
}

#[test]
fn empty_chunk_encodes_to_fixed_header() {
    let c = Chunk::new(ChunkVector::new(0, 0, 0), 0);
    let bytes = c.serialize();
    assert_eq!(bytes.len(), 16 + 16);
    assert!(bytes.iter().all(|&b| b == 0));
    let d = Chunk::deserialize(&bytes).unwrap();
    assert_eq!(d.count_non_air_blocks(), 0);
}

#[test]
fn missing_sections_read_as_air_after_load() {
    let mut c = Chunk::new(ChunkVector::new(0, 0, 0), 0);
    c.set_block(0, 40, 0, Block::new(1), 0);
    let d = Chunk::deserialize(&c.serialize()).unwrap();
    assert!(d.get_block(0, 0, 0).is_none());
    assert_eq!(d.get_block(0, 40, 0).unwrap().block_type, 1);
}

#[test]
fn truncated_data_is_rejected() {
    let c = sample_chunk();
    let bytes = c.serialize();
    assert_eq!(Chunk::deserialize(&bytes[..10]).unwrap_err(), CodecError::Truncated);
    assert_eq!(
        Chunk::deserialize(&bytes[..bytes.len() - 1]).unwrap_err(),
        CodecError::Truncated
    );
    assert_eq!(Chunk::deserialize(&[]).unwrap_err(), CodecError::Truncated);
}

#[test]
fn oversized_section_count_is_rejected() {
    let mut bytes = Chunk::new(ChunkVector::new(0, 0, 0), 0).serialize();
    bytes[12] = 17;
    assert_eq!(Chunk::deserialize(&bytes).unwrap_err(), CodecError::TooManySections);
}

#[test]
fn out_of_order_section_indices_are_rejected() {
    let mut c = Chunk::new(ChunkVector::new(0, 0, 0), 0);
    c.set_block(0, 0, 0, Block::new(1), 0);
    c.set_block(0, 20, 0, Block::new(1), 0);
    let mut bytes = c.serialize();
    // The two section records start at offset 16; swap their index words.
    let second = 16 + 4 + 4096 * 4;
    bytes[16] = 1;
    bytes[second] = 0;
    assert_eq!(Chunk::deserialize(&bytes).unwrap_err(), CodecError::BadSectionIndex);
}

#[test]
fn section_index_out_of_range_is_rejected() {
    let mut c = Chunk::new(ChunkVector::new(0, 0, 0), 0);
    c.set_block(0, 0, 0, Block::new(1), 0);
    let mut bytes = c.serialize();
    bytes[16] = 16;
    assert_eq!(Chunk::deserialize(&bytes).unwrap_err(), CodecError::BadSectionIndex);
}

#[test]
fn trailing_bytes_are_rejected() {
    let mut bytes = sample_chunk().serialize();
    bytes.push(0);
    assert_eq!(Chunk::deserialize(&bytes).unwrap_err(), CodecError::TrailingData);
}

#[test]
fn equal_chunks_have_identical_bytes() {
    let a = sample_chunk();
    let b = sample_chunk();
    assert_eq!(a.serialize(), b.serialize());
}
