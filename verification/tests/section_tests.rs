use minecraft_world::block::Block;
use minecraft_world::section::ChunkSection;

#[test]
fn new_section_is_all_air() {
    let s = ChunkSection::new();
    assert_eq!(s.count_non_air_blocks(), 0);
    assert!(s.is_empty());
    assert!(!s.is_full());
    assert!(s.get_block(0, 0, 0).is_air());
    assert!(s.get_block(15, 15, 15).is_air());
}

#[test]
fn set_then_get() {
    let mut s = ChunkSection::new();
    s.set_block(3, 4, 5, Block::with_metadata(7, 9));
    let b = s.get_block(3, 4, 5);
    assert_eq!(b.block_type, 7);
    assert_eq!(b.metadata, 9);
    assert!(s.get_block(5, 4, 3).is_air());
}

#[test]
fn counter_follows_air_transitions() {
    let mut s = ChunkSection::new();
    s.set_block(0, 0, 0, Block::new(1));
    assert_eq!(s.count_non_air_blocks(), 1);
    s.set_block(0, 0, 0, Block::new(2));
    assert_eq!(s.count_non_air_blocks(), 1);
    s.set_block(1, 0, 0, Block::new(3));
    assert_eq!(s.count_non_air_blocks(), 2);
    s.set_block(0, 0, 0, Block::new(0));
    assert_eq!(s.count_non_air_blocks(), 1);
    s.set_block(1, 0, 0, Block::new(0));
    assert_eq!(s.count_non_air_blocks(), 0);
    s.set_block(2, 2, 2, Block::new(0));
    assert_eq!(s.count_non_air_blocks(), 0);
}

#[test]
fn counter_matches_scan_after_many_writes() {
    let mut s = ChunkSection::new();
    for i in 0..64usize {
        let t = (i % 3) as u16;
        s.set_block(i % 16, (i / 16) % 16, (i * 7) % 16, Block::new(t));
    }
    let mut scan = 0usize;
    for x in 0..16 {
        for y in 0..16 {
            for z in 0..16 {
                if !s.get_block(x, y, z).is_air() {
                    scan += 1;
                }
            }
        }
    }
    assert_eq!(s.count_non_air_blocks(), scan);
}

#[test]
fn out_of_range_writes_are_ignored() {
    let mut s = ChunkSection::new();
    s.set_block(16, 0, 0, Block::new(1));
    s.set_block(0, 16, 0, Block::new(1));
    s.set_block(0, 0, 16, Block::new(1));
    assert_eq!(s.count_non_air_blocks(), 0);
    assert!(s.get_block(16, 0, 0).is_air());
}

#[test]
fn fill_sets_every_cell() {
    let mut s = ChunkSection::new();
    s.fill(Block::new(1));
    assert_eq!(s.count_non_air_blocks(), 4096);
    assert!(s.is_full());
    assert_eq!(s.get_block(9, 9, 9).block_type, 1);
    s.fill(Block::new(0));
    assert!(s.is_empty());
}

#[test]
fn fill_with_uses_default_metadata() {
    let mut s = ChunkSection::new();
    s.fill_with(3);
    let b = s.get_block(1, 2, 3);
    assert_eq!(b.block_type, 3);
    assert_eq!(b.metadata, 0);
}

#[test]
fn clone_section_copies_cells_and_counter() {
    let mut s = ChunkSection::new();
    s.set_block(1, 2, 3, Block::new(5));
    let c = s.clone_section();
    assert_eq!(c.count_non_air_blocks(), 1);
    assert_eq!(c.get_block(1, 2, 3).block_type, 5);
}
