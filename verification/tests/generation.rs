use ferriscraft::block::{Block, BlockKind};
use ferriscraft::chunk::Chunk;
use ferriscraft::coords::{vec3_to_index, IVec3};
use ferriscraft::generate::{generate_chunk, tree_block, ColumnNoise};
use ferriscraft::saved::SavedChunk;

fn flat(height: i32) -> ColumnNoise {
    ColumnNoise { heights: vec![height; 256], trees: vec![false; 256], ferris: vec![false; 256] }
}

fn kind(c: &Chunk, x: i32, y: i32, z: i32) -> BlockKind {
    c.blocks[vec3_to_index(IVec3::new(x, y, z))].kind
}

#[test]
fn tree_shape_layers() {
    assert_eq!(tree_block(0, 2, 2).kind, BlockKind::Wood);
    assert_eq!(tree_block(0, 1, 2).kind, BlockKind::Air);
    assert_eq!(tree_block(3, 1, 1).kind, BlockKind::Leaf);
    assert_eq!(tree_block(3, 0, 2).kind, BlockKind::Air);
    assert_eq!(tree_block(4, 2, 2).kind, BlockKind::Wood);
    assert_eq!(tree_block(4, 0, 0).kind, BlockKind::Air);
    assert_eq!(tree_block(4, 0, 1).kind, BlockKind::Leaf);
    assert_eq!(tree_block(5, 2, 2).kind, BlockKind::Leaf);
    assert_eq!(tree_block(6, 1, 3).kind, BlockKind::Leaf);
    assert_eq!(tree_block(6, 0, 2).kind, BlockKind::Air);
}

#[test]
fn flat_terrain() {
    let (c, ferris) = generate_chunk(IVec3::new(3, 0, -2), &flat(70), None);
    assert_eq!(c.pos, IVec3::new(3, 0, -2));
    assert!(ferris.is_empty());
    for (x, z) in [(0, 0), (15, 15), (7, 3)] {
        assert_eq!(kind(&c, x, 0, z), BlockKind::Bedrock);
        assert_eq!(kind(&c, x, 65, z), BlockKind::Stone);
        assert_eq!(kind(&c, x, 66, z), BlockKind::Dirt);
        assert_eq!(kind(&c, x, 69, z), BlockKind::Grass);
        assert_eq!(kind(&c, x, 70, z), BlockKind::Air);
    }
}

#[test]
fn tree_of_the_last_column_stands() {
    let mut cols = flat(70);
    cols.trees[255] = true;
    let (c, _) = generate_chunk(IVec3::new(0, 0, 0), &cols, None);
    for y in 70..75 {
        assert_eq!(kind(&c, 5, y, 5), BlockKind::Wood);
    }
    assert_eq!(kind(&c, 5, 75, 5), BlockKind::Leaf);
    assert_eq!(kind(&c, 4, 73, 4), BlockKind::Leaf);
    assert_eq!(kind(&c, 3, 74, 3), BlockKind::Air);
    assert_eq!(kind(&c, 4, 74, 3), BlockKind::Leaf);
    assert_eq!(kind(&c, 5, 76, 5), BlockKind::Leaf);
    assert_eq!(kind(&c, 5, 77, 5), BlockKind::Air);
    assert_eq!(kind(&c, 2, 73, 5), BlockKind::Air);
    assert_eq!(kind(&c, 5, 69, 5), BlockKind::Grass);
}

#[test]
fn tree_needs_a_surface_between_67_and_89() {
    let mut cols = flat(90);
    cols.trees[255] = true;
    let (c, _) = generate_chunk(IVec3::new(0, 0, 0), &cols, None);
    assert_eq!(kind(&c, 5, 90, 5), BlockKind::Air);
    let mut cols = flat(66);
    cols.trees[255] = true;
    let (c, _) = generate_chunk(IVec3::new(0, 0, 0), &cols, None);
    assert_eq!(kind(&c, 5, 66, 5), BlockKind::Air);
    let mut cols = flat(67);
    cols.trees[255] = true;
    let (c, _) = generate_chunk(IVec3::new(0, 0, 0), &cols, None);
    assert_eq!(kind(&c, 5, 67, 5), BlockKind::Wood);
}

#[test]
fn tree_of_an_early_column_is_covered_by_later_columns() {
    let mut cols = flat(70);
    cols.trees[0] = true;
    let (c, _) = generate_chunk(IVec3::new(0, 0, 0), &cols, None);
    assert_eq!(kind(&c, 5, 70, 5), BlockKind::Air);
    assert_eq!(kind(&c, 4, 73, 4), BlockKind::Air);
    assert_eq!(kind(&c, 5, 69, 5), BlockKind::Grass);
}

#[test]
fn ferris_stands_on_the_surface_above_the_sea() {
    let mut cols = flat(70);
    cols.ferris[17] = true;
    cols.ferris[40] = true;
    cols.heights[40] = 64;
    cols.ferris[255] = true;
    let (_, ferris) = generate_chunk(IVec3::new(1, 0, -1), &cols, None);
    assert_eq!(ferris, vec![IVec3::new(17, 70, -15), IVec3::new(31, 70, -1)]);
}

#[test]
fn saved_changes_override_generation() {
    let plank = Block::from_kind(BlockKind::Plank);
    let mut saved = SavedChunk::single(IVec3::new(5, 69, 5), plank);
    saved.insert(IVec3::new(0, 0, 0), Block::air());
    let (c, _) = generate_chunk(IVec3::new(0, 0, 0), &flat(70), Some(&saved));
    assert_eq!(c.blocks[vec3_to_index(IVec3::new(5, 69, 5))], plank);
    assert_eq!(kind(&c, 0, 0, 0), BlockKind::Air);
    assert_eq!(kind(&c, 1, 0, 0), BlockKind::Bedrock);
}
