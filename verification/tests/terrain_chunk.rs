use ferriscraft::block::{Block, BlockKind, Direction};
use ferriscraft::chunk::{BorderHeights, Chunk};
use ferriscraft::coords::{vec3_to_index, IVec3};
use ferriscraft::terrain::generate_block_at;

fn at(y: i32, max_y: i32) -> BlockKind {
    let b = generate_block_at(IVec3::new(3, y, 7), max_y);
    assert_eq!(b.direction, Direction::Top);
    b.kind
}

#[test]
fn terrain_column_layers() {
    assert_eq!(at(0, 70), BlockKind::Bedrock);
    assert_eq!(at(1, 70), BlockKind::Stone);
    assert_eq!(at(65, 70), BlockKind::Stone);
    assert_eq!(at(66, 70), BlockKind::Dirt);
    assert_eq!(at(68, 70), BlockKind::Dirt);
    assert_eq!(at(69, 70), BlockKind::Grass);
    assert_eq!(at(70, 70), BlockKind::Air);
    assert_eq!(at(255, 70), BlockKind::Air);
}

#[test]
fn terrain_water_and_mountains() {
    assert_eq!(at(49, 50), BlockKind::Grass);
    assert_eq!(at(50, 50), BlockKind::Water);
    assert_eq!(at(63, 50), BlockKind::Water);
    assert_eq!(at(64, 50), BlockKind::Air);
    assert_eq!(at(141, 200), BlockKind::Stone);
    assert_eq!(at(140, 200), BlockKind::Stone);
    assert_eq!(at(166, 200), BlockKind::Snow);
    assert_eq!(at(199, 200), BlockKind::Snow);
    assert_eq!(at(0, -5), BlockKind::Bedrock);
}

#[test]
fn new_chunk_is_air() {
    let c = Chunk::new(IVec3::new(2, 0, -3));
    assert_eq!(c.pos, IVec3::new(2, 0, -3));
    assert_eq!(c.blocks.len(), 65536);
    assert!(c.blocks.iter().all(|b| *b == Block::air()));
}

#[test]
fn get_block_reads_by_linear_index() {
    let mut c = Chunk::new(IVec3::new(0, 0, 0));
    let stone = Block::from_kind(BlockKind::Stone);
    c.blocks[vec3_to_index(IVec3::new(0, 1, 0))] = stone;
    assert_eq!(c.get_block(IVec3::new(0, 1, 0)), stone);
    // x = 16 runs into the next row of the same chunk
    assert_eq!(c.get_block(IVec3::new(16, 0, 0)), stone);
    assert_eq!(c.get_block(IVec3::new(1, 1, 0)), Block::air());
    // outside the block list
    assert_eq!(c.get_block(IVec3::new(-1, 0, 0)), Block::air());
    assert_eq!(c.get_block(IVec3::new(0, 256, 15)), Block::air());
}

#[test]
fn relative_chunks() {
    let c = Chunk::new(IVec3::new(2, 0, 3));
    assert_eq!(c.get_relative_chunk(IVec3::new(5, 5, 5)), Some(IVec3::new(2, 0, 3)));
    assert_eq!(c.get_relative_chunk(IVec3::new(-1, 5, 16)), Some(IVec3::new(1, 0, 4)));
    assert_eq!(c.get_relative_chunk(IVec3::new(16, 0, -1)), Some(IVec3::new(3, 0, 2)));
    assert_eq!(c.get_relative_chunk(IVec3::new(5, 256, 5)), None);
    assert_eq!(c.get_relative_chunk(IVec3::new(5, -1, 5)), None);
}

#[test]
fn adjacent_blocks_inside_and_across_borders() {
    let stone = Block::from_kind(BlockKind::Stone);
    let dirt = Block::from_kind(BlockKind::Dirt);
    let mut c = Chunk::new(IVec3::new(0, 0, 0));
    c.blocks[vec3_to_index(IVec3::new(0, 0, 0))] = stone;
    c.blocks[vec3_to_index(IVec3::new(4, 9, 4))] = dirt;
    let heights = BorderHeights { left: [70; 16], back: [70; 16] };

    // inside the chunk: behind, left, below
    let (back, left, down) = c.get_adjacent_blocks(IVec3::new(4, 9, 5), None, None, &heights);
    assert_eq!((back, left, down), (dirt, Block::air(), Block::air()));
    let (_, left, _) = c.get_adjacent_blocks(IVec3::new(5, 9, 4), None, None, &heights);
    assert_eq!(left, dirt);
    let (_, _, down) = c.get_adjacent_blocks(IVec3::new(4, 10, 4), None, None, &heights);
    assert_eq!(down, dirt);

    // across the border with no neighbour loaded: the border terrain
    let (back, left, down) = c.get_adjacent_blocks(IVec3::new(0, 1, 0), None, None, &heights);
    assert_eq!((back, left, down), (stone, stone, stone));
    let (back, left, _) = c.get_adjacent_blocks(IVec3::new(0, 69, 0), None, None, &heights);
    assert_eq!((back.kind, left.kind), (BlockKind::Grass, BlockKind::Grass));

    // below the world is air
    let (_, _, down) = c.get_adjacent_blocks(IVec3::new(0, 0, 0), None, None, &heights);
    assert_eq!(down, Block::air());

    // a loaded neighbour is read instead of the terrain
    let mut left_chunk = Chunk::new(IVec3::new(-1, 0, 0));
    left_chunk.blocks[vec3_to_index(IVec3::new(15, 1, 0))] = dirt;
    let back_chunk = Chunk::new(IVec3::new(0, 0, -1));
    let (back, left, _) =
        c.get_adjacent_blocks(IVec3::new(0, 1, 0), Some(&left_chunk), Some(&back_chunk), &heights);
    assert_eq!((back, left), (Block::air(), dirt));

    // above or below the world everything is air
    let r = c.get_adjacent_blocks(IVec3::new(0, 256, 0), None, None, &heights);
    assert_eq!(r, (Block::air(), Block::air(), Block::air()));
}
