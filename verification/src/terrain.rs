//! How a terrain column is filled, and how a chunk is generated from the
//! heights of its columns.

use vstd::prelude::*;
use crate::block::{Block, BlockKind, Direction};
use crate::coords::IVec3;

verus! {

pub open spec fn kind_block(kind: BlockKind) -> Block {
    Block { kind, direction: Direction::Top }
}

/// The block at height `y` of a column whose terrain surface is `max_y`:
/// bedrock at the bottom, then stone, three layers of dirt under a grass
/// top; stone above height 140 and snow above 165; water up to the sea
/// level over low ground, air above.
pub open spec fn terrain_block(y: int, max_y: int) -> Block {
    if y == 0 {
        kind_block(BlockKind::Bedrock)
    } else if y < max_y {
        if y > 165 {
            kind_block(BlockKind::Snow)
        } else if y > 140 {
            kind_block(BlockKind::Stone)
        } else if y == max_y - 1 {
            kind_block(BlockKind::Grass)
        } else if y >= max_y - 4 {
            kind_block(BlockKind::Dirt)
        } else {
            kind_block(BlockKind::Stone)
        }
    } else if y < 64 {
        kind_block(BlockKind::Water)
    } else {
        kind_block(BlockKind::Air)
    }
}

/// The generated block at `pos`, in a column whose terrain surface is
/// `max_y`; only the height of `pos` matters.
pub fn generate_block_at(pos: IVec3, max_y: i32) -> (r: Block)
    ensures
        r == terrain_block(pos.y as int, max_y as int),
{
    let y = pos.y as i64;
    let max_y = max_y as i64;
    if y == 0 {
        Block::from_kind(BlockKind::Bedrock)
    } else if y < max_y {
        if y > 165 {
            Block::from_kind(BlockKind::Snow)
        } else if y > 140 {
            Block::from_kind(BlockKind::Stone)
        } else if y == max_y - 1 {
            Block::from_kind(BlockKind::Grass)
        } else if y >= max_y - 4 {
            Block::from_kind(BlockKind::Dirt)
        } else {
            Block::from_kind(BlockKind::Stone)
        }
    } else if y < crate::SEA_LEVEL as i64 {
        Block::from_kind(BlockKind::Water)
    } else {
        Block::air()
    }
}

/// Every generated block points up, and a column is never air below its
/// surface.
pub proof fn lemma_terrain_block_shape(y: int, max_y: int)
    ensures
        terrain_block(y, max_y).direction == Direction::Top,
        0 <= y < max_y ==> terrain_block(y, max_y).kind != BlockKind::Air,
        y >= max_y && y >= 64 && y != 0 ==> terrain_block(y, max_y).kind == BlockKind::Air,
        y == 0 ==> terrain_block(y, max_y).kind == BlockKind::Bedrock,
{
}

} // verus!
