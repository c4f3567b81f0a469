//! A chunk: a 16 x 256 x 16 column of blocks, and what its neighbours are.

use vstd::prelude::*;
use crate::block::{Block, BlockKind, Direction};
use crate::coords::{IVec3, in_chunk, linear_index, vec3_to_index};
use crate::terrain::{generate_block_at, terrain_block};

verus! {

pub open spec fn air_block() -> Block {
    Block { kind: BlockKind::Air, direction: Direction::Top }
}

/// The blocks of a chunk at chunk position `pos` (the chunk covers world
/// columns `pos.x * 16 .. pos.x * 16 + 16` and `pos.z * 16 .. pos.z * 16 + 16`).
pub struct Chunk {
    pub pos: IVec3,
    pub blocks: Vec<Block>,
}

/// Terrain surface heights of the columns that border a chunk on its left
/// (`x = -1`, indexed by `z`) and at its back (`z = -1`, indexed by `x`),
/// used where the neighbouring chunk is not loaded.
pub struct BorderHeights {
    pub left: [i32; 16],
    pub back: [i32; 16],
}

impl Chunk {
    /// A chunk holds exactly one block per local position.
    pub open spec fn wf(&self) -> bool {
        self.blocks@.len() == crate::CHUNK_VOLUME
    }

    /// The block at a local position.
    pub open spec fn block_at(&self, p: IVec3) -> Block {
        self.blocks@[linear_index(p)]
    }

    /// A chunk of air at `pos`.
    pub fn new(pos: IVec3) -> (r: Chunk)
        ensures
            r.pos == pos,
            r.wf(),
            forall|i: int| 0 <= i < crate::CHUNK_VOLUME ==> #[trigger] r.blocks@[i] == air_block(),
    {
        Chunk { pos, blocks: vec![Block::air(); crate::CHUNK_VOLUME] }
    }

    /// The block at the linear index of `pos`, or air where that index is
    /// outside the block list.
    pub fn get_block(&self, pos: IVec3) -> (r: Block)
        requires
            crate::coords::index_fits(pos),
        ensures
            r == (if 0 <= linear_index(pos) < self.blocks@.len() {
                self.blocks@[linear_index(pos)]
            } else {
                air_block()
            }),
    {
        let index = pos.x + pos.y * 16 + pos.z * 4096;
        if index >= 0 && (index as usize) < self.blocks.len() {
            self.blocks[index as usize]
        } else {
            Block::air()
        }
    }

    /// The chunk that holds a position given relative to this chunk, for a
    /// position at most one chunk away along x and z; `None` above or below
    /// the world.
    pub fn get_relative_chunk(&self, pos: IVec3) -> (r: Option<IVec3>)
        requires
            pos.x < 0 ==> self.pos.x > i32::MIN,
            pos.x >= 16 ==> self.pos.x < i32::MAX,
            pos.z < 0 ==> self.pos.z > i32::MIN,
            pos.z >= 16 ==> self.pos.z < i32::MAX,
        ensures
            r == spec_relative_chunk(self.pos, pos),
    {
        if !(0 <= pos.y && pos.y < 256) {
            return None;
        }
        let mut chunk_pos = self.pos;
        if pos.x < 0 {
            chunk_pos.x = chunk_pos.x - 1;
        } else if pos.x >= 16 {
            chunk_pos.x = chunk_pos.x + 1;
        }
        if pos.z < 0 {
            chunk_pos.z = chunk_pos.z - 1;
        } else if pos.z >= 16 {
            chunk_pos.z = chunk_pos.z + 1;
        }
        Some(chunk_pos)
    }
}

pub open spec fn step(p: int) -> int {
    if p < 0 {
        -1
    } else if p >= 16 {
        1
    } else {
        0
    }
}

pub open spec fn spec_relative_chunk(origin: IVec3, pos: IVec3) -> Option<IVec3> {
    if 0 <= pos.y < 256 {
        Some(
            IVec3 {
                x: (origin.x + step(pos.x as int)) as i32,
                y: origin.y,
                z: (origin.z + step(pos.z as int)) as i32,
            },
        )
    } else {
        None
    }
}

/// The neighbour of local position `p` at offset `(dx, dy, dz)` (each offset
/// -1 or 0): air above or below the world; the block of this chunk when the
/// neighbour is inside it; otherwise the block of the neighbouring chunk
/// `fallback`, or, when that chunk is not loaded, the generated terrain
/// block of a column whose surface is `height`.
pub open spec fn neighbor_block(
    c: Chunk,
    p: IVec3,
    dx: int,
    dy: int,
    dz: int,
    fallback: Option<&Chunk>,
    height: int,
) -> Block {
    let nx = p.x + dx;
    let ny = p.y + dy;
    let nz = p.z + dz;
    if !(0 <= ny < 256) {
        air_block()
    } else if 0 <= nx < 16 && 0 <= nz < 16 {
        c.blocks@[nx + ny * 16 + nz * 4096]
    } else {
        let lx = if nx < 0 { nx + 16 } else { nx };
        let lz = if nz < 0 { nz + 16 } else { nz };
        match fallback {
            Some(other) => other.blocks@[lx + ny * 16 + lz * 4096],
            None => terrain_block(ny, height),
        }
    }
}

/// The blocks behind, left of and below a local position (see `neighbor_block`).
pub open spec fn adjacent_blocks(
    c: Chunk,
    p: IVec3,
    left_chunk: Option<&Chunk>,
    back_chunk: Option<&Chunk>,
    heights: BorderHeights,
) -> (Block, Block, Block) {
    if !(0 <= p.y < 256) {
        (air_block(), air_block(), air_block())
    } else {
        (
            neighbor_block(c, p, 0, 0, -1, back_chunk, heights.back@[p.x as int] as int),
            neighbor_block(c, p, -1, 0, 0, left_chunk, heights.left@[p.z as int] as int),
            neighbor_block(c, p, 0, -1, 0, None, 0),
        )
    }
}

pub open spec fn opt_wf(c: Option<&Chunk>) -> bool {
    match c {
        Some(c) => c.wf(),
        None => true,
    }
}

impl Chunk {
    fn neighbor(
        &self,
        pos: IVec3,
        dx: i32,
        dy: i32,
        dz: i32,
        fallback: Option<&Chunk>,
        height: i32,
    ) -> (r: Block)
        requires
            self.wf(),
            opt_wf(fallback),
            0 <= pos.x < 16,
            0 <= pos.z < 16,
            0 <= pos.y < 256,
            -1 <= dx <= 0,
            -1 <= dy <= 0,
            -1 <= dz <= 0,
        ensures
            r == neighbor_block(*self, pos, dx as int, dy as int, dz as int, fallback, height as int),
    {
        let nx = pos.x + dx;
        let ny = pos.y + dy;
        let nz = pos.z + dz;
        if !(0 <= ny && ny < 256) {
            return Block::air();
        }
        if 0 <= nx && nx < 16 && 0 <= nz && nz < 16 {
            return self.blocks[vec3_to_index(IVec3 { x: nx, y: ny, z: nz })];
        }
        let lx = if nx < 0 { nx + 16 } else { nx };
        let lz = if nz < 0 { nz + 16 } else { nz };
        match fallback {
            Some(other) => other.blocks[vec3_to_index(IVec3 { x: lx, y: ny, z: lz })],
            None => generate_block_at(IVec3 { x: lx, y: ny, z: lz }, height),
        }
    }

    /// The blocks behind (`z - 1`), left of (`x - 1`) and below (`y - 1`) a
    /// local position. Across the chunk's border they come from
    /// `back_chunk` and `left_chunk`, or from the terrain of the border
    /// column where that chunk is not loaded.
    pub fn get_adjacent_blocks(
        &self,
        pos: IVec3,
        left_chunk: Option<&Chunk>,
        back_chunk: Option<&Chunk>,
        heights: &BorderHeights,
    ) -> (r: (Block, Block, Block))
        requires
            self.wf(),
            opt_wf(left_chunk),
            opt_wf(back_chunk),
            0 <= pos.x < 16,
            0 <= pos.z < 16,
        ensures
            r == adjacent_blocks(*self, pos, left_chunk, back_chunk, *heights),
    {
        if !(0 <= pos.y && pos.y < 256) {
            return (Block::air(), Block::air(), Block::air());
        }
        let back = self.neighbor(pos, 0, 0, -1, back_chunk, heights.back[pos.x as usize]);
        let left = self.neighbor(pos, -1, 0, 0, left_chunk, heights.left[pos.z as usize]);
        let down = self.neighbor(pos, 0, -1, 0, None, 0);
        (back, left, down)
    }
}


/// What the neighbours of a cell are. Inside the chunk, the block behind,
/// left of and below a cell is the chunk's own block at that position, and
/// below the bottom layer there is air. Across the left border the
/// neighbour is the loaded left chunk's block in its last column, or, with
/// no left chunk loaded, the terrain of the border column at the same `z`
/// (of height `heights.left[z]`); across the back border it is the loaded
/// back chunk's block in its last row, or the terrain of the border column
/// at the same `x` (of height `heights.back[x]`).
pub proof fn lemma_neighbours_of_a_cell(
    c: Chunk,
    p: IVec3,
    left: Chunk,
    back: Chunk,
    heights: BorderHeights,
)
    requires
        c.wf(),
        left.wf(),
        back.wf(),
        in_chunk(p),
    ensures
        p.x > 0 ==> adjacent_blocks(c, p, None, None, heights).1 == c.blocks@[linear_index(
            IVec3 { x: (p.x - 1) as i32, y: p.y, z: p.z },
        )],
        p.z > 0 ==> adjacent_blocks(c, p, None, None, heights).0 == c.blocks@[linear_index(
            IVec3 { x: p.x, y: p.y, z: (p.z - 1) as i32 },
        )],
        p.y > 0 ==> adjacent_blocks(c, p, None, None, heights).2 == c.blocks@[linear_index(
            IVec3 { x: p.x, y: (p.y - 1) as i32, z: p.z },
        )],
        p.y == 0 ==> adjacent_blocks(c, p, None, None, heights).2 == air_block(),
        p.x == 0 ==> adjacent_blocks(c, p, None, None, heights).1 == terrain_block(
            p.y as int,
            heights.left[p.z as int] as int,
        ),
        p.z == 0 ==> adjacent_blocks(c, p, None, None, heights).0 == terrain_block(
            p.y as int,
            heights.back[p.x as int] as int,
        ),
        p.x == 0 ==> adjacent_blocks(c, p, Some(&left), Some(&back), heights).1 == left.blocks@[linear_index(
            IVec3 { x: 15, y: p.y, z: p.z },
        )],
        p.z == 0 ==> adjacent_blocks(c, p, Some(&left), Some(&back), heights).0 == back.blocks@[linear_index(
            IVec3 { x: p.x, y: p.y, z: 15 },
        )],
{
}

} // verus!
