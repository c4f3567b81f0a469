//! World streaming and editing: which chunks are around the player, which
//! to drop, where a block goes and which chunks must be meshed again.

use vstd::prelude::*;
use rayon::slice::ParallelSliceMut;
use crate::block::{Block, BlockKind, Direction, spec_normal, spec_is_solid};
use crate::chunk::Chunk;
use crate::coords::{IVec3, in_chunk, linear_index, vec3_to_index};
use crate::saved::{WorldEdits, with_block};

verus! {

/// `x / 16` rounded towards zero, as `i32` division does.
pub open spec fn trunc_div16(x: int) -> int {
    if x >= 0 {
        x / 16
    } else {
        -((-x) / 16)
    }
}

/// The chunk coordinate the player counts as standing in, from a block
/// coordinate: the division rounds towards zero.
pub fn player_chunk_coord(block: i32) -> (r: i32)
    ensures
        r == trunc_div16(block as int),
{
    if block >= 0 {
        block / 16
    } else {
        let n = -(block as i64);
        let q = n / 16;
        -(q as i32)
    }
}

/// The chunk positions within `render_distance` of the chunk
/// `(center_x, center_z)`: `x` and `z` from `center - render_distance` up
/// to, not including, `center + render_distance`; `z` in the outer order.
pub open spec fn view_chunks(center_x: int, center_z: int, rd: int) -> Seq<IVec3> {
    let w = if rd > 0 { 2 * rd } else { 0 };
    Seq::new(
        (w * w) as nat,
        |i: int| IVec3 { x: (center_x - rd + i % w) as i32, y: 0, z: (center_z - rd + i / w) as i32 },
    )
}

/// The chunks that must be loaded around the player, in the order they are
/// asked for.
pub fn chunks_in_view(center_x: i32, center_z: i32, render_distance: i32) -> (r: Vec<IVec3>)
    requires
        render_distance <= 4096,
        render_distance > 0 ==> i32::MIN <= center_x - render_distance && center_x + render_distance
            <= i32::MAX && i32::MIN <= center_z - render_distance && center_z + render_distance
            <= i32::MAX,
    ensures
        r@ == view_chunks(center_x as int, center_z as int, render_distance as int),
{
    let mut r: Vec<IVec3> = Vec::new();
    if render_distance <= 0 {
        assert(r@ =~= view_chunks(center_x as int, center_z as int, render_distance as int));
        return r;
    }
    let rd = render_distance;
    let w = 2 * rd;
    let ghost target = view_chunks(center_x as int, center_z as int, rd as int);
    let mut z = center_z - rd;
    while z < center_z + rd
        invariant
            0 < rd <= 4096,
            w == 2 * rd,
            center_z - rd <= z <= center_z + rd,
            i32::MIN <= center_z - rd,
            i32::MIN <= center_x - rd,
            center_x + rd <= i32::MAX,
            center_z + rd <= i32::MAX,
            target == view_chunks(center_x as int, center_z as int, rd as int),
            r@ == target.take((z - (center_z - rd)) * w),
        decreases center_z + rd - z,
    {
        let mut x = center_x - rd;
        let row = z - (center_z - rd);
        while x < center_x + rd
            invariant
                0 < rd <= 4096,
                w == 2 * rd,
                center_z - rd <= z < center_z + rd,
                row == z - (center_z - rd),
                center_x - rd <= x <= center_x + rd,
                i32::MIN <= center_x - rd,
                center_x + rd <= i32::MAX,
                target == view_chunks(center_x as int, center_z as int, rd as int),
                r@ == target.take(row * w + (x - (center_x - rd))),
            decreases center_x + rd - x,
        {
            proof {
                let i = row * w + (x - (center_x - rd));
                assert(0 <= row < w);
                assert(0 <= x - (center_x - rd) < w);
                assert(i < w * w) by (nonlinear_arith)
                    requires
                        i == row * w + (x - (center_x - rd)),
                        0 <= row < w,
                        0 <= x - (center_x - rd) < w,
                ;
                assert(i % (w as int) == x - (center_x - rd) && i / (w as int) == row) by (nonlinear_arith)
                    requires
                        i == row * w + (x - (center_x - rd)),
                        0 <= row,
                        0 <= x - (center_x - rd) < w,
                ;
                assert(target[i] == IVec3 { x, y: 0, z });
                assert(target.take(i + 1) =~= target.take(i).push(target[i]));
            }
            r.push(IVec3 { x, y: 0, z });
            x = x + 1;
        }
        z = z + 1;
        proof {
            assert((row + 1) * w == row * w + w) by (nonlinear_arith);
        }
    }
    proof {
        assert(target.len() == w * w);
        assert(target.take(w * w) =~= target);
    }
    r
}

/// The chunk at `pos` is farther than `render_distance` from the player's
/// chunk along x or z.
pub open spec fn out_of_view(pos: IVec3, player_x: int, player_z: int, rd: int) -> bool {
    pos.x + rd < player_x || pos.x - rd > player_x || pos.z + rd < player_z || pos.z - rd > player_z
}

/// Whether the chunk at `pos` is to be dropped, the player standing in
/// chunk `(player_x, player_z)`.
pub fn should_despawn(pos: IVec3, player_x: i32, player_z: i32, render_distance: i32) -> (r: bool)
    ensures
        r == out_of_view(pos, player_x as int, player_z as int, render_distance as int),
{
    let rd = render_distance as i64;
    pos.x as i64 + rd < player_x as i64 || pos.x as i64 - rd > player_x as i64 || pos.z as i64 + rd
        < player_z as i64 || pos.z as i64 - rd > player_z as i64
}

/// A chunk that is loaded because it is in view is never dropped while the
/// player stays in the same chunk.
pub proof fn lemma_view_chunks_kept(center_x: int, center_z: int, rd: int, i: int)
    requires
        0 <= i < view_chunks(center_x, center_z, rd).len(),
        i32::MIN <= center_x - rd,
        center_x + rd <= i32::MAX,
        i32::MIN <= center_z - rd,
        center_z + rd <= i32::MAX,
    ensures
        !out_of_view(view_chunks(center_x, center_z, rd)[i], center_x, center_z, rd),
{
    let w = 2 * rd;
    assert(rd > 0);
    assert(0 <= i % w < w);
    assert(0 <= i / w < w) by (nonlinear_arith)
        requires
            0 <= i < w * w,
            w > 0,
    ;
}

/// How many chunks are in view: all of them are loaded once the world has
/// this many chunks.
pub fn view_chunk_count(render_distance: i32) -> (r: usize)
    requires
        0 <= render_distance <= 4096,
    ensures
        r == view_chunks(0, 0, render_distance as int).len(),
{
    let w = (render_distance * 2) as usize;
    assert(w * w <= 8192 * 8192) by (nonlinear_arith)
        requires
            w <= 8192,
    ;
    w * w
}

/// The chunks next to the chunk at `chunk_pos` that touch the local position
/// `local`: the left one when it lies at `x = 0`, the right one at
/// `x = 15`, the back one at `z = 0`, the front one at `z = 15`, in that
/// order.
pub open spec fn border_neighbors(chunk_pos: IVec3, local: IVec3) -> Seq<IVec3> {
    let cx = chunk_pos.x as int;
    let cz = chunk_pos.z as int;
    let y = chunk_pos.y;
    (if local.x == 0 { seq![IVec3 { x: (cx - 1) as i32, y, z: cz as i32 }] } else { Seq::empty() })
        + (if local.x == 15 { seq![IVec3 { x: (cx + 1) as i32, y, z: cz as i32 }] } else { Seq::empty() })
        + (if local.z == 0 { seq![IVec3 { x: cx as i32, y, z: (cz - 1) as i32 }] } else { Seq::empty() })
        + (if local.z == 15 { seq![IVec3 { x: cx as i32, y, z: (cz + 1) as i32 }] } else { Seq::empty() })
}

/// The neighbour chunks of `chunk_pos` are chunk positions.
pub open spec fn neighbors_fit(chunk_pos: IVec3) -> bool {
    i32::MIN < chunk_pos.x < i32::MAX && i32::MIN < chunk_pos.z < i32::MAX
}

/// The chunks next to `chunk_pos` whose mesh shows the block at `local`
/// (see `border_neighbors`).
pub fn chunk_border_neighbors(chunk_pos: IVec3, local: IVec3) -> (r: Vec<IVec3>)
    requires
        neighbors_fit(chunk_pos),
    ensures
        r@ == border_neighbors(chunk_pos, local),
{
    let mut r: Vec<IVec3> = Vec::new();
    if local.x == 0 {
        r.push(IVec3 { x: chunk_pos.x - 1, y: chunk_pos.y, z: chunk_pos.z });
    }
    if local.x == 15 {
        r.push(IVec3 { x: chunk_pos.x + 1, y: chunk_pos.y, z: chunk_pos.z });
    }
    if local.z == 0 {
        r.push(IVec3 { x: chunk_pos.x, y: chunk_pos.y, z: chunk_pos.z - 1 });
    }
    if local.z == 15 {
        r.push(IVec3 { x: chunk_pos.x, y: chunk_pos.y, z: chunk_pos.z + 1 });
    }
    assert(r@ =~= border_neighbors(chunk_pos, local));
    r
}

/// The world position of local position `local` of the chunk at `chunk_pos`.
pub open spec fn global_of(chunk_pos: IVec3, local: IVec3) -> IVec3 {
    IVec3 {
        x: (chunk_pos.x * 16 + local.x) as i32,
        y: (chunk_pos.y * 16 + local.y) as i32,
        z: (chunk_pos.z * 16 + local.z) as i32,
    }
}

/// What placing a block leads to: the chunks to mesh again, and the world
/// position to tell the server about.
pub struct Placement {
    pub remesh: Vec<IVec3>,
    pub global: IVec3,
}

pub open spec fn place_fits(chunk_pos: IVec3) -> bool {
    &&& neighbors_fit(chunk_pos)
    &&& i32::MIN <= chunk_pos.x * 16 && chunk_pos.x * 16 + 16 <= i32::MAX
    &&& i32::MIN <= chunk_pos.y * 16 && chunk_pos.y * 16 + 256 <= i32::MAX
    &&& i32::MIN <= chunk_pos.z * 16 && chunk_pos.z * 16 + 16 <= i32::MAX
}

/// Puts `block` at local position `pos` of `chunk`. The chunks to mesh
/// again are the neighbours whose border the block touches, then the chunk
/// itself; the world position is the one sent to the server.
pub fn place_block(chunk: &mut Chunk, pos: IVec3, block: Block) -> (r: Placement)
    requires
        old(chunk).wf(),
        in_chunk(pos),
        place_fits(old(chunk).pos),
    ensures
        final(chunk).wf(),
        final(chunk).pos == old(chunk).pos,
        final(chunk).blocks@ == old(chunk).blocks@.update(linear_index(pos), block),
        r.remesh@ == border_neighbors(old(chunk).pos, pos).push(old(chunk).pos),
        r.global == global_of(old(chunk).pos, pos),
{
    let index = vec3_to_index(pos);
    chunk.blocks.set(index, block);
    let mut remesh = chunk_border_neighbors(chunk.pos, pos);
    remesh.push(chunk.pos);
    let global = IVec3 {
        x: chunk.pos.x * 16 + pos.x,
        y: chunk.pos.y * 16 + pos.y,
        z: chunk.pos.z * 16 + pos.z,
    };
    Placement { remesh, global }
}

/// `place_block` in a world that keeps its changes: the block is also
/// recorded in `edits` under the chunk's position.
pub fn place_block_recorded(chunk: &mut Chunk, pos: IVec3, block: Block, edits: &mut WorldEdits) -> (r:
    Placement)
    requires
        old(chunk).wf(),
        in_chunk(pos),
        place_fits(old(chunk).pos),
        old(edits).wf(),
    ensures
        final(chunk).wf(),
        final(chunk).pos == old(chunk).pos,
        final(chunk).blocks@ == old(chunk).blocks@.update(linear_index(pos), block),
        final(edits).wf(),
        final(edits)@ == with_block(old(edits)@, old(chunk).pos, pos, block),
        r.remesh@ == border_neighbors(old(chunk).pos, pos).push(old(chunk).pos),
        r.global == global_of(old(chunk).pos, pos),
{
    let r = place_block(chunk, pos, block);
    edits.record(chunk.pos, pos, block);
    r
}

/// A placed block's own chunk is always meshed again, and so is every chunk
/// that holds a neighbour of the block.
pub proof fn lemma_remesh_covers_neighbors(chunk_pos: IVec3, local: IVec3, d: Direction)
    requires
        in_chunk(local),
    ensures
        ({
            let n = spec_normal(d);
            let nx = local.x + n.0;
            let nz = local.z + n.2;
            let owner = IVec3 {
                x: (chunk_pos.x + (if nx < 0 { -1int } else if nx >= 16 { 1int } else { 0int })) as i32,
                y: chunk_pos.y,
                z: (chunk_pos.z + (if nz < 0 { -1int } else if nz >= 16 { 1int } else { 0int })) as i32,
            };
            owner == chunk_pos || border_neighbors(chunk_pos, local).contains(owner)
        }),
{
    let n = spec_normal(d);
    let nx = local.x + n.0;
    let nz = local.z + n.2;
    let s = border_neighbors(chunk_pos, local);
    let owner = IVec3 {
        x: (chunk_pos.x + (if nx < 0 { -1int } else if nx >= 16 { 1int } else { 0int })) as i32,
        y: chunk_pos.y,
        z: (chunk_pos.z + (if nz < 0 { -1int } else if nz >= 16 { 1int } else { 0int })) as i32,
    };
    if owner != chunk_pos {
        assert(s.contains(owner)) by {
            let a = if local.x == 0 { seq![IVec3 { x: (chunk_pos.x - 1) as i32, y: chunk_pos.y, z: chunk_pos.z }] } else { Seq::empty() };
            let b = if local.x == 15 { seq![IVec3 { x: (chunk_pos.x + 1) as i32, y: chunk_pos.y, z: chunk_pos.z }] } else { Seq::empty() };
            let c = if local.z == 0 { seq![IVec3 { x: chunk_pos.x, y: chunk_pos.y, z: (chunk_pos.z - 1) as i32 }] } else { Seq::empty() };
            let e = if local.z == 15 { seq![IVec3 { x: chunk_pos.x, y: chunk_pos.y, z: (chunk_pos.z + 1) as i32 }] } else { Seq::empty() };
            assert(s =~= a + b + c + e);
            if nx < 0 {
                assert(s[0] == owner);
            } else if nx >= 16 {
                assert((a + b)[a.len() as int] == owner);
                assert(s[a.len() as int] == owner);
            } else if nz < 0 {
                assert(s[(a.len() + b.len()) as int] == owner);
            } else {
                assert(s[(a.len() + b.len() + c.len()) as int] == owner);
            }
        }
    }
}

/// The block a player puts down: the selected kind, turned to face the
/// clicked side only when the kind can be turned.
pub fn block_to_place(kind: BlockKind, normal: Direction) -> (r: Block)
    ensures
        r.kind == kind,
        r.direction == (if kind == BlockKind::Wood { normal } else { Direction::Top }),
{
    Block { kind, direction: if kind.can_rotate() { normal } else { Direction::Top } }
}

/// Where a block placed against the face `normal` of the block at `local`
/// in chunk `chunk_pos` goes: the neighbouring cell, carried into the next
/// chunk across a border; `None` when that cell is below the world or at or
/// above its top layer.
pub open spec fn placement_cell(chunk_pos: IVec3, local: IVec3, normal: Direction) -> Option<(IVec3, IVec3)> {
    let n = spec_normal(normal);
    let x = local.x + n.0;
    let y = local.y + n.1;
    let z = local.z + n.2;
    if 0 <= y < 256 - 1 {
        let (cx, lx) = if x < 0 {
            (chunk_pos.x - 1, x + 16)
        } else if x >= 16 {
            (chunk_pos.x + 1, x - 16)
        } else {
            (chunk_pos.x as int, x)
        };
        let (cz, lz) = if z < 0 {
            (chunk_pos.z - 1, z + 16)
        } else if z >= 16 {
            (chunk_pos.z + 1, z - 16)
        } else {
            (chunk_pos.z as int, z)
        };
        Some((IVec3 { x: cx as i32, y: chunk_pos.y, z: cz as i32 }, IVec3 { x: lx as i32, y: y as i32, z: lz as i32 }))
    } else {
        None
    }
}

/// The chunk and local position of the cell a new block goes to (see
/// `placement_cell`).
pub fn placement_target(chunk_pos: IVec3, local: IVec3, normal: Direction) -> (r: Option<(IVec3, IVec3)>)
    requires
        in_chunk(local),
        neighbors_fit(chunk_pos),
    ensures
        r == placement_cell(chunk_pos, local, normal),
        r matches Some((_, l)) ==> in_chunk(l),
{
    let n = normal.as_vec3();
    let x = local.x + n.x;
    let y = local.y + n.y;
    let z = local.z + n.z;
    if 0 <= y && y < 256 - 1 {
        let mut cx = chunk_pos.x;
        let mut lx = x;
        if x < 0 {
            lx = x + 16;
            cx = cx - 1;
        } else if x >= 16 {
            lx = x - 16;
            cx = cx + 1;
        }
        let mut cz = chunk_pos.z;
        let mut lz = z;
        if z < 0 {
            lz = z + 16;
            cz = cz - 1;
        } else if z >= 16 {
            lz = z - 16;
            cz = cz + 1;
        }
        Some((IVec3 { x: cx, y: chunk_pos.y, z: cz }, IVec3 { x: lx, y, z: lz }))
    } else {
        None
    }
}

/// The block a ray stops at inside `chunk`, at local position `local`
/// (`x` and `z` inside the chunk): the block there when it is solid and
/// `local` lies inside the world's height.
pub fn solid_block_at(chunk: &Chunk, local: IVec3) -> (r: Option<Block>)
    requires
        chunk.wf(),
        0 <= local.x < 16,
        0 <= local.z < 16,
    ensures
        r == (if 0 <= local.y < 256 && spec_is_solid(chunk.blocks@[linear_index(local)].kind) {
            Some(chunk.blocks@[linear_index(local)])
        } else {
            None
        }),
{
    if 0 <= local.y && local.y < 256 {
        let b = chunk.blocks[vec3_to_index(local)];
        if b.kind.is_solid() {
            Some(b)
        } else {
            None
        }
    } else {
        None
    }
}


/// A block placed against a face goes to the cell that touches that face:
/// its world position is the clicked block's position plus the face's
/// normal.
pub proof fn lemma_placement_is_adjacent(chunk_pos: IVec3, local: IVec3, normal: Direction)
    requires
        in_chunk(local),
        place_fits(chunk_pos),
        placement_cell(chunk_pos, local, normal) is Some,
    ensures
        ({
            let (c, l) = placement_cell(chunk_pos, local, normal)->0;
            let n = spec_normal(normal);
            &&& in_chunk(l)
            &&& c.x * 16 + l.x == chunk_pos.x * 16 + local.x + n.0
            &&& c.y == chunk_pos.y
            &&& l.y == local.y + n.1
            &&& c.z * 16 + l.z == chunk_pos.z * 16 + local.z + n.2
        }),
{
}


/// The blocks of a chunk after the changes `changes` are written into it in
/// order: a later change of the same cell wins.
pub open spec fn applied(blocks: Seq<Block>, changes: Seq<(IVec3, Block)>) -> Seq<Block>
    decreases changes.len(),
{
    if changes.len() == 0 {
        blocks
    } else {
        applied(blocks, changes.drop_last()).update(linear_index(changes.last().0), changes.last().1)
    }
}

/// Some change touches the cells at local `x` (or `z`, when `on_z`) equal to `edge`.
pub open spec fn touches(changes: Seq<(IVec3, Block)>, on_z: bool, edge: int) -> bool {
    exists|i: int| 0 <= i < changes.len() && (if on_z {
        (#[trigger] changes[i]).0.z == edge
    } else {
        changes[i].0.x == edge
    })
}

/// The chunks to mesh again after a chunk update: the chunk itself, then the
/// left, right, back and front neighbours whose border some change touches.
pub open spec fn update_remesh(pos: IVec3, changes: Seq<(IVec3, Block)>) -> Seq<IVec3> {
    seq![pos] + (if touches(changes, false, 0) {
        seq![IVec3 { x: (pos.x - 1) as i32, y: pos.y, z: pos.z }]
    } else {
        Seq::empty()
    }) + (if touches(changes, false, 15) {
        seq![IVec3 { x: (pos.x + 1) as i32, y: pos.y, z: pos.z }]
    } else {
        Seq::empty()
    }) + (if touches(changes, true, 0) {
        seq![IVec3 { x: pos.x, y: pos.y, z: (pos.z - 1) as i32 }]
    } else {
        Seq::empty()
    }) + (if touches(changes, true, 15) {
        seq![IVec3 { x: pos.x, y: pos.y, z: (pos.z + 1) as i32 }]
    } else {
        Seq::empty()
    })
}

/// Writes the changes a server sent for a loaded chunk into it, in order,
/// and returns the chunks to mesh again (see `update_remesh`), each once.
pub fn apply_chunk_update(chunk: &mut Chunk, changes: &Vec<(IVec3, Block)>) -> (r: Vec<IVec3>)
    requires
        old(chunk).wf(),
        neighbors_fit(old(chunk).pos),
        forall|i: int| 0 <= i < changes@.len() ==> in_chunk(#[trigger] changes@[i].0),
    ensures
        final(chunk).wf(),
        final(chunk).pos == old(chunk).pos,
        final(chunk).blocks@ == applied(old(chunk).blocks@, changes@),
        r@ == update_remesh(old(chunk).pos, changes@),
        r@.no_duplicates(),
{
    let ghost start = chunk.blocks@;
    let mut left = false;
    let mut right = false;
    let mut back = false;
    let mut front = false;
    let mut i: usize = 0;
    while i < changes.len()
        invariant
            0 <= i <= changes@.len(),
            chunk.wf(),
            chunk.pos == old(chunk).pos,
            start == old(chunk).blocks@,
            forall|j: int| 0 <= j < changes@.len() ==> in_chunk(#[trigger] changes@[j].0),
            chunk.blocks@ == applied(start, changes@.take(i as int)),
            left == touches(changes@.take(i as int), false, 0),
            right == touches(changes@.take(i as int), false, 15),
            back == touches(changes@.take(i as int), true, 0),
            front == touches(changes@.take(i as int), true, 15),
        decreases changes@.len() - i,
    {
        let (p, b) = changes[i];
        let ghost before = changes@.take(i as int);
        let ghost after = changes@.take(i + 1);
        proof {
            assert(after.drop_last() =~= before);
            assert(after.last() == changes@[i as int]);
            assert forall|j: int| 0 <= j < before.len() implies #[trigger] after[j] == before[j] by {}
            assert(after[i as int] == changes@[i as int]);
        }
        let index = vec3_to_index(p);
        chunk.blocks.set(index, b);
        left = left || p.x == 0;
        right = right || p.x == 15;
        back = back || p.z == 0;
        front = front || p.z == 15;
        i = i + 1;
    }
    proof {
        assert(changes@.take(changes@.len() as int) =~= changes@);
    }
    let pos = chunk.pos;
    let mut r: Vec<IVec3> = Vec::new();
    r.push(pos);
    if left {
        r.push(IVec3 { x: pos.x - 1, y: pos.y, z: pos.z });
    }
    if right {
        r.push(IVec3 { x: pos.x + 1, y: pos.y, z: pos.z });
    }
    if back {
        r.push(IVec3 { x: pos.x, y: pos.y, z: pos.z - 1 });
    }
    if front {
        r.push(IVec3 { x: pos.x, y: pos.y, z: pos.z + 1 });
    }
    assert(r@ =~= update_remesh(pos, changes@));
    r
}

/// After a chunk update, each changed cell holds the block of its change,
/// when no cell is changed twice, and every other cell keeps its block.
pub proof fn lemma_update_reads_back(blocks: Seq<Block>, changes: Seq<(IVec3, Block)>, p: IVec3)
    requires
        blocks.len() == crate::CHUNK_VOLUME,
        forall|i: int| 0 <= i < changes.len() ==> in_chunk(#[trigger] changes[i].0),
        forall|i: int, j: int| 0 <= i < j < changes.len() ==> changes[i].0 != changes[j].0,
        in_chunk(p),
    ensures
        applied(blocks, changes).len() == blocks.len(),
        forall|i: int| 0 <= i < changes.len() && #[trigger] changes[i].0 == p ==> applied(blocks, changes)[linear_index(p)] == changes[i].1,
        (forall|i: int| 0 <= i < changes.len() ==> #[trigger] changes[i].0 != p) ==> applied(blocks, changes)[linear_index(p)] == blocks[linear_index(p)],
    decreases changes.len(),
{
    crate::coords::lemma_index_round_trip(p);
    if changes.len() > 0 {
        let rest = changes.drop_last();
        lemma_update_reads_back(blocks, rest, p);
        let q = changes.last().0;
        crate::coords::lemma_index_round_trip(q);
        if q != p && linear_index(q) == linear_index(p) {
            crate::generate::lemma_index_injective(p, q);
        }
        assert forall|i: int| 0 <= i < changes.len() && #[trigger] changes[i].0 == p implies applied(blocks, changes)[linear_index(p)] == changes[i].1 by {
            if i < changes.len() - 1 {
                assert(rest[i] == changes[i]);
                assert(changes[i].0 != changes[changes.len() - 1].0);
            }
        }
        assert((forall|i: int| 0 <= i < changes.len() ==> #[trigger] changes[i].0 != p) ==> (forall|i: int| 0 <= i < rest.len() ==> #[trigger] rest[i].0 != p)) by {
            if forall|i: int| 0 <= i < changes.len() ==> #[trigger] changes[i].0 != p {
                assert forall|i: int| 0 <= i < rest.len() implies #[trigger] rest[i].0 != p by {
                    assert(rest[i] == changes[i]);
                }
            }
        }
    }
}


/// How many finished chunk tasks of each kind are taken up in one frame.
pub const TASKS_PER_FRAME: usize = 15;

/// The finished tasks of one kind taken up so far in a frame. Tasks are
/// polled nearest first (see `nearest_first`) while fewer than
/// `TASKS_PER_FRAME` have been taken up; the rest wait for the next frame.
pub struct TaskFrame {
    pub taken: usize,
}

impl TaskFrame {
    /// A frame in which no task has been taken up yet.
    pub fn new() -> (r: TaskFrame)
        ensures
            r.taken == 0,
    {
        TaskFrame { taken: 0 }
    }

    /// Whether another task may be polled in this frame.
    pub fn may_poll(&self) -> (r: bool)
        ensures
            r == (self.taken < TASKS_PER_FRAME),
    {
        self.taken < TASKS_PER_FRAME
    }

    /// Counts a polled task, which is taken up when it was finished; no
    /// frame takes up more than `TASKS_PER_FRAME` tasks.
    pub fn polled(&mut self, finished: bool)
        requires
            old(self).taken < TASKS_PER_FRAME,
        ensures
            final(self).taken == old(self).taken + (if finished { 1int } else { 0int }),
            final(self).taken <= TASKS_PER_FRAME,
    {
        if finished {
            self.taken = self.taken + 1;
        }
    }
}

/// Squared distance between two chunk positions.
pub open spec fn chunk_distance(a: IVec3, b: IVec3) -> int {
    (a.x - b.x) * (a.x - b.x) + (a.y - b.y) * (a.y - b.y) + (a.z - b.z) * (a.z - b.z)
}

/// `after` is `before` reordered by `perm` (`after[k] == before[perm[k]]`),
/// with keys that never decrease and with pairs of equal keys left in their
/// order.
pub open spec fn stable_sort_of(before: Seq<(u128, usize)>, after: Seq<(u128, usize)>, perm: Seq<int>) -> bool {
    &&& perm.len() == before.len()
    &&& after.len() == before.len()
    &&& forall|k: int| 0 <= k < after.len() ==> 0 <= #[trigger] perm[k] < before.len() && after[k] == before[perm[k]]
    &&& forall|k: int, l: int| 0 <= k < l < after.len() ==> perm[k] != perm[l]
    &&& forall|k: int, l: int| 0 <= k < l < after.len() ==> after[k].0 <= after[l].0
    &&& forall|k: int, l: int| 0 <= k < l < after.len() && after[k].0 == after[l].0 ==> perm[k] < perm[l]
}

/// rayon's `par_sort_by_cached_key`, keyed by the first field of each pair.
/// Its documentation promises a stable sort: the pairs come out reordered so
/// that keys never decrease, and pairs with equal keys keep their order.
#[verifier::external_body]
fn sort_by_first(items: &mut Vec<(u128, usize)>)
    ensures
        exists|perm: Seq<int>| stable_sort_of(old(items)@, final(items)@, perm),
{
    items.par_sort_by_cached_key(|e| e.0);
}

/// Squared distance between two chunk positions, without overflow.
fn distance_key(a: IVec3, b: IVec3) -> (r: u128)
    ensures
        r == chunk_distance(a, b),
{
    let dx = (a.x as i128 - b.x as i128);
    let dy = (a.y as i128 - b.y as i128);
    let dz = (a.z as i128 - b.z as i128);
    assert(0 <= dx * dx <= 0x1_0000_0000_0000_0000) by (nonlinear_arith)
        requires
            -0x1_0000_0000 <= dx <= 0x1_0000_0000,
    ;
    assert(0 <= dy * dy <= 0x1_0000_0000_0000_0000) by (nonlinear_arith)
        requires
            -0x1_0000_0000 <= dy <= 0x1_0000_0000,
    ;
    assert(0 <= dz * dz <= 0x1_0000_0000_0000_0000) by (nonlinear_arith)
        requires
            -0x1_0000_0000 <= dz <= 0x1_0000_0000,
    ;
    (dx * dx + dy * dy + dz * dz) as u128
}

/// The order in which chunk tasks are taken up: the indices of `positions`,
/// nearest to the player's chunk `center` first; of two equally near, the
/// one listed first.
pub fn nearest_first(positions: &Vec<IVec3>, center: IVec3) -> (r: Vec<usize>)
    ensures
        r@.len() == positions@.len(),
        forall|k: int| 0 <= k < r@.len() ==> #[trigger] r@[k] < positions@.len(),
        forall|k: int, l: int| 0 <= k < l < r@.len() ==> r@[k] != r@[l],
        forall|k: int, l: int|
            0 <= k < l < r@.len() ==> chunk_distance(positions@[r@[k] as int], center) <= chunk_distance(
                positions@[r@[l] as int],
                center,
            ),
        forall|k: int, l: int|
            0 <= k < l < r@.len() && chunk_distance(positions@[r@[k] as int], center) == chunk_distance(
                positions@[r@[l] as int],
                center,
            ) ==> r@[k] < r@[l],
{
    let mut items: Vec<(u128, usize)> = Vec::new();
    let mut i: usize = 0;
    while i < positions.len()
        invariant
            0 <= i <= positions@.len(),
            items@.len() == i,
            forall|j: int| 0 <= j < i ==> (#[trigger] items@[j]).0 == chunk_distance(positions@[j], center) && items@[j].1 == j,
        decreases positions@.len() - i,
    {
        items.push((distance_key(positions[i], center), i));
        i = i + 1;
    }
    let ghost before = items@;
    sort_by_first(&mut items);
    let ghost perm = choose|perm: Seq<int>| stable_sort_of(before, items@, perm);
    let mut r: Vec<usize> = Vec::new();
    let mut k: usize = 0;
    while k < items.len()
        invariant
            0 <= k <= items@.len(),
            items@.len() == positions@.len(),
            before.len() == positions@.len(),
            stable_sort_of(before, items@, perm),
            forall|j: int| 0 <= j < before.len() ==> (#[trigger] before[j]).0 == chunk_distance(positions@[j], center) && before[j].1 == j,
            r@.len() == k,
            forall|j: int| 0 <= j < k ==> #[trigger] r@[j] == perm[j],
        decreases items@.len() - k,
    {
        proof {
            assert(items@[k as int] == before[perm[k as int]]);
        }
        r.push(items[k].1);
        k = k + 1;
    }
    proof {
        assert forall|j: int| 0 <= j < r@.len() implies chunk_distance(positions@[#[trigger] r@[j] as int], center) == items@[j].0 by {
            assert(items@[j] == before[perm[j]]);
        }
    }
    r
}


/// Whether the player may start moving: once every chunk in view has been
/// loaded, that is once `loaded` reaches `(2 * render_distance)` squared, and
/// from then on.
pub fn movement_ready(was_ready: bool, loaded: usize, render_distance: i32) -> (r: bool)
    requires
        -23170 <= render_distance <= 23170,
    ensures
        r == (was_ready || loaded as int == (2 * render_distance) * (2 * render_distance)),
{
    if was_ready {
        return true;
    }
    let w = 2 * render_distance;
    assert(0 <= w * w <= 46340 * 46340) by (nonlinear_arith)
        requires
            -46340 <= w <= 46340,
    ;
    let n = (w * w) as usize;
    loaded == n
}

} // verus!
