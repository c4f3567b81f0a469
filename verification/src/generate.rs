//! Generating a chunk: terrain columns, trees, where Ferris stands, and the
//! player's saved changes on top.

use vstd::prelude::*;
use crate::block::{Block, BlockKind, Direction};
use crate::chunk::{Chunk, air_block};
use crate::coords::{IVec3, in_chunk, linear_index, lemma_index_round_trip, vec3_to_index};
use crate::saved::SavedChunk;
use crate::terrain::{generate_block_at, kind_block, terrain_block};

verus! {

/// Kind of block `(tx, ty, tz)` of the tree shape: `ty` is the layer from
/// the ground up (0 to 6), `tz` and `tx` the row and column (0 to 4). A
/// trunk of wood runs up the centre through layer 4; leaves form a 3 x 3
/// layer, two 5 x 5 layers without corners and a 3 x 3 top.
pub open spec fn tree_shape(ty: int, tz: int, tx: int) -> BlockKind {
    let center = tz == 2 && tx == 2;
    let inner = 1 <= tz <= 3 && 1 <= tx <= 3;
    let corner = (tz == 0 || tz == 4) && (tx == 0 || tx == 4);
    if ty <= 2 {
        if center { BlockKind::Wood } else { BlockKind::Air }
    } else if ty == 3 {
        if center { BlockKind::Wood } else if inner { BlockKind::Leaf } else { BlockKind::Air }
    } else if ty == 4 {
        if center { BlockKind::Wood } else if corner { BlockKind::Air } else { BlockKind::Leaf }
    } else if ty == 5 {
        if corner { BlockKind::Air } else { BlockKind::Leaf }
    } else {
        if inner { BlockKind::Leaf } else { BlockKind::Air }
    }
}

/// Block `(tx, ty, tz)` of the tree shape (see `tree_shape`).
pub fn tree_block(ty: i32, tz: i32, tx: i32) -> (r: Block)
    ensures
        r == kind_block(tree_shape(ty as int, tz as int, tx as int)),
{
    let center = tz == 2 && tx == 2;
    let inner = 1 <= tz && tz <= 3 && 1 <= tx && tx <= 3;
    let corner = (tz == 0 || tz == 4) && (tx == 0 || tx == 4);
    let kind = if ty <= 2 {
        if center { BlockKind::Wood } else { BlockKind::Air }
    } else if ty == 3 {
        if center { BlockKind::Wood } else if inner { BlockKind::Leaf } else { BlockKind::Air }
    } else if ty == 4 {
        if center { BlockKind::Wood } else if corner { BlockKind::Air } else { BlockKind::Leaf }
    } else if ty == 5 {
        if corner { BlockKind::Air } else { BlockKind::Leaf }
    } else {
        if inner { BlockKind::Leaf } else { BlockKind::Air }
    };
    Block::from_kind(kind)
}

/// What the terrain noise says about each of the 256 columns of a chunk,
/// column `rz * 16 + rx` for local column `(rx, rz)`: the height of its
/// terrain surface, whether the tree noise is high enough for a tree, and
/// whether biome and Ferris noise let a Ferris stand there.
pub struct ColumnNoise {
    pub heights: Vec<i32>,
    pub trees: Vec<bool>,
    pub ferris: Vec<bool>,
}

impl ColumnNoise {
    pub open spec fn wf(&self) -> bool {
        self.heights@.len() == 256 && self.trees@.len() == 256 && self.ferris@.len() == 256
    }
}

/// The column of a local position.
pub open spec fn column_of(p: IVec3) -> int {
    p.z * 16 + p.x
}

/// Column `t` grows a tree: its noise allows one and its surface lies
/// between 67 and 89.
pub open spec fn tree_active(c: ColumnNoise, t: int) -> bool {
    c.trees@[t] && 64 + 2 < c.heights@[t] < 90
}

/// Some column in `lo .. hi` grows a tree.
pub open spec fn tree_in(c: ColumnNoise, lo: int, hi: int) -> bool {
    exists|t: int| lo <= t < hi && #[trigger] tree_active(c, t)
}

/// The cells a tree covers: it stands at local columns 3 to 7 on x and z,
/// its layers rising from the surface of each column it covers.
pub open spec fn in_tree(c: ColumnNoise, p: IVec3) -> bool {
    3 <= p.x < 8 && 3 <= p.z < 8 && 0 <= p.y - c.heights@[column_of(p)] < 7
}

pub open spec fn tree_cell(c: ColumnNoise, p: IVec3) -> Block {
    kind_block(tree_shape(p.y - c.heights@[column_of(p)], p.z - 3, p.x - 3))
}

/// The generated block at local position `p`. Columns are generated in
/// order, each filling its whole column with terrain; a column that grows
/// a tree then writes the tree shape (air included) over the tree cells.
/// So a tree cell keeps the tree when some column at or after its own
/// grows a tree, and the terrain otherwise.
pub open spec fn generated_block(c: ColumnNoise, p: IVec3) -> Block {
    if in_tree(c, p) && tree_in(c, column_of(p), 256) {
        tree_cell(c, p)
    } else {
        terrain_block(p.y as int, c.heights@[column_of(p)] as int)
    }
}

/// The final block at local position `p`: the saved change there, if any,
/// else the generated block.
pub open spec fn chunk_block(c: ColumnNoise, saved: Option<&SavedChunk>, p: IVec3) -> Block {
    match saved {
        Some(s) => if s@.contains_key(p) {
            s@[p]
        } else {
            generated_block(c, p)
        },
        None => generated_block(c, p),
    }
}

/// The world position of a Ferris in column `col` of the chunk at `pos`,
/// if one stands there: on the surface, which must be above the sea and
/// below the top of the world.
pub open spec fn ferris_at(c: ColumnNoise, pos: IVec3, col: int) -> Option<IVec3> {
    let h = c.heights@[col];
    if c.ferris@[col] && 64 < h < 256 {
        Some(IVec3 { x: (col % 16 + pos.x * 16) as i32, y: h, z: (col / 16 + pos.z * 16) as i32 })
    } else {
        None
    }
}

/// The Ferris positions of the chunk at `pos`, in column order.
pub open spec fn ferris_spawns(c: ColumnNoise, pos: IVec3) -> Seq<IVec3> {
    Seq::new(256, |col: int| col).filter_map(|col: int| ferris_at(c, pos, col))
}

/// The blocks after columns `0 .. k` have been generated.
pub open spec fn partial_block(c: ColumnNoise, k: int, p: IVec3) -> Block {
    let col = column_of(p);
    if col < k {
        if in_tree(c, p) && tree_in(c, col, k) {
            tree_cell(c, p)
        } else {
            terrain_block(p.y as int, c.heights@[col] as int)
        }
    } else {
        if in_tree(c, p) && tree_in(c, 0, k) {
            tree_cell(c, p)
        } else {
            air_block()
        }
    }
}

/// Distinct local positions are stored at distinct indices.
pub proof fn lemma_index_injective(p: IVec3, q: IVec3)
    requires
        in_chunk(p),
        in_chunk(q),
        linear_index(p) == linear_index(q),
    ensures
        p == q,
{
    lemma_index_round_trip(p);
    lemma_index_round_trip(q);
}

/// Generates the chunk at `pos` from the noise of its columns, then applies
/// the saved changes. Returns the chunk and the world positions where a
/// Ferris stands, in column order. A tree is always written inside its own
/// chunk, since it stands at local columns 3 to 7.
pub fn generate_chunk(pos: IVec3, columns: &ColumnNoise, saved: Option<&SavedChunk>) -> (r: (
    Chunk,
    Vec<IVec3>,
))
    requires
        columns.wf(),
        i32::MIN <= pos.x * 16,
        pos.x * 16 + 15 <= i32::MAX,
        i32::MIN <= pos.z * 16,
        pos.z * 16 + 15 <= i32::MAX,
        match saved {
            Some(s) => forall|p: IVec3| #[trigger] s@.contains_key(p) ==> in_chunk(p),
            None => true,
        },
    ensures
        r.0.pos == pos,
        r.0.wf(),
        forall|p: IVec3| in_chunk(p) ==> #[trigger] r.0.blocks@[linear_index(p)] == chunk_block(*columns, saved, p),
        r.1@ == ferris_spawns(*columns, pos),
{
    let mut chunk = Chunk::new(pos);
    let mut spawns: Vec<IVec3> = Vec::new();
    let ghost c = *columns;
    proof {
        assert forall|p: IVec3| in_chunk(p) implies #[trigger] chunk.blocks@[linear_index(p)] == partial_block(c, 0, p) by {
            lemma_index_round_trip(p);
        }
        assert(Seq::new(0, |col: int| col).filter_map(|col: int| ferris_at(c, pos, col)) =~= Seq::<IVec3>::empty());
    }
    let mut col: usize = 0;
    while col < 256
        invariant
            0 <= col <= 256,
            c == *columns,
            columns.wf(),
            chunk.pos == pos,
            chunk.wf(),
            i32::MIN <= pos.x * 16,
            pos.x * 16 + 15 <= i32::MAX,
            i32::MIN <= pos.z * 16,
            pos.z * 16 + 15 <= i32::MAX,
            forall|p: IVec3| in_chunk(p) ==> #[trigger] chunk.blocks@[linear_index(p)] == partial_block(c, col as int, p),
            spawns@ == Seq::new(col as nat, |t: int| t).filter_map(|t: int| ferris_at(c, pos, t)),
        decreases 256 - col,
    {
        let rz = (col / 16) as i32;
        let rx = (col % 16) as i32;
        let max_y = columns.heights[col];
        let wx = rx + pos.x * 16;
        let wz = rz + pos.z * 16;
        let ghost before = chunk.blocks@;
        let ghost spawns_before = spawns@;
        let mut y: i32 = 0;
        while y < 256
            invariant
                0 <= y <= 256,
                col < 256,
                c == *columns,
                columns.wf(),
                chunk.pos == pos,
                chunk.wf(),
                before.len() == 65536,
                rz == col / 16,
                rx == col % 16,
                max_y == c.heights@[col as int],
                forall|p: IVec3|
                    in_chunk(p) ==> #[trigger] chunk.blocks@[linear_index(p)] == if column_of(p) == col
                        && p.y < y {
                        terrain_block(p.y as int, max_y as int)
                    } else {
                        before[linear_index(p)]
                    },
                spawns@ == (if c.ferris@[col as int] && 64 < max_y < y {
                    spawns_before.push(IVec3 { x: wx, y: max_y, z: wz })
                } else {
                    spawns_before
                }),
            decreases 256 - y,
        {
            let q = IVec3 { x: rx, y, z: rz };
            let b = generate_block_at(IVec3 { x: wx, y, z: wz }, max_y);
            let ghost mid = chunk.blocks@;
            chunk.blocks.set(vec3_to_index(q), b);
            proof {
                assert forall|p: IVec3| in_chunk(p) implies #[trigger] chunk.blocks@[linear_index(p)] == if column_of(p) == col
                    && p.y < y + 1 {
                    terrain_block(p.y as int, max_y as int)
                } else {
                    before[linear_index(p)]
                } by {
                    if p == q {
                    } else {
                        if linear_index(p) == linear_index(q) {
                            lemma_index_injective(p, q);
                        }
                        if column_of(p) == col && p.y == y {
                            assert(p.x == rx && p.z == rz);
                        }
                    }
                }
            }
            if y == max_y && max_y > crate::SEA_LEVEL && columns.ferris[col] {
                spawns.push(IVec3 { x: wx, y, z: wz });
            }
            y = y + 1;
        }
        let ghost filled = chunk.blocks@;
        if columns.trees[col] && max_y < 90 && max_y > crate::SEA_LEVEL + 2 {
            let mut f: usize = 0;
            while f < 25
                invariant
                    0 <= f <= 25,
                    filled.len() == 65536,
                    chunk.pos == pos,
                    chunk.wf(),
                    columns.wf(),
                    c == *columns,
                    forall|p: IVec3|
                        in_chunk(p) ==> #[trigger] chunk.blocks@[linear_index(p)] == if in_tree(c, p) && (p.z
                            - 3) * 5 + (p.x - 3) < f {
                            tree_cell(c, p)
                        } else {
                            filled[linear_index(p)]
                        },
                decreases 25 - f,
            {
                let tz = (f / 5) as i32;
                let tx = (f % 5) as i32;
                let px = 3 + tx;
                let pz = 3 + tz;
                let local_max_y = columns.heights[(pz * 16 + px) as usize];
                let ghost fbefore = chunk.blocks@;
                let mut ty: i32 = 0;
                while ty < 7
                    invariant
                        0 <= ty <= 7,
                        f < 25,
                        fbefore.len() == 65536,
                        chunk.pos == pos,
                        chunk.wf(),
                        c == *columns,
                        columns.wf(),
                        tz == f / 5,
                        tx == f % 5,
                        px == 3 + tx,
                        pz == 3 + tz,
                        local_max_y == c.heights@[pz * 16 + px],
                        forall|p: IVec3|
                            in_chunk(p) ==> #[trigger] chunk.blocks@[linear_index(p)] == if in_tree(c, p)
                                && p.x == px && p.z == pz && p.y - local_max_y < ty {
                                tree_cell(c, p)
                            } else {
                                fbefore[linear_index(p)]
                            },
                    decreases 7 - ty,
                {
                    let py = ty as i64 + local_max_y as i64;
                    if 0 <= py && py < 256 {
                        let q = IVec3 { x: px, y: py as i32, z: pz };
                        let b = tree_block(ty, tz, tx);
                        assert(in_tree(c, q));
                        assert(b == tree_cell(c, q));
                        let ghost mid = chunk.blocks@;
                        chunk.blocks.set(vec3_to_index(q), b);
                        proof {
                            assert forall|p: IVec3| in_chunk(p) implies #[trigger] chunk.blocks@[linear_index(p)] == if in_tree(c, p)
                                && p.x == px && p.z == pz && p.y - local_max_y < ty + 1 {
                                tree_cell(c, p)
                            } else {
                                fbefore[linear_index(p)]
                            } by {
                                if p != q && linear_index(p) == linear_index(q) {
                                    lemma_index_injective(p, q);
                                }
                                if p != q {
                                    assert(chunk.blocks@[linear_index(p)] == mid[linear_index(p)]);
                                }
                            }
                        }
                    }
                    ty = ty + 1;
                }
                proof {
                    assert forall|p: IVec3| in_chunk(p) implies #[trigger] chunk.blocks@[linear_index(p)] == if in_tree(c, p) && (p.z
                        - 3) * 5 + (p.x - 3) < f + 1 {
                        tree_cell(c, p)
                    } else {
                        filled[linear_index(p)]
                    } by {
                        if in_tree(c, p) {
                            if (p.z - 3) * 5 + (p.x - 3) == f {
                                assert(p.x == px && p.z == pz);
                            } else if p.x == px && p.z == pz {
                                assert((p.z - 3) * 5 + (p.x - 3) == f);
                            }
                        }
                    }
                }
                f = f + 1;
            }
        }
        proof {
            let k = col as int;
            assert forall|p: IVec3| in_chunk(p) implies #[trigger] chunk.blocks@[linear_index(p)] == partial_block(c, k + 1, p) by {
                let pc = column_of(p);
                if tree_active(c, k) {
                    assert(tree_in(c, pc, k + 1) || pc > k);
                    if pc <= k {
                        assert(tree_in(c, pc, k + 1));
                    }
                    assert(tree_in(c, 0, k + 1));
                } else {
                    if tree_in(c, pc, k + 1) && pc < k {
                        let t = choose|t: int| pc <= t < k + 1 && tree_active(c, t);
                        assert(tree_in(c, pc, k));
                    }
                    if tree_in(c, 0, k + 1) {
                        let t = choose|t: int| 0 <= t < k + 1 && tree_active(c, t);
                        assert(tree_in(c, 0, k));
                    }
                    if pc == k {
                        assert(!tree_in(c, k, k + 1));
                    }
                }
                if in_tree(c, p) {
                    assert(0 <= (p.z - 3) * 5 + (p.x - 3) < 25);
                }
            }
            let s1 = Seq::new((k + 1) as nat, |t: int| t);
            assert(s1.drop_last() =~= Seq::new(k as nat, |t: int| t));
            assert(s1.last() == k);
        }
        col = col + 1;
    }
    match saved {
        Some(s) => {
            let mut i: usize = 0;
            while i < crate::CHUNK_VOLUME
                invariant
                    0 <= i <= crate::CHUNK_VOLUME,
                    chunk.pos == pos,
                    chunk.wf(),
                    saved == Some(s),
                    c == *columns,
                    forall|p: IVec3| #[trigger] s@.contains_key(p) ==> in_chunk(p),
                    forall|p: IVec3|
                        in_chunk(p) ==> #[trigger] chunk.blocks@[linear_index(p)] == if linear_index(p) < i {
                            chunk_block(c, saved, p)
                        } else {
                            generated_block(c, p)
                        },
                decreases crate::CHUNK_VOLUME - i,
            {
                let q = crate::coords::index_to_vec3(i);
                proof {
                    crate::coords::lemma_position_round_trip(i as int);
                }
                let ghost mid = chunk.blocks@;
                match s.get(q) {
                    Some(b) => {
                        chunk.blocks.set(i, b);
                    },
                    None => {},
                }
                proof {
                    assert forall|p: IVec3| in_chunk(p) implies #[trigger] chunk.blocks@[linear_index(p)] == if linear_index(p) < i + 1 {
                        chunk_block(c, saved, p)
                    } else {
                        generated_block(c, p)
                    } by {
                        if linear_index(p) == i {
                            lemma_index_injective(p, q);
                        } else {
                            assert(chunk.blocks@[linear_index(p)] == mid[linear_index(p)]);
                        }
                    }
                }
                i = i + 1;
            }
        },
        None => {},
    }
    proof {
        assert forall|p: IVec3| in_chunk(p) implies #[trigger] chunk.blocks@[linear_index(p)] == chunk_block(c, saved, p) by {
            lemma_index_round_trip(p);
        }
    }
    (chunk, spawns)
}


/// An element `f` gives for an element of a sequence is kept by `filter_map`.
proof fn lemma_filter_map_keeps<A, B>(s: Seq<A>, f: spec_fn(A) -> Option<B>, i: int)
    requires
        0 <= i < s.len(),
        f(s[i]) is Some,
    ensures
        s.filter_map(f).contains(f(s[i])->0),
    decreases s.len(),
{
    let rest = s.drop_last();
    if i == s.len() - 1 {
        let r = s.filter_map(f);
        assert(r == rest.filter_map(f) + seq![f(s[i])->0]);
        assert(r[r.len() - 1] == f(s[i])->0);
    } else {
        lemma_filter_map_keeps(rest, f, i);
        assert(rest[i] == s[i]);
        let k = choose|k: int| 0 <= k < rest.filter_map(f).len() && rest.filter_map(f)[k] == f(s[i])->0;
        match f(s.last()) {
            Some(v) => {
                assert(s.filter_map(f)[k] == f(s[i])->0);
            },
            None => {},
        }
    }
}

/// A Ferris stands on the column whose noise put it there: each spawn of the
/// chunk at `pos` lies over a local column `(x, z)` of that chunk (world
/// `x` is `pos.x * 16 + x`, world `z` is `pos.z * 16 + z`) whose Ferris
/// noise is set, at that column's surface height, which lies above the sea
/// and below the top of the world; and every such column has its Ferris.
pub proof fn lemma_ferris_stand_on_their_column(c: ColumnNoise, pos: IVec3, s: IVec3, l: IVec3)
    requires
        c.wf(),
        i32::MIN <= pos.x * 16,
        pos.x * 16 + 15 <= i32::MAX,
        i32::MIN <= pos.z * 16,
        pos.z * 16 + 15 <= i32::MAX,
    ensures
        ferris_spawns(c, pos).contains(s) ==> ({
            let lx = s.x - pos.x * 16;
            let lz = s.z - pos.z * 16;
            let col = column_of(IVec3 { x: lx as i32, y: 0, z: lz as i32 });
            &&& 0 <= lx < 16
            &&& 0 <= lz < 16
            &&& c.ferris@[col]
            &&& s.y == c.heights@[col]
            &&& 64 < s.y < 256
        }),
        0 <= l.x < 16 && 0 <= l.z < 16 && c.ferris@[column_of(l)] && 64 < c.heights@[column_of(l)] < 256
            ==> ferris_spawns(c, pos).contains(
            IVec3 { x: (pos.x * 16 + l.x) as i32, y: c.heights@[column_of(l)], z: (pos.z * 16 + l.z) as i32 },
        ),
{
    let cols = Seq::new(256, |col: int| col);
    let f = |col: int| ferris_at(c, pos, col);
    if ferris_spawns(c, pos).contains(s) {
        cols.lemma_filter_map_contains(f, s);
        let t = choose|t: int| cols.contains(t) && f(t) == Some(s);
        let k = choose|k: int| 0 <= k < cols.len() && cols[k] == t;
        assert(0 <= t < 256);
        assert(t == (t / 16) * 16 + t % 16);
    }
    if 0 <= l.x < 16 && 0 <= l.z < 16 && c.ferris@[column_of(l)] && 64 < c.heights@[column_of(l)] < 256 {
        let col = column_of(l);
        assert(0 <= col < 256);
        assert(col % 16 == l.x && col / 16 == l.z);
        assert(cols[col] == col);
        lemma_filter_map_keeps(cols, f, col);
    }
}

} // verus!
