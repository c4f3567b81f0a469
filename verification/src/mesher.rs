//! Turning the blocks of a chunk into the faces that can be seen.

use vstd::prelude::*;
use rayon::iter::{IntoParallelIterator, ParallelIterator};
use crate::block::{AtlasUv, Block, BlockKind, Direction, face_uv, spec_normal, spec_opposite};
use crate::chunk::{BorderHeights, Chunk, adjacent_blocks, opt_wf};
use crate::coords::{IVec3, index_to_vec3, position_of};

verus! {

/// The four corners of a face, in block units.
pub struct Quad {
    pub corners: [IVec3; 4],
}

/// One corner of a face: where it is, which way the face looks, and its
/// texture coordinate.
#[derive(Clone, Copy, PartialEq, Eq, Debug, Structural)]
pub struct Vertex {
    pub pos: IVec3,
    pub normal: Direction,
    pub uv: AtlasUv,
}

/// Faces of a chunk: four vertices per face, six indices (two triangles)
/// per face.
pub struct ChunkMesh {
    pub vertices: Vec<Vertex>,
    pub indices: Vec<u32>,
}

pub open spec fn v3(x: int, y: int, z: int) -> IVec3 {
    IVec3 { x: x as i32, y: y as i32, z: z as i32 }
}

/// Corner `k` of the face of the box at `p` of size `s` that looks towards
/// `dir`. The faces that look to the negative side lie on the box's near
/// plane; those that look to the positive side lie on the same plane too,
/// because they are drawn from the empty cell in front of them.
pub open spec fn quad_corner(dir: Direction, p: IVec3, s: IVec3, k: int) -> IVec3 {
    let (x, y, z) = (p.x as int, p.y as int, p.z as int);
    let (sx, sy, sz) = (s.x as int, s.y as int, s.z as int);
    match dir {
        Direction::Left => if k == 0 {
            v3(x, y, z)
        } else if k == 1 {
            v3(x, y, z + sz)
        } else if k == 2 {
            v3(x, y + sy, z + sz)
        } else {
            v3(x, y + sy, z)
        },
        Direction::Right => if k == 0 {
            v3(x, y + sy, z)
        } else if k == 1 {
            v3(x, y + sy, z + sz)
        } else if k == 2 {
            v3(x, y, z + sz)
        } else {
            v3(x, y, z)
        },
        Direction::Bottom => if k == 0 {
            v3(x, y, z)
        } else if k == 1 {
            v3(x + sx, y, z)
        } else if k == 2 {
            v3(x + sx, y, z + sz)
        } else {
            v3(x, y, z + sz)
        },
        Direction::Top => if k == 0 {
            v3(x, y, z + sz)
        } else if k == 1 {
            v3(x + sx, y, z + sz)
        } else if k == 2 {
            v3(x + sx, y, z)
        } else {
            v3(x, y, z)
        },
        Direction::Back => if k == 0 {
            v3(x, y, z)
        } else if k == 1 {
            v3(x, y + sy, z)
        } else if k == 2 {
            v3(x + sx, y + sy, z)
        } else {
            v3(x + sx, y, z)
        },
        Direction::Front => if k == 0 {
            v3(x + sx, y, z)
        } else if k == 1 {
            v3(x + sx, y + sy, z)
        } else if k == 2 {
            v3(x, y + sy, z)
        } else {
            v3(x, y, z)
        },
    }
}

/// `p + s` fits in `i32` on every axis.
pub open spec fn box_fits(p: IVec3, s: IVec3) -> bool {
    i32::MIN <= p.x + s.x <= i32::MAX && i32::MIN <= p.y + s.y <= i32::MAX && i32::MIN <= p.z
        + s.z <= i32::MAX
}

impl Quad {
    /// The face of the box at `pos` of size `size` that looks towards `direction`.
    pub fn from_direction(direction: Direction, pos: IVec3, size: IVec3) -> (r: Quad)
        requires
            box_fits(pos, size),
        ensures
            forall|k: int| 0 <= k < 4 ==> #[trigger] r.corners[k] == quad_corner(direction, pos, size, k),
    {
        let (x, y, z) = (pos.x, pos.y, pos.z);
        let (x1, y1, z1) = (pos.x + size.x, pos.y + size.y, pos.z + size.z);
        let corners = match direction {
            Direction::Left => [
                IVec3 { x, y, z },
                IVec3 { x, y, z: z1 },
                IVec3 { x, y: y1, z: z1 },
                IVec3 { x, y: y1, z },
            ],
            Direction::Right => [
                IVec3 { x, y: y1, z },
                IVec3 { x, y: y1, z: z1 },
                IVec3 { x, y, z: z1 },
                IVec3 { x, y, z },
            ],
            Direction::Bottom => [
                IVec3 { x, y, z },
                IVec3 { x: x1, y, z },
                IVec3 { x: x1, y, z: z1 },
                IVec3 { x, y, z: z1 },
            ],
            Direction::Top => [
                IVec3 { x, y, z: z1 },
                IVec3 { x: x1, y, z: z1 },
                IVec3 { x: x1, y, z },
                IVec3 { x, y, z },
            ],
            Direction::Back => [
                IVec3 { x, y, z },
                IVec3 { x, y: y1, z },
                IVec3 { x: x1, y: y1, z },
                IVec3 { x: x1, y, z },
            ],
            Direction::Front => [
                IVec3 { x: x1, y, z },
                IVec3 { x: x1, y: y1, z },
                IVec3 { x, y: y1, z },
                IVec3 { x, y, z },
            ],
        };
        Quad { corners }
    }
}

pub open spec fn unit() -> IVec3 {
    IVec3 { x: 1, y: 1, z: 1 }
}

/// The four vertices of the unit face at `p` that looks towards `dir`,
/// textured as that face of `block`.
pub open spec fn face_vertices(dir: Direction, p: IVec3, block: Block) -> Seq<Vertex> {
    Seq::new(
        4,
        |k: int| Vertex { pos: quad_corner(dir, p, unit(), k), normal: dir, uv: face_uv(dir, block, k) },
    )
}

pub open spec fn is_air(b: Block) -> bool {
    b.kind == BlockKind::Air
}

/// The faces drawn for the cell at local position `p` holding `current`,
/// given the blocks behind, left of and below it: a solid cell draws its
/// left, back and bottom faces where they touch air; an air cell draws the
/// right, front and top faces of the solid blocks it touches there.
pub open spec fn faces_of(p: IVec3, current: Block, back: Block, left: Block, down: Block) -> Seq<Vertex> {
    if !is_air(current) {
        (if is_air(left) { face_vertices(Direction::Left, p, current) } else { Seq::empty() })
            + (if is_air(back) { face_vertices(Direction::Back, p, current) } else { Seq::empty() })
            + (if is_air(down) { face_vertices(Direction::Bottom, p, current) } else { Seq::empty() })
    } else {
        (if !is_air(left) { face_vertices(Direction::Right, p, left) } else { Seq::empty() })
            + (if !is_air(back) { face_vertices(Direction::Front, p, back) } else { Seq::empty() })
            + (if !is_air(down) { face_vertices(Direction::Top, p, down) } else { Seq::empty() })
    }
}

/// The vertices drawn for the cell at linear index `i` of chunk `c`.
pub open spec fn cell_vertices(
    c: Chunk,
    left_chunk: Option<&Chunk>,
    back_chunk: Option<&Chunk>,
    heights: BorderHeights,
    i: int,
) -> Seq<Vertex> {
    let p = position_of(i);
    let adj = adjacent_blocks(c, p, left_chunk, back_chunk, heights);
    faces_of(p, c.blocks@[i], adj.0, adj.1, adj.2)
}

/// The vertices of cells `0 .. n`, in cell order.
pub open spec fn mesh_vertices(
    c: Chunk,
    left_chunk: Option<&Chunk>,
    back_chunk: Option<&Chunk>,
    heights: BorderHeights,
    n: int,
) -> Seq<Vertex>
    decreases n,
{
    if n <= 0 {
        Seq::empty()
    } else {
        mesh_vertices(c, left_chunk, back_chunk, heights, n - 1) + cell_vertices(
            c,
            left_chunk,
            back_chunk,
            heights,
            n - 1,
        )
    }
}

/// The vertices of a cell when it draws any face.
pub open spec fn nonempty_cell(
    c: Chunk,
    left_chunk: Option<&Chunk>,
    back_chunk: Option<&Chunk>,
    heights: BorderHeights,
    i: int,
) -> Option<Seq<Vertex>> {
    let v = cell_vertices(c, left_chunk, back_chunk, heights, i);
    if v.len() > 0 {
        Some(v)
    } else {
        None
    }
}

/// The cells `0 .. n` that draw a face, each as its vertices, in cell order.
pub open spec fn drawn_cells(
    c: Chunk,
    left_chunk: Option<&Chunk>,
    back_chunk: Option<&Chunk>,
    heights: BorderHeights,
    n: int,
) -> Seq<Seq<Vertex>> {
    Seq::new(n as nat, |i: int| i).filter_map(
        |i: int| nonempty_cell(c, left_chunk, back_chunk, heights, i),
    )
}

/// Concatenation of a sequence of vertex lists.
pub open spec fn concat(s: Seq<Seq<Vertex>>) -> Seq<Vertex>
    decreases s.len(),
{
    if s.len() == 0 {
        Seq::empty()
    } else {
        concat(s.drop_last()) + s.last()
    }
}

/// The two triangles of each of the first `count` faces: face `q` uses
/// vertices `4q, 4q+1, 4q+2` and `4q, 4q+2, 4q+3`.
pub open spec fn quad_indices(count: int) -> Seq<u32> {
    Seq::new(
        (6 * count) as nat,
        |j: int|
            (4 * (j / 6) + (if j % 6 == 0 || j % 6 == 3 {
                0int
            } else if j % 6 == 1 {
                1int
            } else if j % 6 == 2 || j % 6 == 4 {
                2int
            } else {
                3int
            })) as u32,
    )
}

impl ChunkMesh {
    pub fn new() -> (r: ChunkMesh)
        ensures
            r.vertices@ == Seq::<Vertex>::empty(),
            r.indices@ == Seq::<u32>::empty(),
    {
        ChunkMesh { vertices: Vec::new(), indices: Vec::new() }
    }

    /// Adds the four vertices of the unit face at `pos` that looks towards
    /// `dir`, textured as that face of `block`.
    pub fn push_face(&mut self, dir: Direction, pos: IVec3, block: Block)
        requires
            block.kind != BlockKind::Air,
            box_fits(pos, unit()),
        ensures
            final(self).vertices@ == old(self).vertices@ + face_vertices(dir, pos, block),
            final(self).indices@ == old(self).indices@,
    {
        let uvs = dir.get_uvs(block);
        let quad = Quad::from_direction(dir, pos, IVec3 { x: 1, y: 1, z: 1 });
        let ghost start = self.vertices@;
        let mut i: usize = 0;
        while i < 4
            invariant
                0 <= i <= 4,
                self.vertices@ == start + face_vertices(dir, pos, block).take(i as int),
                self.indices@ == old(self).indices@,
                start == old(self).vertices@,
                forall|k: int| 0 <= k < 4 ==> #[trigger] uvs[k] == face_uv(dir, block, k),
                forall|k: int| 0 <= k < 4 ==> #[trigger] quad.corners[k] == quad_corner(dir, pos, unit(), k),
            decreases 4 - i,
        {
            self.vertices.push(Vertex { pos: quad.corners[i], normal: dir, uv: uvs[i] });
            assert(face_vertices(dir, pos, block).take(i + 1) =~= face_vertices(dir, pos, block).take(
                i as int,
            ).push(face_vertices(dir, pos, block)[i as int]));
            i = i + 1;
        }
        assert(face_vertices(dir, pos, block).take(4) =~= face_vertices(dir, pos, block));
    }
}

/// The faces of the cell at linear index `i`, or `None` when it draws none.
pub fn cell_mesh(
    chunk: &Chunk,
    i: usize,
    left_chunk: Option<&Chunk>,
    back_chunk: Option<&Chunk>,
    heights: &BorderHeights,
) -> (r: Option<ChunkMesh>)
    requires
        chunk.wf(),
        opt_wf(left_chunk),
        opt_wf(back_chunk),
        i < crate::CHUNK_VOLUME,
    ensures
        match r {
            Some(m) => Some(m.vertices@) == nonempty_cell(*chunk, left_chunk, back_chunk, *heights, i as int)
                && m.indices@.len() == 0,
            None => nonempty_cell(*chunk, left_chunk, back_chunk, *heights, i as int) is None,
        },
{
    let mut local_mesh = ChunkMesh::new();
    let pos = index_to_vec3(i);
    proof {
        crate::coords::lemma_position_round_trip(i as int);
    }
    let current = chunk.blocks[i];
    let (back, left, down) = chunk.get_adjacent_blocks(pos, left_chunk, back_chunk, heights);
    if !current.kind.is_air() {
        if left.kind.is_air() {
            local_mesh.push_face(Direction::Left, pos, current);
        }
        if back.kind.is_air() {
            local_mesh.push_face(Direction::Back, pos, current);
        }
        if down.kind.is_air() {
            local_mesh.push_face(Direction::Bottom, pos, current);
        }
    } else {
        if !left.kind.is_air() {
            local_mesh.push_face(Direction::Right, pos, left);
        }
        if !back.kind.is_air() {
            local_mesh.push_face(Direction::Front, pos, back);
        }
        if !down.kind.is_air() {
            local_mesh.push_face(Direction::Top, pos, down);
        }
    }
    assert(local_mesh.vertices@ =~= cell_vertices(*chunk, left_chunk, back_chunk, *heights, i as int));
    if local_mesh.vertices.len() == 0 {
        None
    } else {
        Some(local_mesh)
    }
}


/// A cell draws at most three faces.
pub proof fn lemma_cell_vertices_len(
    c: Chunk,
    left_chunk: Option<&Chunk>,
    back_chunk: Option<&Chunk>,
    heights: BorderHeights,
    i: int,
)
    ensures
        ({
            let n = cell_vertices(c, left_chunk, back_chunk, heights, i).len();
            n == 0 || n == 4 || n == 8 || n == 12
        }),
{
}

/// Cells `0 .. n` draw at most twelve vertices each, in whole faces.
pub proof fn lemma_mesh_vertices_len(
    c: Chunk,
    left_chunk: Option<&Chunk>,
    back_chunk: Option<&Chunk>,
    heights: BorderHeights,
    n: int,
)
    requires
        n >= 0,
    ensures
        mesh_vertices(c, left_chunk, back_chunk, heights, n).len() <= 12 * n,
        mesh_vertices(c, left_chunk, back_chunk, heights, n).len() % 4 == 0,
    decreases n,
{
    if n > 0 {
        lemma_mesh_vertices_len(c, left_chunk, back_chunk, heights, n - 1);
        lemma_cell_vertices_len(c, left_chunk, back_chunk, heights, n - 1);
        let a = mesh_vertices(c, left_chunk, back_chunk, heights, n - 1).len() as int;
        let b = cell_vertices(c, left_chunk, back_chunk, heights, n - 1).len() as int;
        assert((a + b) % 4 == 0) by (nonlinear_arith)
            requires
                a % 4 == 0,
                b == 0 || b == 4 || b == 8 || b == 12,
        ;
    }
}

/// Leaving out the cells that draw nothing does not change the vertices.
pub proof fn lemma_drawn_cells_concat(
    c: Chunk,
    left_chunk: Option<&Chunk>,
    back_chunk: Option<&Chunk>,
    heights: BorderHeights,
    n: int,
)
    requires
        n >= 0,
    ensures
        concat(drawn_cells(c, left_chunk, back_chunk, heights, n)) == mesh_vertices(
            c,
            left_chunk,
            back_chunk,
            heights,
            n,
        ),
    decreases n,
{
    let f = |i: int| nonempty_cell(c, left_chunk, back_chunk, heights, i);
    let s = Seq::new(n as nat, |i: int| i);
    if n == 0 {
        assert(s.filter_map(f) =~= Seq::<Seq<Vertex>>::empty());
    } else {
        lemma_drawn_cells_concat(c, left_chunk, back_chunk, heights, n - 1);
        assert(s.drop_last() =~= Seq::new((n - 1) as nat, |i: int| i));
        let rest = s.drop_last().filter_map(f);
        assert(s.last() == n - 1);
        match f(n - 1) {
            Some(v) => {
                assert(s.filter_map(f) == rest + seq![v]);
                assert((rest + seq![v]).drop_last() =~= rest);
            },
            None => {
                assert(s.filter_map(f) == rest);
                assert(cell_vertices(c, left_chunk, back_chunk, heights, n - 1) =~= Seq::empty());
                assert(mesh_vertices(c, left_chunk, back_chunk, heights, n) =~= mesh_vertices(
                    c,
                    left_chunk,
                    back_chunk,
                    heights,
                    n - 1,
                ));
            },
        }
    }
}

/// `rayon`'s `into_par_iter().filter_map(..).collect()` over the cells of a
/// chunk, each mapped by `cell_mesh`. `collect` into a `Vec` keeps the order
/// of the items (its unindexed path gathers the pieces into a list in
/// order and appends them in turn), so the result holds the meshes of the
/// cells that draw a face, in cell order; each is a result of `cell_mesh`
/// and so has no indices.
#[verifier::external_body]
fn collect_cell_meshes(
    chunk: &Chunk,
    left_chunk: Option<&Chunk>,
    back_chunk: Option<&Chunk>,
    heights: &BorderHeights,
) -> (parts: Vec<ChunkMesh>)
    requires
        chunk.wf(),
        opt_wf(left_chunk),
        opt_wf(back_chunk),
    ensures
        parts@.map_values(|m: ChunkMesh| m.vertices@) == drawn_cells(
            *chunk,
            left_chunk,
            back_chunk,
            *heights,
            crate::CHUNK_VOLUME as int,
        ),
        forall|j: int| 0 <= j < parts@.len() ==> (#[trigger] parts@[j]).indices@.len() == 0,
{
    (0..crate::CHUNK_VOLUME).into_par_iter().filter_map(
        |i| cell_mesh(chunk, i, left_chunk, back_chunk, heights),
    ).collect()
}

impl ChunkMesh {
    /// Appends the faces of every cell of `chunk` to this mesh, in cell
    /// order, then the two triangles of every face; `None` when the mesh
    /// still has no vertex. Blocks across the left and back borders come
    /// from `left_chunk` and `back_chunk`, or from the border terrain in
    /// `heights` where those chunks are not loaded.
    pub fn build(
        self,
        chunk: &Chunk,
        left_chunk: Option<&Chunk>,
        back_chunk: Option<&Chunk>,
        heights: &BorderHeights,
    ) -> (r: Option<ChunkMesh>)
        requires
            chunk.wf(),
            opt_wf(left_chunk),
            opt_wf(back_chunk),
            self.vertices@.len() <= 0x4000_0000,
        ensures
            ({
                let verts = self.vertices@ + mesh_vertices(
                    *chunk,
                    left_chunk,
                    back_chunk,
                    *heights,
                    crate::CHUNK_VOLUME as int,
                );
                match r {
                    None => verts.len() == 0,
                    Some(m) => verts.len() > 0 && m.vertices@ == verts && m.indices@ == self.indices@
                        + quad_indices((verts.len() / 4) as int),
                }
            }),
    {
        let mut mesh = self;
        let ghost v0 = mesh.vertices@;
        let ghost i0 = mesh.indices@;
        let parts = collect_cell_meshes(chunk, left_chunk, back_chunk, heights);
        let ghost cells = drawn_cells(*chunk, left_chunk, back_chunk, *heights, crate::CHUNK_VOLUME as int);
        proof {
            lemma_drawn_cells_concat(*chunk, left_chunk, back_chunk, *heights, crate::CHUNK_VOLUME as int);
            lemma_mesh_vertices_len(*chunk, left_chunk, back_chunk, *heights, crate::CHUNK_VOLUME as int);
            assert(parts@.len() == cells.len());
        }
        let mut p: usize = 0;
        while p < parts.len()
            invariant
                0 <= p <= parts@.len(),
                parts@.len() == cells.len(),
                forall|j: int| 0 <= j < parts@.len() ==> (#[trigger] parts@[j]).vertices@ == cells[j],
                forall|j: int| 0 <= j < parts@.len() ==> (#[trigger] parts@[j]).indices@.len() == 0,
                mesh.vertices@ == v0 + concat(cells.take(p as int)),
                mesh.indices@ == i0,
                v0.len() <= 0x4000_0000,
                concat(cells).len() <= 12 * 65536,
            decreases parts@.len() - p,
        {
            let part = &parts[p];
            proof {
                assert(part.vertices@ == cells[p as int]);
                lemma_concat_take_len(cells, p as int + 1);
            }
            let mut k: usize = 0;
            while k < part.vertices.len()
                invariant
                    0 <= k <= part.vertices@.len(),
                    mesh.vertices@ == v0 + concat(cells.take(p as int)) + part.vertices@.take(k as int),
                    mesh.indices@ == i0,
                decreases part.vertices@.len() - k,
            {
                mesh.vertices.push(part.vertices[k]);
                assert(part.vertices@.take(k + 1) =~= part.vertices@.take(k as int).push(part.vertices@[k as int]));
                k = k + 1;
            }
            proof {
                assert(part.vertices@.take(part.vertices@.len() as int) =~= part.vertices@);
            }
            let mut k: usize = 0;
            while k < part.indices.len()
                invariant
                    0 <= k <= part.indices@.len(),
                    mesh.vertices@ == v0 + concat(cells.take(p as int)) + part.vertices@,
                    part.indices@.len() == 0,
                    mesh.indices@ == i0,
                decreases part.indices@.len() - k,
            {
                mesh.indices.push(part.indices[k] + mesh.vertices.len() as u32);
                k = k + 1;
            }
            proof {
                assert(cells.take(p as int + 1).drop_last() =~= cells.take(p as int));
                assert(concat(cells.take(p as int + 1)) == concat(cells.take(p as int)) + cells[p as int]);
                assert(mesh.vertices@ =~= v0 + concat(cells.take(p as int + 1)));
            }
            p = p + 1;
        }
        proof {
            assert(cells.take(cells.len() as int) =~= cells);
            assert(mesh.vertices@ == v0 + mesh_vertices(
                *chunk,
                left_chunk,
                back_chunk,
                *heights,
                crate::CHUNK_VOLUME as int,
            ));
        }
        if mesh.vertices.len() == 0 {
            None
        } else {
            let count = mesh.vertices.len() / 4;
            let ghost verts = mesh.vertices@;
            let mut q: usize = 0;
            while q < count
                invariant
                    0 <= q <= count,
                    count <= 0x4000_0000,
                    mesh.indices@ == i0 + quad_indices(q as int),
                    mesh.vertices@ == verts,
                    verts.len() > 0,
                    count == verts.len() / 4,
                decreases count - q,
            {
                let idx = q as u32 * 4;
                mesh.indices.push(idx);
                mesh.indices.push(idx + 1);
                mesh.indices.push(idx + 2);
                mesh.indices.push(idx);
                mesh.indices.push(idx + 2);
                mesh.indices.push(idx + 3);
                proof {
                    lemma_quad_indices_step(q as int);
                    assert(mesh.indices@ =~= i0 + quad_indices(q as int + 1));
                }
                q = q + 1;
            }
            Some(mesh)
        }
    }
}

/// The vertices of the first `k` lists are no more than those of all of them.
pub proof fn lemma_concat_take_len(s: Seq<Seq<Vertex>>, k: int)
    requires
        0 <= k <= s.len(),
    ensures
        concat(s.take(k)).len() <= concat(s).len(),
    decreases s.len(),
{
    if k < s.len() {
        assert(s.drop_last().take(k) =~= s.take(k));
        lemma_concat_take_len(s.drop_last(), k);
    } else {
        assert(s.take(k) =~= s);
    }
}


/// The indices of one more face are six more entries.
pub proof fn lemma_quad_indices_step(q: int)
    requires
        0 <= q < 0x4000_0000,
    ensures
        quad_indices(q + 1) =~= quad_indices(q) + seq![
            (4 * q) as u32,
            (4 * q + 1) as u32,
            (4 * q + 2) as u32,
            (4 * q) as u32,
            (4 * q + 2) as u32,
            (4 * q + 3) as u32,
        ],
{
    assert forall|j: int| 6 * q <= j < 6 * q + 6 implies #[trigger] (j / 6) == q by {
        assert(j / 6 == q) by (nonlinear_arith)
            requires
                6 * q <= j < 6 * q + 6,
        ;
    }
    let t = seq![
            (4 * q) as u32,
            (4 * q + 1) as u32,
            (4 * q + 2) as u32,
            (4 * q) as u32,
            (4 * q + 2) as u32,
            (4 * q + 3) as u32,
        ];
    assert forall|j: int| 0 <= j < 6 * q + 6 implies #[trigger] quad_indices(q + 1)[j] == (quad_indices(q) + t)[j] by {
        if j >= 6 * q {
            assert(j / 6 == q);
            assert(j % 6 == j - 6 * q);
        }
    }
}


/// Every index of the first `count` faces names one of their `4 * count`
/// vertices.
pub proof fn lemma_quad_indices_valid(count: int)
    requires
        0 <= count,
    ensures
        forall|j: int| 0 <= j < quad_indices(count).len() ==> (#[trigger] quad_indices(count)[j]) < 4 * count,
{
    assert forall|j: int| 0 <= j < quad_indices(count).len() implies (#[trigger] quad_indices(count)[j]) < 4 * count by {
        let q = j / 6;
        assert(0 <= q < count) by (nonlinear_arith)
            requires
                0 <= j < 6 * count,
                q == j / 6,
        ;
        assert(4 * q + 3 < 4 * count);
    }
}

/// A mesh built from an empty mesh is whole faces, and each of its indices
/// names one of its vertices.
pub proof fn lemma_built_mesh_indices_valid(vertices: Seq<Vertex>, indices: Seq<u32>)
    requires
        vertices.len() % 4 == 0,
        indices == quad_indices((vertices.len() / 4) as int),
    ensures
        indices.len() == 6 * (vertices.len() / 4),
        forall|j: int| 0 <= j < indices.len() ==> (#[trigger] indices[j]) < vertices.len(),
{
    lemma_quad_indices_valid((vertices.len() / 4) as int);
}

/// No face is drawn inside a solid region or inside an empty one: a cell
/// whose block and whose three neighbours behind, left and below are all
/// air, or all not air, draws nothing.
pub proof fn lemma_uniform_cell_draws_nothing(p: IVec3, current: Block, back: Block, left: Block, down: Block)
    requires
        (is_air(current) && is_air(back) && is_air(left) && is_air(down)) || (!is_air(current)
            && !is_air(back) && !is_air(left) && !is_air(down)),
    ensures
        faces_of(p, current, back, left, down).len() == 0,
{
}

/// Every face drawn lies between a block and air: a solid cell draws only
/// its own faces towards air, an air cell only the faces of solid
/// neighbours, and each face has four vertices that look the same way.
pub proof fn lemma_faces_between_solid_and_air(p: IVec3, current: Block, back: Block, left: Block, down: Block)
    ensures
        !is_air(current) ==> faces_of(p, current, back, left, down).len() == 4 * ((if is_air(left) {
            1int
        } else {
            0
        }) + (if is_air(back) {
            1int
        } else {
            0
        }) + (if is_air(down) {
            1int
        } else {
            0
        })),
        is_air(current) ==> faces_of(p, current, back, left, down).len() == 4 * ((if !is_air(left) {
            1int
        } else {
            0
        }) + (if !is_air(back) {
            1int
        } else {
            0
        }) + (if !is_air(down) {
            1int
        } else {
            0
        })),
{
}


/// The coordinates of a position as integers.
pub open spec fn ints(c: IVec3) -> (int, int, int) {
    (c.x as int, c.y as int, c.z as int)
}

/// `a - b`.
pub open spec fn minus(a: IVec3, b: IVec3) -> (int, int, int) {
    (a.x - b.x, a.y - b.y, a.z - b.z)
}

/// The cross product `u × v`.
pub open spec fn cross(u: (int, int, int), v: (int, int, int)) -> (int, int, int) {
    (u.1 * v.2 - u.2 * v.1, u.2 * v.0 - u.0 * v.2, u.0 * v.1 - u.1 * v.0)
}

/// `k` times `v`.
pub open spec fn scaled(k: int, v: (int, int, int)) -> (int, int, int) {
    (k * v.0, k * v.1, k * v.2)
}

/// The area of the face of the box of size `s` that looks towards `d`.
pub open spec fn face_area(d: Direction, s: IVec3) -> int {
    match d {
        Direction::Left | Direction::Right => s.y * s.z,
        Direction::Bottom | Direction::Top => s.x * s.z,
        Direction::Back | Direction::Front => s.x * s.y,
    }
}

/// `c` is a corner of the rectangle of the box at `p` of size `s` that lies
/// across `d`'s axis at `p`: on `d`'s axis it has `p`'s coordinate, on each
/// other axis `p`'s or `p`'s plus the size.
pub open spec fn rect_corner(d: Direction, p: IVec3, s: IVec3, c: IVec3) -> bool {
    let on_x = c.x == p.x || c.x == p.x + s.x;
    let on_y = c.y == p.y || c.y == p.y + s.y;
    let on_z = c.z == p.z || c.z == p.z + s.z;
    match d {
        Direction::Left | Direction::Right => c.x == p.x && on_y && on_z,
        Direction::Bottom | Direction::Top => c.y == p.y && on_x && on_z,
        Direction::Back | Direction::Front => c.z == p.z && on_x && on_y,
    }
}

/// Every face is a proper rectangle wound counter-clockwise seen from the
/// side it looks to: its four corners are the four distinct corners of the
/// box's rectangle across the face's axis, both of its triangles have the
/// face's normal times the face's area as cross product, and the face that
/// looks the other way has the same corners in reverse order.
pub proof fn lemma_quad_orientation(d: Direction, p: IVec3, s: IVec3)
    requires
        box_fits(p, s),
        s.x > 0,
        s.y > 0,
        s.z > 0,
    ensures
        face_area(d, s) > 0,
        forall|k: int| 0 <= k < 4 ==> rect_corner(d, p, s, #[trigger] quad_corner(d, p, s, k)),
        forall|k: int, j: int|
            0 <= k < j < 4 ==> quad_corner(d, p, s, k) != quad_corner(d, p, s, j),
        cross(
            minus(quad_corner(d, p, s, 1), quad_corner(d, p, s, 0)),
            minus(quad_corner(d, p, s, 2), quad_corner(d, p, s, 0)),
        ) == scaled(face_area(d, s), spec_normal(d)),
        cross(
            minus(quad_corner(d, p, s, 2), quad_corner(d, p, s, 0)),
            minus(quad_corner(d, p, s, 3), quad_corner(d, p, s, 0)),
        ) == scaled(face_area(d, s), spec_normal(d)),
        forall|k: int| 0 <= k < 4 ==> #[trigger] quad_corner(spec_opposite(d), p, s, k) == quad_corner(d, p, s, 3 - k),
{
    let (sx, sy, sz) = (s.x as int, s.y as int, s.z as int);
    assert(sy * sz > 0 && sx * sz > 0 && sx * sy > 0) by (nonlinear_arith)
        requires
            sx > 0,
            sy > 0,
            sz > 0,
    ;
    let c0 = quad_corner(d, p, s, 0);
    let c1 = quad_corner(d, p, s, 1);
    let c2 = quad_corner(d, p, s, 2);
    let c3 = quad_corner(d, p, s, 3);
    let n = spec_normal(d);
    let (u, v, w): ((int, int, int), (int, int, int), (int, int, int)) = match d {
        Direction::Left => ((0, 0, sz), (0, sy, sz), (0, sy, 0)),
        Direction::Right => ((0, 0, sz), (0, -sy, sz), (0, -sy, 0)),
        Direction::Bottom => ((sx, 0, 0), (sx, 0, sz), (0, 0, sz)),
        Direction::Top => ((sx, 0, 0), (sx, 0, -sz), (0, 0, -sz)),
        Direction::Back => ((0, sy, 0), (sx, sy, 0), (sx, 0, 0)),
        Direction::Front => ((0, sy, 0), (-sx, sy, 0), (-sx, 0, 0)),
    };
    assert(minus(c1, c0) == u && minus(c2, c0) == v && minus(c3, c0) == w);
    let a = face_area(d, s);
    assert(cross(u, v) == scaled(a, n) && cross(v, w) == scaled(a, n)) by (nonlinear_arith)
        requires
            a == face_area(d, s),
            n == spec_normal(d),
            sx == s.x,
            sy == s.y,
            sz == s.z,
            (u, v, w) == (match d {
                Direction::Left => ((0int, 0int, sz), (0int, sy, sz), (0int, sy, 0int)),
                Direction::Right => ((0, 0, sz), (0, -sy, sz), (0, -sy, 0)),
                Direction::Bottom => ((sx, 0, 0), (sx, 0, sz), (0, 0, sz)),
                Direction::Top => ((sx, 0, 0), (sx, 0, -sz), (0, 0, -sz)),
                Direction::Back => ((0, sy, 0), (sx, sy, 0), (sx, 0, 0)),
                Direction::Front => ((0, sy, 0), (-sx, sy, 0), (-sx, 0, 0)),
            }),
    ;
}

} // verus!
