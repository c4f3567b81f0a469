use ferriscraft::block::{AtlasUv, Block, BlockKind, Direction};
use ferriscraft::chunk::{BorderHeights, Chunk};
use ferriscraft::coords::{vec3_to_index, IVec3};
use ferriscraft::mesher::{cell_mesh, ChunkMesh, Quad};

fn v(x: i32, y: i32, z: i32) -> IVec3 {
    IVec3::new(x, y, z)
}

#[test]
fn quad_corners_follow_the_face() {
    let q = Quad::from_direction(Direction::Top, v(0, 0, 0), v(2, 1, 3));
    assert_eq!(q.corners, [v(0, 0, 3), v(2, 0, 3), v(2, 0, 0), v(0, 0, 0)]);
    let q = Quad::from_direction(Direction::Left, v(1, 2, 3), v(1, 1, 1));
    assert_eq!(q.corners, [v(1, 2, 3), v(1, 2, 4), v(1, 3, 4), v(1, 3, 3)]);
    let q = Quad::from_direction(Direction::Front, v(1, 2, 3), v(1, 1, 1));
    assert_eq!(q.corners, [v(2, 2, 3), v(2, 3, 3), v(1, 3, 3), v(1, 2, 3)]);
}

#[test]
fn push_face_adds_four_vertices() {
    let mut m = ChunkMesh::new();
    let stone = Block::from_kind(BlockKind::Stone);
    m.push_face(Direction::Bottom, v(4, 5, 6), stone);
    assert_eq!(m.vertices.len(), 4);
    assert!(m.indices.is_empty());
    let uvs = Direction::Bottom.get_uvs(stone);
    let quad = Quad::from_direction(Direction::Bottom, v(4, 5, 6), v(1, 1, 1));
    for k in 0..4 {
        assert_eq!(m.vertices[k].pos, quad.corners[k]);
        assert_eq!(m.vertices[k].normal, Direction::Bottom);
        assert_eq!(m.vertices[k].uv, uvs[k]);
    }
}

fn single_block_chunk() -> (Chunk, Chunk, Chunk, BorderHeights) {
    let mut c = Chunk::new(v(0, 0, 0));
    c.blocks[vec3_to_index(v(1, 1, 1))] = Block::from_kind(BlockKind::Stone);
    (c, Chunk::new(v(-1, 0, 0)), Chunk::new(v(0, 0, -1)), BorderHeights { left: [0; 16], back: [0; 16] })
}

#[test]
fn cell_mesh_draws_faces_towards_air() {
    let (c, left, back, heights) = single_block_chunk();
    let m = cell_mesh(&c, vec3_to_index(v(1, 1, 1)), Some(&left), Some(&back), &heights).unwrap();
    let normals: Vec<Direction> = m.vertices.iter().map(|x| x.normal).collect();
    assert_eq!(normals.len(), 12);
    assert!(normals[0..4].iter().all(|d| *d == Direction::Left));
    assert!(normals[4..8].iter().all(|d| *d == Direction::Back));
    assert!(normals[8..12].iter().all(|d| *d == Direction::Bottom));
    // the empty cell to the right draws the block's right face
    let m = cell_mesh(&c, vec3_to_index(v(2, 1, 1)), Some(&left), Some(&back), &heights).unwrap();
    assert_eq!(m.vertices.len(), 4);
    assert_eq!(m.vertices[0].normal, Direction::Right);
    assert_eq!(m.vertices[0].pos, v(2, 2, 1));
    // a cell with nothing around draws nothing
    assert!(cell_mesh(&c, vec3_to_index(v(8, 8, 8)), Some(&left), Some(&back), &heights).is_none());
}

#[test]
fn build_meshes_a_single_block() {
    let (c, left, back, heights) = single_block_chunk();
    let mesh = ChunkMesh::new().build(&c, Some(&left), Some(&back), &heights).unwrap();
    assert_eq!(mesh.vertices.len(), 24);
    assert_eq!(mesh.indices.len(), 36);
    let faces: Vec<Direction> = mesh.vertices.chunks(4).map(|f| f[0].normal).collect();
    // in cell order: the block's own cell, then the cells right, above and in front of it
    assert_eq!(
        faces,
        vec![
            Direction::Left,
            Direction::Back,
            Direction::Bottom,
            Direction::Right,
            Direction::Top,
            Direction::Front
        ]
    );
    assert_eq!(mesh.vertices[0].pos, v(1, 1, 1));
    assert_eq!(mesh.vertices[0].uv, AtlasUv { col: 1, row: 0, du: 1, dv: 1 });
    assert_eq!(&mesh.indices[0..6], &[0, 1, 2, 0, 2, 3]);
    assert_eq!(&mesh.indices[30..36], &[20, 21, 22, 20, 22, 23]);
    assert!(mesh.indices.iter().all(|i| (*i as usize) < mesh.vertices.len()));
}

#[test]
fn build_of_empty_surroundings_is_none() {
    let c = Chunk::new(v(0, 0, 0));
    let left = Chunk::new(v(-1, 0, 0));
    let back = Chunk::new(v(0, 0, -1));
    let heights = BorderHeights { left: [0; 16], back: [0; 16] };
    assert!(ChunkMesh::new().build(&c, Some(&left), Some(&back), &heights).is_none());
}

#[test]
fn build_against_unloaded_neighbours_uses_border_terrain() {
    // an empty chunk next to unloaded ground of height 1: the bedrock at
    // y = 0 of each border column shows one face towards this chunk
    let c = Chunk::new(v(0, 0, 0));
    let heights = BorderHeights { left: [1; 16], back: [1; 16] };
    let mesh = ChunkMesh::new().build(&c, None, None, &heights).unwrap();
    // the water of the border columns (y from 1 to 63) shows too: 64 layers
    // of 16 cells on each of the two borders
    assert_eq!(mesh.vertices.len(), 4 * 2 * 16 * 64);
    assert_eq!(mesh.indices.len(), 6 * 2 * 16 * 64);
}

#[test]
fn opposite_faces_are_wound_the_other_way() {
    let dirs = [
        Direction::Left,
        Direction::Right,
        Direction::Bottom,
        Direction::Top,
        Direction::Back,
        Direction::Front,
    ];
    let (p, s) = (v(-3, 7, 2), v(2, 3, 4));
    for d in dirs {
        let c = Quad::from_direction(d, p, s).corners;
        let o = Quad::from_direction(d.get_opposite(), p, s).corners;
        assert_eq!(o, [c[3], c[2], c[1], c[0]]);
        // the cross product of the first triangle's edges points along the normal
        let e1 = (c[1].x - c[0].x, c[1].y - c[0].y, c[1].z - c[0].z);
        let e2 = (c[2].x - c[0].x, c[2].y - c[0].y, c[2].z - c[0].z);
        let cross = (e1.1 * e2.2 - e1.2 * e2.1, e1.2 * e2.0 - e1.0 * e2.2, e1.0 * e2.1 - e1.1 * e2.0);
        let n = d.as_vec3();
        let k = cross.0 * n.x + cross.1 * n.y + cross.2 * n.z;
        assert!(k > 0);
        assert_eq!(cross, (k * n.x, k * n.y, k * n.z));
    }
}
