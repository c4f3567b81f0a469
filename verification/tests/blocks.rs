use ferriscraft::block::{AtlasUv, Block, BlockKind, Direction};

#[test]
fn from_u32_maps_kind_numbers() {
    assert_eq!(BlockKind::from_u32(0), BlockKind::Air);
    assert_eq!(BlockKind::from_u32(1), BlockKind::Stone);
    assert_eq!(BlockKind::from_u32(8), BlockKind::Wood);
    assert_eq!(BlockKind::from_u32(10), BlockKind::Snow);
    assert_eq!(BlockKind::from_u32(11), BlockKind::Air);
    assert_eq!(BlockKind::from_u32(u32::MAX), BlockKind::Air);
}

#[test]
fn kind_index_round_trip() {
    for i in 0..11u32 {
        assert_eq!(BlockKind::from_u32(i).index(), i);
    }
}

#[test]
fn solidity_and_rotation() {
    assert!(!BlockKind::Air.is_solid());
    assert!(!BlockKind::Water.is_solid());
    assert!(BlockKind::Stone.is_solid());
    assert!(BlockKind::Leaf.is_solid());
    assert!(BlockKind::Air.is_air());
    assert!(!BlockKind::Water.is_air());
    assert!(BlockKind::Wood.can_rotate());
    assert!(!BlockKind::Plank.can_rotate());
}

#[test]
fn default_block_is_air_pointing_up() {
    let b: Block = Default::default();
    assert_eq!(b, Block::air());
    assert_eq!(b.kind, BlockKind::Air);
    assert_eq!(b.direction, Direction::Top);
    assert_eq!(Block::from_kind(BlockKind::Stone).direction, Direction::Top);
}

#[test]
fn opposite_is_an_involution() {
    let all = [
        Direction::Left,
        Direction::Right,
        Direction::Bottom,
        Direction::Top,
        Direction::Back,
        Direction::Front,
    ];
    for d in all {
        assert_eq!(d.get_opposite().get_opposite(), d);
        assert_ne!(d.get_opposite(), d);
        let n = d.as_vec3();
        let o = d.get_opposite().as_vec3();
        assert_eq!((n.x + o.x, n.y + o.y, n.z + o.z), (0, 0, 0));
    }
    assert_eq!(Direction::Top.get_opposite(), Direction::Bottom);
    assert_eq!(Direction::Left.get_opposite(), Direction::Right);
}

#[test]
fn normals() {
    let n = Direction::Left.as_vec3();
    assert_eq!((n.x, n.y, n.z), (-1, 0, 0));
    let n = Direction::Top.as_vec3();
    assert_eq!((n.x, n.y, n.z), (0, 1, 0));
    let n = Direction::Front.as_vec3();
    assert_eq!((n.x, n.y, n.z), (0, 0, 1));
}

fn uv(col: u32, row: u32, du: u32, dv: u32) -> AtlasUv {
    AtlasUv { col, row, du, dv }
}

#[test]
fn uvs_of_top_face_of_upright_block() {
    let grass = Block::from_kind(BlockKind::Grass);
    // the face the block points to uses column 0; grass is row 2; turned by one corner
    assert_eq!(
        Direction::Top.get_uvs(grass),
        [uv(0, 2, 0, 0), uv(0, 2, 1, 0), uv(0, 2, 1, 1), uv(0, 2, 0, 1)]
    );
}

#[test]
fn uvs_of_bottom_and_side_faces() {
    let stone = Block::from_kind(BlockKind::Stone);
    // opposite face: column 2, turned by one corner
    assert_eq!(
        Direction::Bottom.get_uvs(stone),
        [uv(2, 0, 0, 0), uv(2, 0, 1, 0), uv(2, 0, 1, 1), uv(2, 0, 0, 1)]
    );
    // left side of an upright block: column 1, turned by three corners
    assert_eq!(
        Direction::Left.get_uvs(stone),
        [uv(1, 0, 1, 1), uv(1, 0, 0, 1), uv(1, 0, 0, 0), uv(1, 0, 1, 0)]
    );
    // back side of an upright block: no turn
    assert_eq!(
        Direction::Back.get_uvs(stone),
        [uv(1, 0, 0, 1), uv(1, 0, 0, 0), uv(1, 0, 1, 0), uv(1, 0, 1, 1)]
    );
}

#[test]
fn uvs_of_rotated_wood() {
    let wood = Block { kind: BlockKind::Wood, direction: Direction::Left };
    // wood is row 7; Left face is the one it points to, turned by three corners
    assert_eq!(
        Direction::Left.get_uvs(wood),
        [uv(0, 7, 1, 1), uv(0, 7, 0, 1), uv(0, 7, 0, 0), uv(0, 7, 1, 0)]
    );
    // top face of a block pointing left is turned by two corners
    assert_eq!(
        Direction::Top.get_uvs(wood),
        [uv(1, 7, 1, 0), uv(1, 7, 1, 1), uv(1, 7, 0, 1), uv(1, 7, 0, 0)]
    );
    // right face is the opposite one
    assert_eq!(Direction::Right.get_uvs(wood)[0].col, 2);
}
