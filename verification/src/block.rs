//! Block kinds, block orientations and the texture-atlas layout of a face.

use vstd::prelude::*;

verus! {

/// What a block is made of.
#[derive(Clone, Copy, PartialEq, Eq, Debug, Structural)]
pub enum BlockKind {
    Air,
    Stone,
    Dirt,
    Grass,
    Plank,
    Bedrock,
    Water,
    Sand,
    Wood,
    Leaf,
    Snow,
}

/// The kinds of entities a world can hold.
#[derive(Clone, Copy, PartialEq, Eq, Debug, Structural)]
pub enum GameEntityKind {
    Ferris,
}

/// One of the six axis directions; also the face of a block.
#[derive(Clone, Copy, PartialEq, Eq, Debug, Structural)]
pub enum Direction {
    Left,
    Right,
    Bottom,
    Top,
    Back,
    Front,
}

/// A block: its kind and the direction its top faces.
#[derive(Clone, Copy, PartialEq, Eq, Debug, Structural)]
pub struct Block {
    pub kind: BlockKind,
    pub direction: Direction,
}

/// Position of a kind in the kind list (`Air` is 0, `Snow` is 10).
pub open spec fn kind_index(k: BlockKind) -> nat {
    match k {
        BlockKind::Air => 0,
        BlockKind::Stone => 1,
        BlockKind::Dirt => 2,
        BlockKind::Grass => 3,
        BlockKind::Plank => 4,
        BlockKind::Bedrock => 5,
        BlockKind::Water => 6,
        BlockKind::Sand => 7,
        BlockKind::Wood => 8,
        BlockKind::Leaf => 9,
        BlockKind::Snow => 10,
    }
}

/// The kind at a position of the kind list; `Air` past its end.
pub open spec fn kind_at(i: int) -> BlockKind {
    if i == 1 {
        BlockKind::Stone
    } else if i == 2 {
        BlockKind::Dirt
    } else if i == 3 {
        BlockKind::Grass
    } else if i == 4 {
        BlockKind::Plank
    } else if i == 5 {
        BlockKind::Bedrock
    } else if i == 6 {
        BlockKind::Water
    } else if i == 7 {
        BlockKind::Sand
    } else if i == 8 {
        BlockKind::Wood
    } else if i == 9 {
        BlockKind::Leaf
    } else if i == 10 {
        BlockKind::Snow
    } else {
        BlockKind::Air
    }
}

pub open spec fn spec_is_solid(k: BlockKind) -> bool {
    k != BlockKind::Air && k != BlockKind::Water
}

impl BlockKind {
    /// A block that stops movement and rays: anything but air and water.
    pub fn is_solid(self) -> (r: bool)
        ensures
            r == spec_is_solid(self),
    {
        self != BlockKind::Air && self != BlockKind::Water
    }

    pub fn is_air(self) -> (r: bool)
        ensures
            r == (self == BlockKind::Air),
    {
        self == BlockKind::Air
    }

    /// Only wood keeps the direction it was placed in.
    pub fn can_rotate(self) -> (r: bool)
        ensures
            r == (self == BlockKind::Wood),
    {
        match self {
            BlockKind::Wood => true,
            _ => false,
        }
    }

    /// The kind's position in the kind list.
    pub fn index(self) -> (r: u32)
        ensures
            r == kind_index(self),
    {
        match self {
            BlockKind::Air => 0,
            BlockKind::Stone => 1,
            BlockKind::Dirt => 2,
            BlockKind::Grass => 3,
            BlockKind::Plank => 4,
            BlockKind::Bedrock => 5,
            BlockKind::Water => 6,
            BlockKind::Sand => 7,
            BlockKind::Wood => 8,
            BlockKind::Leaf => 9,
            BlockKind::Snow => 10,
        }
    }

    /// The kind at position `value` of the kind list, `Air` for any value past it.
    pub fn from_u32(value: u32) -> (r: BlockKind)
        ensures
            r == kind_at(value as int),
    {
        match value {
            1 => BlockKind::Stone,
            2 => BlockKind::Dirt,
            3 => BlockKind::Grass,
            4 => BlockKind::Plank,
            5 => BlockKind::Bedrock,
            6 => BlockKind::Water,
            7 => BlockKind::Sand,
            8 => BlockKind::Wood,
            9 => BlockKind::Leaf,
            10 => BlockKind::Snow,
            _ => BlockKind::Air,
        }
    }
}

/// `from_u32` undoes `index`.
pub proof fn lemma_kind_index_round_trip(k: BlockKind)
    ensures
        kind_at(kind_index(k) as int) == k,
        kind_index(k) < 11,
{
}

/// `index` undoes `from_u32` on every position of the kind list.
pub proof fn lemma_kind_at_round_trip(i: int)
    requires
        0 <= i < 11,
    ensures
        kind_index(kind_at(i)) == i,
{
}

pub open spec fn spec_opposite(d: Direction) -> Direction {
    match d {
        Direction::Left => Direction::Right,
        Direction::Right => Direction::Left,
        Direction::Bottom => Direction::Top,
        Direction::Top => Direction::Bottom,
        Direction::Back => Direction::Front,
        Direction::Front => Direction::Back,
    }
}

/// The unit normal of a direction, as `(x, y, z)`.
pub open spec fn spec_normal(d: Direction) -> (int, int, int) {
    match d {
        Direction::Left => (-1, 0, 0),
        Direction::Right => (1, 0, 0),
        Direction::Bottom => (0, -1, 0),
        Direction::Top => (0, 1, 0),
        Direction::Back => (0, 0, -1),
        Direction::Front => (0, 0, 1),
    }
}

/// Column of the atlas that a face of a block uses: 0 for the face its
/// direction points to, 2 for the opposite face, 1 for the four sides.
pub open spec fn atlas_column(face: Direction, block: Block) -> nat {
    if face == block.direction {
        0
    } else if face == spec_opposite(block.direction) {
        2
    } else {
        1
    }
}

/// By how many corners the base texture square is turned on `face` of a block
/// that points to `dir`: corner `k` of the face takes base corner
/// `(k + uv_shift(dir, face)) % 4`.
pub open spec fn uv_shift(dir: Direction, face: Direction) -> nat {
    match dir {
        Direction::Right => match face {
            Direction::Top | Direction::Bottom => 0,
            Direction::Back => 3,
            _ => 1,
        },
        Direction::Top => match face {
            Direction::Front | Direction::Back => 0,
            Direction::Left => 3,
            _ => 1,
        },
        Direction::Front => match face {
            Direction::Right | Direction::Left => 0,
            Direction::Bottom => 3,
            _ => 1,
        },
        Direction::Left => match face {
            Direction::Top | Direction::Bottom => 2,
            Direction::Back => 1,
            _ => 3,
        },
        Direction::Bottom => match face {
            Direction::Front | Direction::Back => 2,
            Direction::Left => 1,
            _ => 3,
        },
        Direction::Back => match face {
            Direction::Right | Direction::Left => 2,
            Direction::Bottom => 1,
            _ => 3,
        },
    }
}

/// A texture coordinate in the block atlas, in atlas cells: the atlas is
/// 3 columns wide and 10 rows high, and the coordinate is the corner
/// `(col + du, row + dv)` of cell `(col, row)`.
#[derive(Clone, Copy, PartialEq, Eq, Debug, Structural)]
pub struct AtlasUv {
    pub col: u32,
    pub row: u32,
    pub du: u32,
    pub dv: u32,
}

/// Corner `k` of the base texture square of cell `(col, row)`: the order is
/// `(col, row + 1)`, `(col, row)`, `(col + 1, row)`, `(col + 1, row + 1)`.
pub open spec fn base_corner(col: nat, row: nat, k: int) -> AtlasUv {
    let k = k % 4;
    AtlasUv {
        col: col as u32,
        row: row as u32,
        du: if k == 2 || k == 3 { 1 } else { 0 },
        dv: if k == 0 || k == 3 { 1 } else { 0 },
    }
}

/// Texture corner `k` of `face` of a (non-air) block.
pub open spec fn face_uv(face: Direction, block: Block, k: int) -> AtlasUv {
    base_corner(
        atlas_column(face, block),
        (kind_index(block.kind) - 1) as nat,
        k + uv_shift(block.direction, face),
    )
}

impl Direction {
    /// The unit normal of this direction.
    pub fn as_vec3(self) -> (r: crate::coords::IVec3)
        ensures
            (r.x as int, r.y as int, r.z as int) == spec_normal(self),
    {
        match self {
            Direction::Left => crate::coords::IVec3 { x: -1, y: 0, z: 0 },
            Direction::Right => crate::coords::IVec3 { x: 1, y: 0, z: 0 },
            Direction::Bottom => crate::coords::IVec3 { x: 0, y: -1, z: 0 },
            Direction::Top => crate::coords::IVec3 { x: 0, y: 1, z: 0 },
            Direction::Back => crate::coords::IVec3 { x: 0, y: 0, z: -1 },
            Direction::Front => crate::coords::IVec3 { x: 0, y: 0, z: 1 },
        }
    }

    pub fn get_opposite(self) -> (r: Direction)
        ensures
            r == spec_opposite(self),
    {
        match self {
            Direction::Left => Direction::Right,
            Direction::Right => Direction::Left,
            Direction::Bottom => Direction::Top,
            Direction::Top => Direction::Bottom,
            Direction::Back => Direction::Front,
            Direction::Front => Direction::Back,
        }
    }

    /// The four texture corners of this face of `block`, in the order of the
    /// face's vertices. The kind selects the atlas row (`kind - 1`); the face's
    /// relation to the block's direction selects the column and how the
    /// square is turned.
    pub fn get_uvs(self, block: Block) -> (r: [AtlasUv; 4])
        requires
            block.kind != BlockKind::Air,
        ensures
            forall|k: int| 0 <= k < 4 ==> #[trigger] r[k] == face_uv(self, block, k),
    {
        let col: u32 = if self == block.direction {
            0
        } else if self == block.direction.get_opposite() {
            2
        } else {
            1
        };
        let row: u32 = block.kind.index() - 1;
        let base = [
            AtlasUv { col, row, du: 0, dv: 1 },
            AtlasUv { col, row, du: 0, dv: 0 },
            AtlasUv { col, row, du: 1, dv: 0 },
            AtlasUv { col, row, du: 1, dv: 1 },
        ];
        let shift: usize = match block.direction {
            Direction::Right => match self {
                Direction::Top | Direction::Bottom => 0,
                Direction::Back => 3,
                _ => 1,
            },
            Direction::Top => match self {
                Direction::Front | Direction::Back => 0,
                Direction::Left => 3,
                _ => 1,
            },
            Direction::Front => match self {
                Direction::Right | Direction::Left => 0,
                Direction::Bottom => 3,
                _ => 1,
            },
            Direction::Left => match self {
                Direction::Top | Direction::Bottom => 2,
                Direction::Back => 1,
                _ => 3,
            },
            Direction::Bottom => match self {
                Direction::Front | Direction::Back => 2,
                Direction::Left => 1,
                _ => 3,
            },
            Direction::Back => match self {
                Direction::Right | Direction::Left => 2,
                Direction::Bottom => 1,
                _ => 3,
            },
        };
        let r = [base[shift % 4], base[(shift + 1) % 4], base[(shift + 2) % 4], base[(shift + 3) % 4]];
        assert forall|k: int| 0 <= k < 4 implies #[trigger] r[k] == face_uv(self, block, k) by {
            assert(r[k] == base[(shift + k) % 4]);
        }
        r
    }
}

/// Taking the opposite direction twice gives the direction back.
pub proof fn lemma_opposite_involution(d: Direction)
    ensures
        spec_opposite(spec_opposite(d)) == d,
        spec_opposite(d) != d,
{
}

/// Opposite directions have opposite normals.
pub proof fn lemma_opposite_normal(d: Direction)
    ensures
        spec_normal(spec_opposite(d)).0 == -spec_normal(d).0,
        spec_normal(spec_opposite(d)).1 == -spec_normal(d).1,
        spec_normal(spec_opposite(d)).2 == -spec_normal(d).2,
{
}

/// The four texture corners of a face are the four corners of one atlas
/// cell, each used once.
pub proof fn lemma_face_uvs_cover_cell(face: Direction, block: Block)
    requires
        block.kind != BlockKind::Air,
    ensures
        forall|k: int, j: int|
            0 <= k < 4 && 0 <= j < 4 && k != j ==> face_uv(face, block, k) != face_uv(face, block, j),
        forall|k: int|
            0 <= k < 4 ==> (#[trigger] face_uv(face, block, k)).col == atlas_column(face, block)
                && face_uv(face, block, k).row == kind_index(block.kind) - 1,
{
}

impl Block {
    /// A block of `kind` pointing up: how every generated or default block is
    /// oriented.
    pub fn from_kind(kind: BlockKind) -> (r: Block)
        ensures
            r == (Block { kind, direction: Direction::Top }),
    {
        Block { kind, direction: Direction::Top }
    }

    /// The empty block, pointing up.
    pub fn air() -> (r: Block)
        ensures
            r == (Block { kind: BlockKind::Air, direction: Direction::Top }),
    {
        Block { kind: BlockKind::Air, direction: Direction::Top }
    }
}

impl Default for Block {
    fn default() -> (r: Block)
        ensures
            r == (Block { kind: BlockKind::Air, direction: Direction::Top }),
    {
        Block::air()
    }
}

impl Default for BlockKind {
    fn default() -> (r: BlockKind)
        ensures
            r == BlockKind::Air,
    {
        BlockKind::Air
    }
}

impl Default for Direction {
    fn default() -> (r: Direction)
        ensures
            r == Direction::Top,
    {
        Direction::Top
    }
}

} // verus!
