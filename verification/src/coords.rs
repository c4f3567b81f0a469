//! Integer positions and the layout of blocks inside a chunk.

use vstd::prelude::*;

verus! {

/// A position or offset in block units.
#[derive(Clone, Copy, PartialEq, Eq, Debug, Structural)]
pub struct IVec3 {
    pub x: i32,
    pub y: i32,
    pub z: i32,
}

impl IVec3 {
    pub fn new(x: i32, y: i32, z: i32) -> (r: IVec3)
        ensures
            r == (IVec3 { x, y, z }),
    {
        IVec3 { x, y, z }
    }
}

/// A local position lies inside a chunk.
pub open spec fn in_chunk(p: IVec3) -> bool {
    0 <= p.x < 16 && 0 <= p.y < 256 && 0 <= p.z < 16
}

/// Linear index of a local position: x varies fastest, then y, then z.
pub open spec fn linear_index(p: IVec3) -> int {
    p.x + p.y * 16 + p.z * 4096
}

/// The local position stored at a linear index.
pub open spec fn position_of(i: int) -> IVec3 {
    IVec3 { x: (i % 16) as i32, y: ((i / 16) % 256) as i32, z: (i / 4096) as i32 }
}

/// The linear index of `pos` fits an `i32`, so computing it cannot overflow.
pub open spec fn index_fits(p: IVec3) -> bool {
    i32::MIN <= p.x + p.y * 16 <= i32::MAX && i32::MIN <= linear_index(p) <= i32::MAX
        && i32::MIN <= p.y * 16 <= i32::MAX && i32::MIN <= p.z * 4096 <= i32::MAX
}

/// Index of a local position in a chunk's block list.
pub fn vec3_to_index(pos: IVec3) -> (r: usize)
    requires
        in_chunk(pos),
    ensures
        r == linear_index(pos),
        r < crate::CHUNK_VOLUME,
{
    (pos.x + pos.y * 16 + pos.z * 4096) as usize
}

/// The local position stored at `index` of a chunk's block list.
pub fn index_to_vec3(index: usize) -> (r: IVec3)
    requires
        index <= i32::MAX,
    ensures
        r == position_of(index as int),
{
    let i = index as i32;
    IVec3 { x: i % 16, y: (i / 16) % 256, z: i / 4096 }
}

/// `index_to_vec3` undoes `vec3_to_index`.
pub proof fn lemma_index_round_trip(p: IVec3)
    requires
        in_chunk(p),
    ensures
        0 <= linear_index(p) < 65536,
        position_of(linear_index(p)) == p,
{
    let i = linear_index(p);
    assert(i % 16 == p.x) by (nonlinear_arith)
        requires
            i == p.x + p.y * 16 + p.z * 4096,
            0 <= p.x < 16,
            0 <= p.y < 256,
            0 <= p.z < 16,
    ;
    assert(i / 16 == p.y + p.z * 256) by (nonlinear_arith)
        requires
            i == p.x + p.y * 16 + p.z * 4096,
            0 <= p.x < 16,
            0 <= p.y < 256,
            0 <= p.z < 16,
    ;
    assert((p.y + p.z * 256) % 256 == p.y) by (nonlinear_arith)
        requires
            0 <= p.y < 256,
            0 <= p.z < 16,
    ;
    assert(i / 4096 == p.z) by (nonlinear_arith)
        requires
            i == p.x + p.y * 16 + p.z * 4096,
            0 <= p.x < 16,
            0 <= p.y < 256,
            0 <= p.z < 16,
    ;
}

/// `vec3_to_index` undoes `index_to_vec3` on every index of a chunk.
pub proof fn lemma_position_round_trip(i: int)
    requires
        0 <= i < 65536,
    ensures
        in_chunk(position_of(i)),
        linear_index(position_of(i)) == i,
{
    assert(0 <= (i / 16) % 256 < 256);
    assert(0 <= i / 4096 < 16);
    assert(i == i % 16 + ((i / 16) % 256) * 16 + (i / 4096) * 4096) by (nonlinear_arith)
        requires
            0 <= i < 65536,
    ;
}

/// `x.div_euclid(16)` and `x.rem_euclid(16)`.
pub fn div_rem_euclid16(x: i32) -> (r: (i32, i32))
    ensures
        r.0 == x / 16,
        r.1 == x % 16,
        0 <= r.1 < 16,
        x == r.0 * 16 + r.1,
{
    if x >= 0 {
        let q = x / 16;
        (q, x - q * 16)
    } else {
        let n = -(x + 1);
        let q = -(n / 16) - 1;
        let r = x - q * 16;
        assert(0 <= r < 16);
        assert(x == q * 16 + r);
        proof {
            vstd::arithmetic::div_mod::lemma_fundamental_div_mod_converse(x as int, 16, q as int, r as int);
        }
        (q, r)
    }
}

/// Splits a world block position into the chunk that holds it (with `y`
/// set to 0) and the position inside that chunk.
pub fn split_world_pos(pos: IVec3) -> (r: (IVec3, IVec3))
    ensures
        r.0 == (IVec3 { x: (pos.x / 16) as i32, y: 0, z: (pos.z / 16) as i32 }),
        r.1 == (IVec3 { x: (pos.x % 16) as i32, y: pos.y, z: (pos.z % 16) as i32 }),
        0 <= r.1.x < 16,
        0 <= r.1.z < 16,
{
    let (cx, lx) = div_rem_euclid16(pos.x);
    let (cz, lz) = div_rem_euclid16(pos.z);
    (IVec3 { x: cx, y: 0, z: cz }, IVec3 { x: lx, y: pos.y, z: lz })
}

/// A world position is its chunk's origin plus its position inside the chunk.
pub proof fn lemma_split_world_pos(x: int)
    ensures
        x == (x / 16) * 16 + x % 16,
        0 <= x % 16 < 16,
{
}


/// The map key of a position: the three coordinates' bit patterns side by
/// side, `x` highest.
pub open spec fn key_of(p: IVec3) -> u128 {
    ((p.x as u32) as u128) << 64u128 | ((p.y as u32) as u128) << 32u128 | (p.z as u32) as u128
}

/// The position a key stands for.
pub open spec fn pos_of_key(k: u128) -> IVec3 {
    IVec3 { x: ((k >> 64u128) as u32) as i32, y: ((k >> 32u128) as u32) as i32, z: (k as u32) as i32 }
}

/// Decoding a key gives back the position it was made from, so distinct
/// positions have distinct keys.
pub proof fn lemma_key_round_trip(p: IVec3)
    ensures
        pos_of_key(key_of(p)) == p,
{
    let (x, y, z) = (p.x, p.y, p.z);
    assert((((((x as u32) as u128) << 64u128 | ((y as u32) as u128) << 32u128 | (z as u32) as u128)
        >> 64u128) as u32) as i32 == x) by (bit_vector);
    assert((((((x as u32) as u128) << 64u128 | ((y as u32) as u128) << 32u128 | (z as u32) as u128)
        >> 32u128) as u32) as i32 == y) by (bit_vector);
    assert(((((x as u32) as u128) << 64u128 | ((y as u32) as u128) << 32u128 | (z as u32) as u128)
        as u32) as i32 == z) by (bit_vector);
}

/// Distinct positions have distinct keys.
pub proof fn lemma_key_injective(p: IVec3, q: IVec3)
    ensures
        key_of(p) == key_of(q) <==> p == q,
{
    lemma_key_round_trip(p);
    lemma_key_round_trip(q);
}

impl IVec3 {
    /// The map key of this position (see `key_of`).
    pub fn key(self) -> (r: u128)
        ensures
            r == key_of(self),
    {
        ((self.x as u32) as u128) << 64u128 | ((self.y as u32) as u128) << 32u128 | (self.z as u32) as u128
    }

    /// The position a map key stands for (see `pos_of_key`).
    pub fn from_key(k: u128) -> (r: IVec3)
        ensures
            r == pos_of_key(k),
    {
        IVec3 { x: ((k >> 64u128) as u32) as i32, y: ((k >> 32u128) as u32) as i32, z: (k as u32) as i32 }
    }
}

} // verus!
