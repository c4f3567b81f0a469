//! The hotbar: which kinds it offers and how the selection moves.

use vstd::prelude::*;
use crate::block::{BlockKind, kind_at, kind_index};

verus! {

/// The kind selected after scrolling one step in direction `dir` from
/// `current`: the next position of the kind list, skipping water, wrapping
/// from below 1 to 10 and from above 10 to 1.
pub open spec fn scrolled(current: BlockKind, dir: int) -> BlockKind {
    let next0 = kind_index(current) + dir;
    let next1 = if next0 == 6 { next0 + dir } else { next0 };
    let next2 = if next1 < 1 { 10 } else if next1 > 10 { 1 } else { next1 };
    kind_at(next2)
}

/// Moves the hotbar selection one step (see `scrolled`); `dir` is the sign
/// of the scroll.
pub fn scroll_hotbar(current: BlockKind, dir: i32) -> (r: BlockKind)
    ensures
        r == scrolled(current, dir as int),
{
    let mut next = current.index() as i64 + dir as i64;
    if next == 6 {
        next = next + dir as i64;
    }
    if next < 1 {
        next = 10;
    } else if next > 10 {
        next = 1;
    }
    BlockKind::from_u32(next as u32)
}

/// A kind the hotbar offers: anything but air and water.
pub open spec fn on_hotbar(k: BlockKind) -> bool {
    k != BlockKind::Air && k != BlockKind::Water
}

/// Scrolling one step from a kind on the hotbar always selects a kind on
/// the hotbar, never air or water.
pub proof fn lemma_scroll_stays_on_hotbar(current: BlockKind, dir: int)
    requires
        on_hotbar(current),
        dir == 1 || dir == -1,
    ensures
        on_hotbar(scrolled(current, dir)),
        scrolled(current, dir) != current,
{
}

/// The kind number key `digit` selects: 1 stone, 2 dirt, 3 grass, 4 plank,
/// 5 bedrock, 6 sand, 7 wood, 8 leaf, 9 snow.
pub open spec fn key_kind(digit: int) -> Option<BlockKind> {
    if digit == 1 {
        Some(BlockKind::Stone)
    } else if digit == 2 {
        Some(BlockKind::Dirt)
    } else if digit == 3 {
        Some(BlockKind::Grass)
    } else if digit == 4 {
        Some(BlockKind::Plank)
    } else if digit == 5 {
        Some(BlockKind::Bedrock)
    } else if digit == 6 {
        Some(BlockKind::Sand)
    } else if digit == 7 {
        Some(BlockKind::Wood)
    } else if digit == 8 {
        Some(BlockKind::Leaf)
    } else if digit == 9 {
        Some(BlockKind::Snow)
    } else {
        None
    }
}

/// The kind a number key selects (see `key_kind`).
pub fn hotbar_key_kind(digit: u32) -> (r: Option<BlockKind>)
    ensures
        r == key_kind(digit as int),
{
    match digit {
        1 => Some(BlockKind::Stone),
        2 => Some(BlockKind::Dirt),
        3 => Some(BlockKind::Grass),
        4 => Some(BlockKind::Plank),
        5 => Some(BlockKind::Bedrock),
        6 => Some(BlockKind::Sand),
        7 => Some(BlockKind::Wood),
        8 => Some(BlockKind::Leaf),
        9 => Some(BlockKind::Snow),
        _ => None,
    }
}

/// Every kind a number key selects is on the hotbar.
pub proof fn lemma_keys_select_hotbar_kinds(digit: int)
    ensures
        key_kind(digit) matches Some(k) ==> on_hotbar(k),
{
}

/// The kind numbers shown on the hotbar, left to right: 1 to 10 without
/// water (6).
pub fn hotbar_slots() -> (r: Vec<u8>)
    ensures
        r@ == seq![1u8, 2u8, 3u8, 4u8, 5u8, 7u8, 8u8, 9u8, 10u8],
        forall|i: int| 0 <= i < r@.len() ==> on_hotbar(#[trigger] kind_at(r@[i] as int)),
{
    let ghost slots = seq![1u8, 2u8, 3u8, 4u8, 5u8, 7u8, 8u8, 9u8, 10u8];
    let mut r: Vec<u8> = Vec::new();
    let mut i: u8 = 1;
    while i <= 10
        invariant
            1 <= i <= 11,
            slots == seq![1u8, 2u8, 3u8, 4u8, 5u8, 7u8, 8u8, 9u8, 10u8],
            r@ == slots.take(if i <= 6 { i - 1 } else { i - 2 }),
        decreases 11 - i,
    {
        let ghost n: int = if i <= 6 { i - 1 } else { i - 2 };
        if i != 6 {
            assert(slots[n] == i);
            assert(slots.take(n + 1) =~= slots.take(n).push(i));
            r.push(i);
        } else {
            assert(n == 5);
        }
        i = i + 1;
    }
    assert(slots.take(9) =~= slots);
    r
}


/// The pixel rectangle of the block atlas image that the hotbar slot of
/// kind number `idx` shows, as `(left, top, right, bottom)`: the 16 x 16
/// square of the atlas's first column in row `idx - 1`.
pub fn hotbar_icon_rect(idx: u8) -> (r: (u32, u32, u32, u32))
    requires
        1 <= idx,
    ensures
        r == (0u32, (16 * (idx - 1)) as u32, 16u32, (16 * idx) as u32),
{
    (0, 16 * (idx as u32 - 1), 16, 16 * idx as u32)
}


/// Which kinds are solid: exactly the kinds a player can hold on the hotbar,
/// that is every kind but the first (air) and the seventh (water) of the
/// kind list.
pub proof fn lemma_solid_kinds(k: BlockKind)
    ensures
        crate::block::spec_is_solid(k) <==> on_hotbar(k),
        crate::block::spec_is_solid(k) <==> (kind_index(k) != 0 && kind_index(k) != 6),
{
}

/// The number keys pick the hotbar's kinds in order: keys 1 to 9 each give a
/// kind the hotbar offers, a higher key a kind further down the kind list,
/// so that the nine keys give the nine hotbar kinds from first to last; any
/// other key gives nothing.
pub proof fn lemma_number_keys_in_hotbar_order(d: int, e: int)
    ensures
        1 <= d <= 9 ==> key_kind(d) is Some && on_hotbar(key_kind(d)->0),
        1 <= d < e <= 9 ==> kind_index(key_kind(d)->0) < kind_index(key_kind(e)->0),
        !(1 <= d <= 9) ==> key_kind(d) is None,
{
}

} // verus!
