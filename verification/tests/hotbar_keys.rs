use ferriscraft::block::BlockKind;
use ferriscraft::hotbar::{hotbar_key_kind, hotbar_slots, scroll_hotbar};
use ferriscraft::hotbar::hotbar_icon_rect;
use ferriscraft::controls::{press_key, view_fov, GameKey, KeyAction, ViewSettings};

#[test]
fn scrolling_skips_water_and_wraps() {
    assert_eq!(scroll_hotbar(BlockKind::Sand, -1), BlockKind::Bedrock);
    assert_eq!(scroll_hotbar(BlockKind::Bedrock, 1), BlockKind::Sand);
    assert_eq!(scroll_hotbar(BlockKind::Snow, 1), BlockKind::Stone);
    assert_eq!(scroll_hotbar(BlockKind::Stone, -1), BlockKind::Snow);
    assert_eq!(scroll_hotbar(BlockKind::Dirt, 1), BlockKind::Grass);
    assert_eq!(scroll_hotbar(BlockKind::Leaf, -1), BlockKind::Wood);
}

#[test]
fn scrolling_stays_on_the_hotbar() {
    for i in 1..=10u32 {
        let k = BlockKind::from_u32(i);
        if k == BlockKind::Water {
            continue;
        }
        for dir in [-1, 1] {
            let n = scroll_hotbar(k, dir);
            assert!(n != BlockKind::Air && n != BlockKind::Water);
            assert_ne!(n, k);
        }
    }
}

#[test]
fn number_keys() {
    assert_eq!(hotbar_key_kind(1), Some(BlockKind::Stone));
    assert_eq!(hotbar_key_kind(5), Some(BlockKind::Bedrock));
    assert_eq!(hotbar_key_kind(6), Some(BlockKind::Sand));
    assert_eq!(hotbar_key_kind(9), Some(BlockKind::Snow));
    assert_eq!(hotbar_key_kind(0), None);
    assert_eq!(hotbar_key_kind(10), None);
}

#[test]
fn slots() {
    assert_eq!(hotbar_slots(), vec![1, 2, 3, 4, 5, 7, 8, 9, 10]);
}

#[test]
fn icon_rectangles() {
    assert_eq!(hotbar_icon_rect(1), (0, 0, 16, 16));
    assert_eq!(hotbar_icon_rect(10), (0, 144, 16, 160));
}

#[test]
fn game_keys() {
    let s = ViewSettings {
        debug_menus: false,
        hitboxes: false,
        chunk_borders: false,
        wireframe: false,
        fullscreen: false,
        sss: 7,
    };
    let (s1, a) = press_key(s, GameKey::F3);
    assert!(s1.debug_menus && a == KeyAction::Nothing);
    assert_eq!(press_key(s1, GameKey::F3).0, s);
    let (s2, _) = press_key(s, GameKey::F7);
    assert_eq!(s2.sss, 8);
    assert_eq!(press_key(s2, GameKey::F7).0.sss, 0);
    assert!(press_key(s, GameKey::F4).0.hitboxes);
    assert!(press_key(s, GameKey::F6).0.chunk_borders);
    assert!(press_key(s, GameKey::F8).0.wireframe);
    assert!(press_key(s, GameKey::F11).0.fullscreen);
    assert_eq!(press_key(s, GameKey::F1), (s, KeyAction::Save));
    assert_eq!(press_key(s, GameKey::F2), (s, KeyAction::Screenshot));
    assert_eq!(press_key(s, GameKey::Digit(7)), (s, KeyAction::Select(BlockKind::Wood)));
    assert_eq!(press_key(s, GameKey::Digit(0)), (s, KeyAction::Nothing));
    assert_eq!(press_key(s, GameKey::Other), (s, KeyAction::Nothing));
    assert_eq!(view_fov(true, 90), 10);
    assert_eq!(view_fov(false, 90), 90);
}
