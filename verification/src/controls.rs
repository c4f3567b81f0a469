//! What the keys do while playing: saving, screenshots, the debug views and
//! picking the block in hand.

use vstd::prelude::*;
use crate::block::BlockKind;
use crate::hotbar::{hotbar_key_kind, key_kind};

verus! {

/// A key pressed while playing.
#[derive(Clone, Copy, PartialEq, Eq, Debug, Structural)]
pub enum GameKey {
    F1,
    F2,
    F3,
    F4,
    F6,
    F7,
    F8,
    F11,
    /// A number key, `0` to `9`.
    Digit(u32),
    Other,
}

/// The display settings the keys switch.
#[derive(Clone, Copy, PartialEq, Eq, Debug, Structural)]
pub struct ViewSettings {
    pub debug_menus: bool,
    pub hitboxes: bool,
    pub chunk_borders: bool,
    pub wireframe: bool,
    pub fullscreen: bool,
    /// Screen-space shadow samples, cycled from 0 to 8.
    pub sss: u32,
}

/// What a key asks for besides a change of the display settings.
#[derive(Clone, Copy, PartialEq, Eq, Debug, Structural)]
pub enum KeyAction {
    Nothing,
    /// Save the world.
    Save,
    /// Take a screenshot.
    Screenshot,
    /// Put a block of this kind in hand.
    Select(BlockKind),
}

/// The next number of shadow samples: one more, back to 0 after 8.
pub open spec fn next_sss(sss: int) -> int {
    if sss + 1 > 8 {
        0
    } else {
        sss + 1
    }
}

/// The settings after `key` is pressed: F3 switches the debug menus, F4 the
/// hitboxes, F6 the chunk borders, F7 cycles the shadow samples, F8 switches
/// the wireframe and F11 full screen.
pub open spec fn settings_after(s: ViewSettings, key: GameKey) -> ViewSettings {
    match key {
        GameKey::F3 => ViewSettings { debug_menus: !s.debug_menus, hitboxes: s.hitboxes, chunk_borders: s.chunk_borders, wireframe: s.wireframe, fullscreen: s.fullscreen, sss: s.sss },
        GameKey::F4 => ViewSettings { debug_menus: s.debug_menus, hitboxes: !s.hitboxes, chunk_borders: s.chunk_borders, wireframe: s.wireframe, fullscreen: s.fullscreen, sss: s.sss },
        GameKey::F6 => ViewSettings { debug_menus: s.debug_menus, hitboxes: s.hitboxes, chunk_borders: !s.chunk_borders, wireframe: s.wireframe, fullscreen: s.fullscreen, sss: s.sss },
        GameKey::F7 => ViewSettings { debug_menus: s.debug_menus, hitboxes: s.hitboxes, chunk_borders: s.chunk_borders, wireframe: s.wireframe, fullscreen: s.fullscreen, sss: next_sss(s.sss as int) as u32 },
        GameKey::F8 => ViewSettings { debug_menus: s.debug_menus, hitboxes: s.hitboxes, chunk_borders: s.chunk_borders, wireframe: !s.wireframe, fullscreen: s.fullscreen, sss: s.sss },
        GameKey::F11 => ViewSettings { debug_menus: s.debug_menus, hitboxes: s.hitboxes, chunk_borders: s.chunk_borders, wireframe: s.wireframe, fullscreen: !s.fullscreen, sss: s.sss },
        _ => s,
    }
}

/// What else `key` asks for: F1 saves, F2 takes a screenshot, a number key
/// from 1 to 9 puts its hotbar kind in hand (see `key_kind`).
pub open spec fn action_of(key: GameKey) -> KeyAction {
    match key {
        GameKey::F1 => KeyAction::Save,
        GameKey::F2 => KeyAction::Screenshot,
        GameKey::Digit(d) => match key_kind(d as int) {
            Some(k) => KeyAction::Select(k),
            None => KeyAction::Nothing,
        },
        _ => KeyAction::Nothing,
    }
}

/// Handles one key press: the new display settings and what else to do.
pub fn press_key(settings: ViewSettings, key: GameKey) -> (r: (ViewSettings, KeyAction))
    requires
        settings.sss < u32::MAX,
    ensures
        r.0 == settings_after(settings, key),
        r.1 == action_of(key),
{
    let mut s = settings;
    let mut action = KeyAction::Nothing;
    match key {
        GameKey::F1 => {
            action = KeyAction::Save;
        },
        GameKey::F2 => {
            action = KeyAction::Screenshot;
        },
        GameKey::F3 => {
            s.debug_menus = !s.debug_menus;
        },
        GameKey::F4 => {
            s.hitboxes = !s.hitboxes;
        },
        GameKey::F6 => {
            s.chunk_borders = !s.chunk_borders;
        },
        GameKey::F7 => {
            s.sss = s.sss + 1;
            if s.sss > 8 {
                s.sss = 0;
            }
        },
        GameKey::F8 => {
            s.wireframe = !s.wireframe;
        },
        GameKey::F11 => {
            s.fullscreen = !s.fullscreen;
        },
        GameKey::Digit(d) => {
            if let Some(k) = hotbar_key_kind(d) {
                action = KeyAction::Select(k);
            }
        },
        GameKey::Other => {},
    }
    (s, action)
}

/// The field of view, in degrees: 10 while the zoom key is held, the
/// setting otherwise.
pub fn view_fov(zoom_held: bool, fov: u32) -> (r: u32)
    ensures
        r == (if zoom_held {
            10
        } else {
            fov
        }),
{
    if zoom_held {
        10
    } else {
        fov
    }
}

/// Whatever key is pressed, the shadow samples stay between 0 and 8, and
/// pressing a switch key twice gives the settings back.
pub proof fn lemma_keys_keep_settings(s: ViewSettings, key: GameKey)
    requires
        s.sss <= 8,
    ensures
        settings_after(s, key).sss <= 8,
        key != GameKey::F7 ==> settings_after(settings_after(s, key), key) == s,
{
}

} // verus!
