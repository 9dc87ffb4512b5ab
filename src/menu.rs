//! Menu navigation: the main menu and the settings menu as functions from
//! the keys pressed in a frame to the next menu state.

use vstd::prelude::*;
use crate::mode::{mode_at, mode_index, GameMode, Settings};

verus! {

/// Entries of the main menu: start, mode, settings, quit.
pub const MAIN_MENU_ITEMS: usize = 4;

/// Entries of the settings menu: audio, volume, shake, vignette, fullscreen, back.
pub const SETTINGS_MENU_ITEMS: usize = 6;

/// Step of the volume and vignette settings, in percent.
pub const PERCENT_STEP: u64 = 10;

/// Keys pressed during one frame.
#[derive(Clone, Copy, Debug, PartialEq, Eq, Structural)]
pub struct MenuKeys {
    pub up: bool,
    pub down: bool,
    pub left: bool,
    pub right: bool,
    pub enter: bool,
    pub escape: bool,
    pub f11: bool,
}

#[derive(Clone, Copy, Debug, PartialEq, Eq, Structural)]
pub enum MainMenuAction {
    Start,
    Settings,
    Quit,
}

/// Selection after the up and down keys in a menu of `count` entries.
pub open spec fn move_selection(sel: int, count: int, keys: MenuKeys) -> int {
    let s1 = if keys.up {
        if sel == 0 { count - 1 } else { sel - 1 }
    } else {
        sel
    };
    if keys.down { (s1 + 1) % count } else { s1 }
}

fn moved_selection(sel: usize, count: usize, keys: MenuKeys) -> (r: usize)
    requires
        sel < count,
    ensures
        r == move_selection(sel as int, count as int, keys),
        r < count,
{
    let mut s = sel;
    if keys.up {
        if s == 0 {
            s = count - 1;
        } else {
            s = s - 1;
        }
    }
    if keys.down {
        s = (s + 1) % count;
    }
    s
}

/// The mode after left and right on the mode entry.
pub open spec fn main_menu_mode(sel: int, mode: GameMode, keys: MenuKeys) -> GameMode {
    let m1 = if keys.left && sel == 1 { mode_at(mode_index(mode) + 2) } else { mode };
    if keys.right && sel == 1 { mode_at(mode_index(m1) + 1) } else { m1 }
}

/// The action chosen by enter on an entry.
pub open spec fn main_menu_action(sel: int, keys: MenuKeys) -> Option<MainMenuAction> {
    if !keys.enter {
        None
    } else if sel == 0 {
        Some(MainMenuAction::Start)
    } else if sel == 2 {
        Some(MainMenuAction::Settings)
    } else if sel == 3 {
        Some(MainMenuAction::Quit)
    } else {
        None
    }
}

/// One frame of the main menu: moves the selection, cycles the mode on the
/// mode entry, and returns the action that enter chose.
pub fn update_main_menu(selected: &mut usize, mode: &mut GameMode, keys: MenuKeys) -> (r: Option<
    MainMenuAction,
>)
    requires
        *old(selected) < MAIN_MENU_ITEMS,
    ensures
        *final(selected) == move_selection(*old(selected) as int, MAIN_MENU_ITEMS as int, keys),
        *final(selected) < MAIN_MENU_ITEMS,
        *final(mode) == main_menu_mode(*final(selected) as int, *old(mode), keys),
        r == main_menu_action(*final(selected) as int, keys),
{
    *selected = moved_selection(*selected, MAIN_MENU_ITEMS, keys);
    if keys.left && *selected == 1 {
        let idx = (mode.index() + 2) % 3;
        *mode = GameMode::from_index(idx);
    }
    if keys.right && *selected == 1 {
        let idx = (mode.index() + 1) % 3;
        *mode = GameMode::from_index(idx);
    }
    if keys.enter {
        match *selected {
            0 => Some(MainMenuAction::Start),
            2 => Some(MainMenuAction::Settings),
            3 => Some(MainMenuAction::Quit),
            _ => None,
        }
    } else {
        None
    }
}

pub open spec fn percent_down(v: int) -> int {
    if v < PERCENT_STEP { 0 } else if v - PERCENT_STEP > 100 { 100 } else { v - PERCENT_STEP }
}

pub open spec fn percent_up(v: int) -> int {
    if v + PERCENT_STEP > 100 { 100 } else { v + PERCENT_STEP }
}

/// The settings after left (`up == false`) or right (`up == true`) on entry `sel`.
pub open spec fn adjust_setting(s: Settings, sel: int, up: bool) -> Settings {
    if sel == 0 {
        Settings { audio_enabled: !s.audio_enabled, ..s }
    } else if sel == 1 {
        Settings {
            master_volume: (if up { percent_up(s.master_volume as int) } else { percent_down(s.master_volume as int) }) as u64,
            ..s
        }
    } else if sel == 2 {
        Settings { shake_enabled: !s.shake_enabled, ..s }
    } else if sel == 3 {
        Settings {
            vignette: (if up { percent_up(s.vignette as int) } else { percent_down(s.vignette as int) }) as u64,
            ..s
        }
    } else if sel == 4 {
        Settings { fullscreen: !s.fullscreen, ..s }
    } else {
        s
    }
}

/// The settings after one frame of the settings menu with entry `sel` selected.
pub open spec fn settings_after(s: Settings, sel: int, keys: MenuKeys) -> Settings {
    let s1 = if keys.left { adjust_setting(s, sel, false) } else { s };
    let s2 = if keys.right { adjust_setting(s1, sel, true) } else { s1 };
    if keys.f11 { Settings { fullscreen: !s2.fullscreen, ..s2 } } else { s2 }
}

fn adjusted(s: Settings, sel: usize, up: bool) -> (r: Settings)
    ensures
        r == adjust_setting(s, sel as int, up),
{
    let mut t = s;
    match sel {
        0 => t.audio_enabled = !t.audio_enabled,
        1 => t.master_volume = step_percent(t.master_volume, up),
        2 => t.shake_enabled = !t.shake_enabled,
        3 => t.vignette = step_percent(t.vignette, up),
        4 => t.fullscreen = !t.fullscreen,
        _ => {},
    }
    t
}

fn step_percent(v: u64, up: bool) -> (r: u64)
    ensures
        r == (if up { percent_up(v as int) } else { percent_down(v as int) }),
{
    if up {
        if v > 100 - PERCENT_STEP { 100 } else { v + PERCENT_STEP }
    } else if v < PERCENT_STEP {
        0
    } else if v - PERCENT_STEP > 100 {
        100
    } else {
        v - PERCENT_STEP
    }
}

/// One frame of the settings menu: moves the selection, changes the selected
/// setting with left and right, toggles fullscreen with F11; returns whether
/// the menu closes (escape, or enter on the back entry).
pub fn update_settings_menu(selected: &mut usize, s: &mut Settings, keys: MenuKeys) -> (r: bool)
    requires
        *old(selected) < SETTINGS_MENU_ITEMS,
    ensures
        *final(selected) == move_selection(*old(selected) as int, SETTINGS_MENU_ITEMS as int, keys),
        *final(selected) < SETTINGS_MENU_ITEMS,
        r == ((keys.enter && *final(selected) == 5) || keys.escape),
        !r ==> *final(s) == settings_after(*old(s), *final(selected) as int, keys),
        r ==> *final(s) == settings_after(*old(s), *final(selected) as int, MenuKeys { f11: false, ..keys }),
{
    *selected = moved_selection(*selected, SETTINGS_MENU_ITEMS, keys);
    if keys.left {
        *s = adjusted(*s, *selected, false);
    }
    if keys.right {
        *s = adjusted(*s, *selected, true);
    }
    if keys.enter && *selected == 5 {
        return true;
    }
    if keys.escape {
        return true;
    }
    if keys.f11 {
        s.fullscreen = !s.fullscreen;
    }
    false
}

} // verus!
