use feedback_rush::menu::{update_main_menu, update_settings_menu, MainMenuAction, MenuKeys};
use feedback_rush::mode::{GameMode, Settings};
use feedback_rush::wav::wav_bytes;

fn keys() -> MenuKeys {
    MenuKeys { up: false, down: false, left: false, right: false, enter: false, escape: false, f11: false }
}

#[test]
fn main_menu_navigation_and_actions() {
    let mut sel: usize = 0;
    let mut mode = GameMode::Classic;
    assert_eq!(update_main_menu(&mut sel, &mut mode, MenuKeys { up: true, ..keys() }), None);
    assert_eq!(sel, 3);
    assert_eq!(update_main_menu(&mut sel, &mut mode, MenuKeys { enter: true, ..keys() }), Some(MainMenuAction::Quit));
    assert_eq!(update_main_menu(&mut sel, &mut mode, MenuKeys { down: true, ..keys() }), None);
    assert_eq!(sel, 0);
    assert_eq!(update_main_menu(&mut sel, &mut mode, MenuKeys { enter: true, ..keys() }), Some(MainMenuAction::Start));
    update_main_menu(&mut sel, &mut mode, MenuKeys { down: true, ..keys() });
    assert_eq!(sel, 1);
    update_main_menu(&mut sel, &mut mode, MenuKeys { left: true, ..keys() });
    assert_eq!(mode, GameMode::Nightmare);
    update_main_menu(&mut sel, &mut mode, MenuKeys { right: true, ..keys() });
    update_main_menu(&mut sel, &mut mode, MenuKeys { right: true, ..keys() });
    assert_eq!(mode, GameMode::TimeAttack);
    assert_eq!(update_main_menu(&mut sel, &mut mode, MenuKeys { enter: true, ..keys() }), None);
    update_main_menu(&mut sel, &mut mode, MenuKeys { down: true, ..keys() });
    assert_eq!(update_main_menu(&mut sel, &mut mode, MenuKeys { enter: true, ..keys() }), Some(MainMenuAction::Settings));
}

#[test]
fn settings_menu_changes_values() {
    let mut sel: usize = 1;
    let mut s = Settings::default();
    assert!(!update_settings_menu(&mut sel, &mut s, MenuKeys { right: true, ..keys() }));
    assert_eq!(s.master_volume, 70);
    for _ in 0..10 {
        update_settings_menu(&mut sel, &mut s, MenuKeys { right: true, ..keys() });
    }
    assert_eq!(s.master_volume, 100);
    for _ in 0..12 {
        update_settings_menu(&mut sel, &mut s, MenuKeys { left: true, ..keys() });
    }
    assert_eq!(s.master_volume, 0);
    sel = 0;
    update_settings_menu(&mut sel, &mut s, MenuKeys { left: true, ..keys() });
    assert!(!s.audio_enabled);
    update_settings_menu(&mut sel, &mut s, MenuKeys { f11: true, ..keys() });
    assert!(s.fullscreen);
    assert!(!update_settings_menu(&mut sel, &mut s, MenuKeys { up: true, ..keys() }));
    assert_eq!(sel, 5);
    assert!(update_settings_menu(&mut sel, &mut s, MenuKeys { enter: true, ..keys() }));
    assert!(update_settings_menu(&mut sel, &mut s, MenuKeys { escape: true, ..keys() }));
}

#[test]
fn wav_framing() {
    let bytes = wav_bytes(&vec![1i16, -1], 44100);
    assert_eq!(bytes.len(), 48);
    assert_eq!(&bytes[0..4], b"RIFF");
    assert_eq!(&bytes[4..8], &40u32.to_le_bytes());
    assert_eq!(&bytes[8..16], b"WAVEfmt ");
    assert_eq!(&bytes[24..28], &44100u32.to_le_bytes());
    assert_eq!(&bytes[28..32], &88200u32.to_le_bytes());
    assert_eq!(&bytes[36..40], b"data");
    assert_eq!(&bytes[40..44], &4u32.to_le_bytes());
    assert_eq!(&bytes[44..48], &[1u8, 0, 0xff, 0xff]);
    assert_eq!(wav_bytes(&Vec::new(), 8000).len(), 44);
}
