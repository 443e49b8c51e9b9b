use nullbyte::input::hotkeys::{resolve_hotkey, HotkeyAction, HotkeyKey};

#[test]
fn plain_function_keys_resolve_to_documented_actions() {
    assert_eq!(resolve_hotkey(HotkeyKey::F1, false, false), Some(HotkeyAction::TogglePause));
    assert_eq!(resolve_hotkey(HotkeyKey::F2, false, false), Some(HotkeyAction::QuickSave));
    assert_eq!(resolve_hotkey(HotkeyKey::F4, false, false), Some(HotkeyAction::QuickLoad));
    assert_eq!(resolve_hotkey(HotkeyKey::F11, false, false), Some(HotkeyAction::ToggleFullscreen));
    assert_eq!(
        resolve_hotkey(HotkeyKey::Escape, false, false),
        Some(HotkeyAction::ExitFullscreenOrLibrary)
    );
}

#[test]
fn f5_through_f8_save_without_shift_load_with_shift() {
    assert_eq!(resolve_hotkey(HotkeyKey::F5, false, false), Some(HotkeyAction::SaveStateSlot(1)));
    assert_eq!(resolve_hotkey(HotkeyKey::F5, true, false), Some(HotkeyAction::LoadStateSlot(1)));
    assert_eq!(resolve_hotkey(HotkeyKey::F6, false, false), Some(HotkeyAction::SaveStateSlot(2)));
    assert_eq!(resolve_hotkey(HotkeyKey::F6, true, false), Some(HotkeyAction::LoadStateSlot(2)));
    assert_eq!(resolve_hotkey(HotkeyKey::F7, false, false), Some(HotkeyAction::SaveStateSlot(3)));
    assert_eq!(resolve_hotkey(HotkeyKey::F7, true, false), Some(HotkeyAction::LoadStateSlot(3)));
    assert_eq!(resolve_hotkey(HotkeyKey::F8, false, false), Some(HotkeyAction::SaveStateSlot(4)));
    assert_eq!(resolve_hotkey(HotkeyKey::F8, true, false), Some(HotkeyAction::LoadStateSlot(4)));
}

#[test]
fn reset_requires_primary_modifier_not_bare_r() {
    assert_eq!(resolve_hotkey(HotkeyKey::KeyR, false, false), None);
    assert_eq!(resolve_hotkey(HotkeyKey::KeyR, false, true), Some(HotkeyAction::Reset));
    assert_eq!(resolve_hotkey(HotkeyKey::KeyR, true, false), None);
}

#[test]
fn modifiers_do_not_change_non_slot_keys() {
    assert_eq!(resolve_hotkey(HotkeyKey::F1, true, true), Some(HotkeyAction::TogglePause));
    assert_eq!(resolve_hotkey(HotkeyKey::F5, true, true), Some(HotkeyAction::LoadStateSlot(1)));
}
