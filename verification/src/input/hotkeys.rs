//! Hotkeys: a windowing-library-agnostic key set and the pure key → action resolution.
//!
//! `Space` (hold to fast-forward) is deliberately not part of [`resolve_hotkey`]: every
//! key here is a one-shot trigger, while fast-forward is a held state handled by the caller.

use vstd::prelude::*;

verus! {

/// The keys that the hotkey table uses.
#[derive(Debug, Clone, Copy, PartialEq, Eq, Structural, Hash)]
pub enum HotkeyKey {
    F1,
    F2,
    F4,
    F5,
    F6,
    F7,
    F8,
    F11,
    Escape,
    KeyR,
}

/// What the emulator process should do in response to a hotkey.
#[derive(Debug, Clone, Copy, PartialEq, Eq, Structural)]
pub enum HotkeyAction {
    TogglePause,
    /// Reserved quick-save slot (0), separate from the numbered slots 1..=4.
    QuickSave,
    QuickLoad,
    /// `1..=4` — F5 through F8.
    SaveStateSlot(u8),
    LoadStateSlot(u8),
    ToggleFullscreen,
    ExitFullscreenOrLibrary,
    Reset,
}

/// The numbered save-state slot that a function key addresses (F5..F8 → 1..4).
pub open spec fn slot_of_key(key: HotkeyKey) -> Option<u8> {
    match key {
        HotkeyKey::F5 => Some(1u8),
        HotkeyKey::F6 => Some(2u8),
        HotkeyKey::F7 => Some(3u8),
        HotkeyKey::F8 => Some(4u8),
        _ => None,
    }
}

/// The hotkey table: what a key press resolves to, given the resolved modifier state.
pub open spec fn hotkey_action(key: HotkeyKey, shift: bool, primary_modifier: bool) -> Option<HotkeyAction> {
    match key {
        HotkeyKey::F1 => Some(HotkeyAction::TogglePause),
        HotkeyKey::F2 => Some(HotkeyAction::QuickSave),
        HotkeyKey::F4 => Some(HotkeyAction::QuickLoad),
        HotkeyKey::F11 => Some(HotkeyAction::ToggleFullscreen),
        HotkeyKey::Escape => Some(HotkeyAction::ExitFullscreenOrLibrary),
        HotkeyKey::KeyR => if primary_modifier { Some(HotkeyAction::Reset) } else { None },
        _ => {
            let slot = slot_of_key(key).unwrap();
            if shift { Some(HotkeyAction::LoadStateSlot(slot)) } else { Some(HotkeyAction::SaveStateSlot(slot)) }
        },
    }
}

/// Resolves a key press. `shift`/`primary_modifier` are the already-resolved modifier
/// states (Cmd on macOS, Ctrl elsewhere — decided by the caller).
pub fn resolve_hotkey(key: HotkeyKey, shift: bool, primary_modifier: bool) -> (action: Option<HotkeyAction>)
    ensures
        action == hotkey_action(key, shift, primary_modifier),
{
    match key {
        HotkeyKey::F1 => Some(HotkeyAction::TogglePause),
        HotkeyKey::F2 => Some(HotkeyAction::QuickSave),
        HotkeyKey::F4 => Some(HotkeyAction::QuickLoad),
        HotkeyKey::F5 => if shift { Some(HotkeyAction::LoadStateSlot(1)) } else { Some(HotkeyAction::SaveStateSlot(1)) },
        HotkeyKey::F6 => if shift { Some(HotkeyAction::LoadStateSlot(2)) } else { Some(HotkeyAction::SaveStateSlot(2)) },
        HotkeyKey::F7 => if shift { Some(HotkeyAction::LoadStateSlot(3)) } else { Some(HotkeyAction::SaveStateSlot(3)) },
        HotkeyKey::F8 => if shift { Some(HotkeyAction::LoadStateSlot(4)) } else { Some(HotkeyAction::SaveStateSlot(4)) },
        HotkeyKey::F11 => Some(HotkeyAction::ToggleFullscreen),
        HotkeyKey::Escape => Some(HotkeyAction::ExitFullscreenOrLibrary),
        HotkeyKey::KeyR => if primary_modifier { Some(HotkeyAction::Reset) } else { None },
    }
}

/// Shift turns each numbered save key into the load key of the same slot, and every
/// numbered slot lies in `1..=4`.
pub proof fn lemma_shift_swaps_save_for_load(key: HotkeyKey, primary_modifier: bool)
    requires
        slot_of_key(key) is Some,
    ensures
        hotkey_action(key, false, primary_modifier) == Some(HotkeyAction::SaveStateSlot(slot_of_key(key).unwrap())),
        hotkey_action(key, true, primary_modifier) == Some(HotkeyAction::LoadStateSlot(slot_of_key(key).unwrap())),
        1 <= slot_of_key(key).unwrap() <= 4,
{
}

/// Only the reset key depends on the primary modifier, and a bare `R` does nothing.
pub proof fn lemma_only_reset_needs_primary_modifier(key: HotkeyKey, shift: bool)
    ensures
        key != HotkeyKey::KeyR ==> hotkey_action(key, shift, false) == hotkey_action(key, shift, true),
        hotkey_action(HotkeyKey::KeyR, shift, false) is None,
        hotkey_action(HotkeyKey::KeyR, shift, true) == Some(HotkeyAction::Reset),
{
}

} // verus!
