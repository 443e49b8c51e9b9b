use nullbyte::emulation::runner::{EmuCommand, InputState};
use nullbyte::input::hotkeys::{HotkeyAction, HotkeyKey};
use nullbyte::input::mapping::{
    default_gamepad_mapping, default_keyboard_mapping, dpad_axis_ids, joypad_bit, GamepadAxis as Axis,
    GamepadButton as Button, KeyboardKey, RETRO_DEVICE_ID_JOYPAD_A, RETRO_DEVICE_ID_JOYPAD_B,
    RETRO_DEVICE_ID_JOYPAD_DOWN, RETRO_DEVICE_ID_JOYPAD_L, RETRO_DEVICE_ID_JOYPAD_LEFT,
    RETRO_DEVICE_ID_JOYPAD_R, RETRO_DEVICE_ID_JOYPAD_R3, RETRO_DEVICE_ID_JOYPAD_RIGHT,
    RETRO_DEVICE_ID_JOYPAD_SELECT, RETRO_DEVICE_ID_JOYPAD_START, RETRO_DEVICE_ID_JOYPAD_UP,
    RETRO_DEVICE_ID_JOYPAD_X, RETRO_DEVICE_ID_JOYPAD_Y,
};
use nullbyte::input::router::{GamepadInput, InputRouter, KeyInput, RouterAction};

#[test]
fn gamepad_face_buttons_respect_snes_layout_swap() {
    assert_eq!(default_gamepad_mapping(Button::South), Some(RETRO_DEVICE_ID_JOYPAD_B));
    assert_eq!(default_gamepad_mapping(Button::East), Some(RETRO_DEVICE_ID_JOYPAD_A));
    assert_eq!(default_gamepad_mapping(Button::West), Some(RETRO_DEVICE_ID_JOYPAD_Y));
    assert_eq!(default_gamepad_mapping(Button::North), Some(RETRO_DEVICE_ID_JOYPAD_X));
}

#[test]
fn gamepad_dpad_and_shoulders_map_directly() {
    assert_eq!(default_gamepad_mapping(Button::DPadUp), Some(RETRO_DEVICE_ID_JOYPAD_UP));
    assert_eq!(default_gamepad_mapping(Button::DPadDown), Some(RETRO_DEVICE_ID_JOYPAD_DOWN));
    assert_eq!(default_gamepad_mapping(Button::DPadLeft), Some(RETRO_DEVICE_ID_JOYPAD_LEFT));
    assert_eq!(default_gamepad_mapping(Button::DPadRight), Some(RETRO_DEVICE_ID_JOYPAD_RIGHT));
    assert_eq!(default_gamepad_mapping(Button::LeftTrigger), Some(RETRO_DEVICE_ID_JOYPAD_L));
    assert_eq!(default_gamepad_mapping(Button::RightTrigger), Some(RETRO_DEVICE_ID_JOYPAD_R));
}

#[test]
fn gamepad_unmapped_buttons_return_none() {
    assert_eq!(default_gamepad_mapping(Button::Mode), None);
    assert_eq!(default_gamepad_mapping(Button::Unknown), None);
    assert_eq!(default_gamepad_mapping(Button::C), None);
    assert_eq!(default_gamepad_mapping(Button::Z), None);
}

#[test]
fn keyboard_face_buttons_match_zxas_convention() {
    assert_eq!(default_keyboard_mapping(KeyboardKey::KeyZ), Some(RETRO_DEVICE_ID_JOYPAD_B));
    assert_eq!(default_keyboard_mapping(KeyboardKey::KeyX), Some(RETRO_DEVICE_ID_JOYPAD_A));
    assert_eq!(default_keyboard_mapping(KeyboardKey::KeyA), Some(RETRO_DEVICE_ID_JOYPAD_Y));
    assert_eq!(default_keyboard_mapping(KeyboardKey::KeyS), Some(RETRO_DEVICE_ID_JOYPAD_X));
}

#[test]
fn keyboard_arrows_and_menu_keys_map_directly() {
    assert_eq!(default_keyboard_mapping(KeyboardKey::ArrowUp), Some(RETRO_DEVICE_ID_JOYPAD_UP));
    assert_eq!(default_keyboard_mapping(KeyboardKey::ArrowDown), Some(RETRO_DEVICE_ID_JOYPAD_DOWN));
    assert_eq!(default_keyboard_mapping(KeyboardKey::ArrowLeft), Some(RETRO_DEVICE_ID_JOYPAD_LEFT));
    assert_eq!(default_keyboard_mapping(KeyboardKey::ArrowRight), Some(RETRO_DEVICE_ID_JOYPAD_RIGHT));
    assert_eq!(default_keyboard_mapping(KeyboardKey::Enter), Some(RETRO_DEVICE_ID_JOYPAD_START));
    assert_eq!(default_keyboard_mapping(KeyboardKey::ShiftRight), Some(RETRO_DEVICE_ID_JOYPAD_SELECT));
}

#[test]
fn joypad_bit_matches_documented_bit_position() {
    assert_eq!(joypad_bit(RETRO_DEVICE_ID_JOYPAD_B), 0b1);
    assert_eq!(joypad_bit(RETRO_DEVICE_ID_JOYPAD_Y), 0b10);
    assert_eq!(joypad_bit(RETRO_DEVICE_ID_JOYPAD_R3), 1u16 << 15);
}

#[test]
fn dpad_axis_ids_match_empirically_observed_sign_convention() {
    assert_eq!(dpad_axis_ids(Axis::DPadX), Some((RETRO_DEVICE_ID_JOYPAD_RIGHT, RETRO_DEVICE_ID_JOYPAD_LEFT)));
    assert_eq!(dpad_axis_ids(Axis::DPadY), Some((RETRO_DEVICE_ID_JOYPAD_UP, RETRO_DEVICE_ID_JOYPAD_DOWN)));
}

#[test]
fn non_dpad_axes_are_not_mapped() {
    assert_eq!(dpad_axis_ids(Axis::LeftStickX), None);
    assert_eq!(dpad_axis_ids(Axis::RightStickY), None);
}

fn key(k: KeyboardKey, pressed: bool) -> KeyInput {
    KeyInput {
        fast_forward_key: false,
        hotkey: None,
        key: Some(k),
        pressed,
        repeat: false,
        shift: false,
        primary_modifier: false,
    }
}

fn sent_input(a: RouterAction) -> InputState {
    match a {
        RouterAction::Command(EmuCommand::SetInput(s)) => s,
        other => panic!("expected SetInput, got {other:?}"),
    }
}

#[test]
fn keyboard_press_and_release_drive_port_zero() {
    let mut r = InputRouter::new();
    let s = sent_input(r.handle_keyboard(key(KeyboardKey::KeyZ, true)));
    assert_eq!(s, InputState { port: 0, buttons: 0b1 });
    let s = sent_input(r.handle_keyboard(key(KeyboardKey::ArrowUp, true)));
    assert_eq!(s.buttons, 0b1 | 1 << 4);
    let s = sent_input(r.handle_keyboard(key(KeyboardKey::KeyZ, false)));
    assert_eq!(s.buttons, 1 << 4);
}

#[test]
fn releasing_on_one_source_keeps_the_button_held_on_the_other() {
    let mut r = InputRouter::new();
    assert_eq!(r.handle_gamepad_event(GamepadInput::Connected { id: 7 }), None);
    assert_eq!(
        r.handle_gamepad_event(GamepadInput::Button { id: 7, button: Button::DPadUp, pressed: true }),
        Some(0)
    );
    let _ = r.handle_keyboard(key(KeyboardKey::ArrowUp, true));
    assert_eq!(
        r.handle_gamepad_event(GamepadInput::Button { id: 7, button: Button::DPadUp, pressed: false }),
        Some(0)
    );
    assert_eq!(r.port_input(0).buttons, 1 << 4, "the keyboard still holds UP");
}

#[test]
fn gamepads_take_ports_in_connection_order_and_free_them() {
    let mut r = InputRouter::new();
    for id in [10usize, 11, 12, 13, 14] {
        let _ = r.handle_gamepad_event(GamepadInput::Connected { id });
    }
    assert_eq!(r.find_port(10), Some(0));
    assert_eq!(r.find_port(13), Some(3));
    assert_eq!(r.find_port(14), None, "a fifth gamepad gets no port");
    assert_eq!(
        r.handle_gamepad_event(GamepadInput::Button { id: 12, button: Button::South, pressed: true }),
        Some(2)
    );
    assert_eq!(r.port_input(2).buttons, 0b1);
    assert_eq!(r.handle_gamepad_event(GamepadInput::Disconnected { id: 12 }), Some(2));
    assert_eq!(r.port_input(2).buttons, 0, "a freed port releases its buttons");
    let _ = r.handle_gamepad_event(GamepadInput::Connected { id: 14 });
    assert_eq!(r.find_port(14), Some(2));
    assert_eq!(r.assign_gamepad_port(10), Some(0), "a known gamepad keeps its port");
}

#[test]
fn hotkeys_win_over_game_keys_and_repeats_are_ignored() {
    let mut r = InputRouter::new();
    let f1 = KeyInput {
        fast_forward_key: false,
        hotkey: Some(HotkeyKey::F1),
        key: None,
        pressed: true,
        repeat: false,
        shift: false,
        primary_modifier: false,
    };
    assert!(matches!(r.handle_keyboard(f1), RouterAction::Command(EmuCommand::Pause)));
    assert!(matches!(r.handle_keyboard(KeyInput { repeat: true, ..f1 }), RouterAction::Nothing));
    assert!(matches!(r.handle_keyboard(f1), RouterAction::Command(EmuCommand::Resume)));
    let space = KeyInput { fast_forward_key: true, hotkey: None, key: None, ..f1 };
    assert!(matches!(r.handle_keyboard(space), RouterAction::Command(EmuCommand::SetFastForward(true))));
    let bare_r = KeyInput { hotkey: Some(HotkeyKey::KeyR), ..f1 };
    assert!(matches!(r.handle_keyboard(bare_r), RouterAction::Nothing));
    assert!(matches!(
        r.handle_hotkey_action(HotkeyAction::LoadStateSlot(3)),
        RouterAction::Command(EmuCommand::LoadState(3))
    ));
    assert!(matches!(r.handle_hotkey_action(HotkeyAction::ToggleFullscreen), RouterAction::ToggleFullscreen));
}

#[test]
fn a_connecting_gamepad_takes_the_lowest_free_port() {
    let mut r = InputRouter::new();
    for id in [1, 2, 3] {
        let _ = r.handle_gamepad_event(GamepadInput::Connected { id });
    }
    let _ = r.handle_gamepad_event(GamepadInput::Disconnected { id: 1 });
    let _ = r.handle_gamepad_event(GamepadInput::Connected { id: 9 });
    assert_eq!(r.port_owner, [Some(9), Some(2), Some(3), None]);
    let _ = r.handle_gamepad_event(GamepadInput::Connected { id: 4 });
    let _ = r.handle_gamepad_event(GamepadInput::Connected { id: 5 });
    assert_eq!(r.port_owner, [Some(9), Some(2), Some(3), Some(4)]);
}
