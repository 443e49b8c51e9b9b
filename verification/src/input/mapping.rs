//! Physical button or key → `RETRO_DEVICE_ID_JOYPAD_*` mapping.
//!
//! One table serves every gamepad: buttons are named by physical position (`South`,
//! `East`, …), so the standard controller's bottom face button maps to the SNES-layout
//! `B`, its right one to `A` — the RetroPad default layout. The keyboard uses arrows,
//! `Z`/`X`/`A`/`S` and Enter/right Shift.

use vstd::prelude::*;
use vstd::arithmetic::power2::pow2;

verus! {

pub const RETRO_DEVICE_ID_JOYPAD_B: u32 = 0;
pub const RETRO_DEVICE_ID_JOYPAD_Y: u32 = 1;
pub const RETRO_DEVICE_ID_JOYPAD_SELECT: u32 = 2;
pub const RETRO_DEVICE_ID_JOYPAD_START: u32 = 3;
pub const RETRO_DEVICE_ID_JOYPAD_UP: u32 = 4;
pub const RETRO_DEVICE_ID_JOYPAD_DOWN: u32 = 5;
pub const RETRO_DEVICE_ID_JOYPAD_LEFT: u32 = 6;
pub const RETRO_DEVICE_ID_JOYPAD_RIGHT: u32 = 7;
pub const RETRO_DEVICE_ID_JOYPAD_A: u32 = 8;
pub const RETRO_DEVICE_ID_JOYPAD_X: u32 = 9;
pub const RETRO_DEVICE_ID_JOYPAD_L: u32 = 10;
pub const RETRO_DEVICE_ID_JOYPAD_R: u32 = 11;
pub const RETRO_DEVICE_ID_JOYPAD_L2: u32 = 12;
pub const RETRO_DEVICE_ID_JOYPAD_R2: u32 = 13;
pub const RETRO_DEVICE_ID_JOYPAD_L3: u32 = 14;
pub const RETRO_DEVICE_ID_JOYPAD_R3: u32 = 15;

/// A gamepad button by physical position (the button set of `gilrs::Button`).
#[derive(Debug, Clone, Copy, PartialEq, Eq, Structural, Hash)]
pub enum GamepadButton {
    South,
    East,
    North,
    West,
    C,
    Z,
    LeftTrigger,
    LeftTrigger2,
    RightTrigger,
    RightTrigger2,
    Select,
    Start,
    Mode,
    LeftThumb,
    RightThumb,
    DPadUp,
    DPadDown,
    DPadLeft,
    DPadRight,
    Unknown,
}

/// A gamepad axis (the axis set of `gilrs::Axis`).
#[derive(Debug, Clone, Copy, PartialEq, Eq, Structural, Hash)]
pub enum GamepadAxis {
    LeftStickX,
    LeftStickY,
    LeftZ,
    RightStickX,
    RightStickY,
    RightZ,
    DPadX,
    DPadY,
    Unknown,
}

/// The keys of the default keyboard layout.
#[derive(Debug, Clone, Copy, PartialEq, Eq, Structural, Hash)]
pub enum KeyboardKey {
    ArrowUp,
    ArrowDown,
    ArrowLeft,
    ArrowRight,
    KeyZ,
    KeyX,
    KeyA,
    KeyS,
    Enter,
    ShiftRight,
}

/// The default gamepad table; `Mode`, `C`, `Z` and unknown buttons are not mapped.
pub open spec fn gamepad_table(button: GamepadButton) -> Option<u32> {
    match button {
        GamepadButton::South => Some(RETRO_DEVICE_ID_JOYPAD_B),
        GamepadButton::East => Some(RETRO_DEVICE_ID_JOYPAD_A),
        GamepadButton::West => Some(RETRO_DEVICE_ID_JOYPAD_Y),
        GamepadButton::North => Some(RETRO_DEVICE_ID_JOYPAD_X),
        GamepadButton::LeftTrigger => Some(RETRO_DEVICE_ID_JOYPAD_L),
        GamepadButton::LeftTrigger2 => Some(RETRO_DEVICE_ID_JOYPAD_L2),
        GamepadButton::RightTrigger => Some(RETRO_DEVICE_ID_JOYPAD_R),
        GamepadButton::RightTrigger2 => Some(RETRO_DEVICE_ID_JOYPAD_R2),
        GamepadButton::Select => Some(RETRO_DEVICE_ID_JOYPAD_SELECT),
        GamepadButton::Start => Some(RETRO_DEVICE_ID_JOYPAD_START),
        GamepadButton::LeftThumb => Some(RETRO_DEVICE_ID_JOYPAD_L3),
        GamepadButton::RightThumb => Some(RETRO_DEVICE_ID_JOYPAD_R3),
        GamepadButton::DPadUp => Some(RETRO_DEVICE_ID_JOYPAD_UP),
        GamepadButton::DPadDown => Some(RETRO_DEVICE_ID_JOYPAD_DOWN),
        GamepadButton::DPadLeft => Some(RETRO_DEVICE_ID_JOYPAD_LEFT),
        GamepadButton::DPadRight => Some(RETRO_DEVICE_ID_JOYPAD_RIGHT),
        GamepadButton::C | GamepadButton::Z | GamepadButton::Mode | GamepadButton::Unknown => None,
    }
}

/// The default keyboard table.
pub open spec fn keyboard_table(key: KeyboardKey) -> u32 {
    match key {
        KeyboardKey::ArrowUp => RETRO_DEVICE_ID_JOYPAD_UP,
        KeyboardKey::ArrowDown => RETRO_DEVICE_ID_JOYPAD_DOWN,
        KeyboardKey::ArrowLeft => RETRO_DEVICE_ID_JOYPAD_LEFT,
        KeyboardKey::ArrowRight => RETRO_DEVICE_ID_JOYPAD_RIGHT,
        KeyboardKey::KeyZ => RETRO_DEVICE_ID_JOYPAD_B,
        KeyboardKey::KeyX => RETRO_DEVICE_ID_JOYPAD_A,
        KeyboardKey::KeyA => RETRO_DEVICE_ID_JOYPAD_Y,
        KeyboardKey::KeyS => RETRO_DEVICE_ID_JOYPAD_X,
        KeyboardKey::Enter => RETRO_DEVICE_ID_JOYPAD_START,
        KeyboardKey::ShiftRight => RETRO_DEVICE_ID_JOYPAD_SELECT,
    }
}

/// Default gamepad mapping (physical position → libretro joypad id).
pub fn default_gamepad_mapping(button: GamepadButton) -> (id: Option<u32>)
    ensures
        id == gamepad_table(button),
{
    match button {
        GamepadButton::South => Some(RETRO_DEVICE_ID_JOYPAD_B),
        GamepadButton::East => Some(RETRO_DEVICE_ID_JOYPAD_A),
        GamepadButton::West => Some(RETRO_DEVICE_ID_JOYPAD_Y),
        GamepadButton::North => Some(RETRO_DEVICE_ID_JOYPAD_X),
        GamepadButton::LeftTrigger => Some(RETRO_DEVICE_ID_JOYPAD_L),
        GamepadButton::LeftTrigger2 => Some(RETRO_DEVICE_ID_JOYPAD_L2),
        GamepadButton::RightTrigger => Some(RETRO_DEVICE_ID_JOYPAD_R),
        GamepadButton::RightTrigger2 => Some(RETRO_DEVICE_ID_JOYPAD_R2),
        GamepadButton::Select => Some(RETRO_DEVICE_ID_JOYPAD_SELECT),
        GamepadButton::Start => Some(RETRO_DEVICE_ID_JOYPAD_START),
        GamepadButton::LeftThumb => Some(RETRO_DEVICE_ID_JOYPAD_L3),
        GamepadButton::RightThumb => Some(RETRO_DEVICE_ID_JOYPAD_R3),
        GamepadButton::DPadUp => Some(RETRO_DEVICE_ID_JOYPAD_UP),
        GamepadButton::DPadDown => Some(RETRO_DEVICE_ID_JOYPAD_DOWN),
        GamepadButton::DPadLeft => Some(RETRO_DEVICE_ID_JOYPAD_LEFT),
        GamepadButton::DPadRight => Some(RETRO_DEVICE_ID_JOYPAD_RIGHT),
        GamepadButton::C | GamepadButton::Z | GamepadButton::Mode | GamepadButton::Unknown => None,
    }
}

/// The D-pad as an axis: `(positive direction id, negative direction id)`. `DPadY` is
/// positive for up (observed on real hardware), unlike the screen Y convention.
pub fn dpad_axis_ids(axis: GamepadAxis) -> (ids: Option<(u32, u32)>)
    ensures
        ids == (match axis {
            GamepadAxis::DPadX => Some((RETRO_DEVICE_ID_JOYPAD_RIGHT, RETRO_DEVICE_ID_JOYPAD_LEFT)),
            GamepadAxis::DPadY => Some((RETRO_DEVICE_ID_JOYPAD_UP, RETRO_DEVICE_ID_JOYPAD_DOWN)),
            _ => None,
        }),
{
    match axis {
        GamepadAxis::DPadX => Some((RETRO_DEVICE_ID_JOYPAD_RIGHT, RETRO_DEVICE_ID_JOYPAD_LEFT)),
        GamepadAxis::DPadY => Some((RETRO_DEVICE_ID_JOYPAD_UP, RETRO_DEVICE_ID_JOYPAD_DOWN)),
        _ => None,
    }
}

/// Default keyboard mapping; every key of the layout is mapped.
pub fn default_keyboard_mapping(key: KeyboardKey) -> (id: Option<u32>)
    ensures
        id == Some(keyboard_table(key)),
{
    match key {
        KeyboardKey::ArrowUp => Some(RETRO_DEVICE_ID_JOYPAD_UP),
        KeyboardKey::ArrowDown => Some(RETRO_DEVICE_ID_JOYPAD_DOWN),
        KeyboardKey::ArrowLeft => Some(RETRO_DEVICE_ID_JOYPAD_LEFT),
        KeyboardKey::ArrowRight => Some(RETRO_DEVICE_ID_JOYPAD_RIGHT),
        KeyboardKey::KeyZ => Some(RETRO_DEVICE_ID_JOYPAD_B),
        KeyboardKey::KeyX => Some(RETRO_DEVICE_ID_JOYPAD_A),
        KeyboardKey::KeyA => Some(RETRO_DEVICE_ID_JOYPAD_Y),
        KeyboardKey::KeyS => Some(RETRO_DEVICE_ID_JOYPAD_X),
        KeyboardKey::Enter => Some(RETRO_DEVICE_ID_JOYPAD_START),
        KeyboardKey::ShiftRight => Some(RETRO_DEVICE_ID_JOYPAD_SELECT),
    }
}

/// `RETRO_DEVICE_ID_JOYPAD_*` (0..=15) → its bit in the per-port button mask
/// (bit N = joypad id N).
pub fn joypad_bit(id: u32) -> (bit: u16)
    requires
        id < 16,
    ensures
        bit as nat == pow2(id as nat),
{
    let shift = id as u16;
    proof {
        vstd::bits::lemma_u16_pow2_no_overflow(shift as nat);
        vstd::bits::lemma_u16_shl_is_mul(1, shift);
    }
    1u16 << shift
}

/// No two keys of the keyboard layout press the same joypad button, and every mapped id
/// — keyboard or gamepad — is a valid joypad id below 16.
pub proof fn lemma_mappings_are_injective_and_in_range(k1: KeyboardKey, k2: KeyboardKey, b1: GamepadButton, b2: GamepadButton)
    ensures
        k1 != k2 ==> keyboard_table(k1) != keyboard_table(k2),
        keyboard_table(k1) < 16,
        gamepad_table(b1) matches Some(id) ==> id < 16,
        b1 != b2 && gamepad_table(b1) is Some ==> gamepad_table(b1) != gamepad_table(b2),
{
}

/// The keyboard key that plays the same RetroPad role as a gamepad button, if the
/// keyboard layout has one: the face buttons by SNES position (bottom B on `Z`, right A
/// on `X`, left Y on `A`, top X on `S`), Start on Enter, Select on right Shift, and the
/// D-pad on the arrows.
pub open spec fn keyboard_counterpart(button: GamepadButton) -> Option<KeyboardKey> {
    match button {
        GamepadButton::South => Some(KeyboardKey::KeyZ),
        GamepadButton::East => Some(KeyboardKey::KeyX),
        GamepadButton::West => Some(KeyboardKey::KeyA),
        GamepadButton::North => Some(KeyboardKey::KeyS),
        GamepadButton::Start => Some(KeyboardKey::Enter),
        GamepadButton::Select => Some(KeyboardKey::ShiftRight),
        GamepadButton::DPadUp => Some(KeyboardKey::ArrowUp),
        GamepadButton::DPadDown => Some(KeyboardKey::ArrowDown),
        GamepadButton::DPadLeft => Some(KeyboardKey::ArrowLeft),
        GamepadButton::DPadRight => Some(KeyboardKey::ArrowRight),
        _ => None,
    }
}

/// A gamepad button and the keyboard key of the same role press the same RetroPad
/// button, and each lands on libretro's id for that role (`libretro.h`: B 0, Y 1,
/// SELECT 2, START 3, UP 4, DOWN 5, LEFT 6, RIGHT 7, A 8, X 9, L 10, R 11, L2 12, R2 13,
/// L3 14, R3 15): the pad's Start presses START, never SELECT.
pub proof fn lemma_buttons_keep_their_roles(button: GamepadButton)
    ensures
        keyboard_counterpart(button) matches Some(k) ==> gamepad_table(button) == Some(keyboard_table(k)),
        gamepad_table(GamepadButton::Start) == Some(3u32),
        gamepad_table(GamepadButton::Select) == Some(2u32),
        keyboard_table(KeyboardKey::Enter) == 3,
        keyboard_table(KeyboardKey::ShiftRight) == 2,
        gamepad_table(GamepadButton::South) == Some(0u32),
        gamepad_table(GamepadButton::West) == Some(1u32),
        gamepad_table(GamepadButton::DPadUp) == Some(4u32),
        gamepad_table(GamepadButton::DPadDown) == Some(5u32),
        gamepad_table(GamepadButton::DPadLeft) == Some(6u32),
        gamepad_table(GamepadButton::DPadRight) == Some(7u32),
        gamepad_table(GamepadButton::East) == Some(8u32),
        gamepad_table(GamepadButton::North) == Some(9u32),
        gamepad_table(GamepadButton::LeftTrigger) == Some(10u32),
        gamepad_table(GamepadButton::RightTrigger) == Some(11u32),
        gamepad_table(GamepadButton::LeftTrigger2) == Some(12u32),
        gamepad_table(GamepadButton::RightTrigger2) == Some(13u32),
        gamepad_table(GamepadButton::LeftThumb) == Some(14u32),
        gamepad_table(GamepadButton::RightThumb) == Some(15u32),
{
}

/// Distinct joypad ids occupy distinct bits of the button mask.
pub proof fn lemma_joypad_bits_distinct(a: u32, b: u32)
    requires
        a < 16,
        b < 16,
        a != b,
    ensures
        pow2(a as nat) != pow2(b as nat),
{
    if a < b {
        vstd::arithmetic::power2::lemma_pow2_strictly_increases(a as nat, b as nat);
    } else {
        vstd::arithmetic::power2::lemma_pow2_strictly_increases(b as nat, a as nat);
    }
}

} // verus!
