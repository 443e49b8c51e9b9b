//! The emulator window's input routing: keyboard and gamepad events in, emulator commands
//! and window actions out.
//!
//! The keyboard always drives port 0. Gamepads get ports 0 to 3 in the order they first
//! connect, and a disconnected gamepad frees its port. Each source keeps its own button
//! mask, and a port's input is the union of its sources when it is sent, so releasing a
//! button on one source never clears the same button held on another.

use vstd::prelude::*;
use vstd::arithmetic::power2::pow2;
use crate::emulation::runner::{EmuCommand, InputState};
use crate::input::hotkeys::{hotkey_action, resolve_hotkey, HotkeyAction, HotkeyKey};
use crate::input::mapping::{
    default_gamepad_mapping, default_keyboard_mapping, gamepad_table, joypad_bit, keyboard_table,
    lemma_mappings_are_injective_and_in_range, GamepadButton, KeyboardKey,
};

verus! {

/// One key event, with the key already translated by the windowing layer: whether it is
/// the fast-forward key (Space), the hotkey and the game key it stands for, if any.
#[derive(Debug, Clone, Copy)]
pub struct KeyInput {
    pub fast_forward_key: bool,
    pub hotkey: Option<HotkeyKey>,
    pub key: Option<KeyboardKey>,
    pub pressed: bool,
    /// An auto-repeat of a key already held.
    pub repeat: bool,
    pub shift: bool,
    /// Cmd on macOS, Ctrl elsewhere.
    pub primary_modifier: bool,
}

/// One gamepad event.
#[derive(Debug, Clone, Copy)]
pub enum GamepadInput {
    Connected { id: usize },
    Disconnected { id: usize },
    Button { id: usize, button: GamepadButton, pressed: bool },
    /// Analogue axes do not drive the joypad.
    Axis,
}

/// What the window does after an event.
#[derive(Debug)]
pub enum RouterAction {
    Nothing,
    /// Send a command to the emulation thread.
    Command(EmuCommand),
    ToggleFullscreen,
    /// Leave fullscreen, if the window is in it.
    ExitFullscreen,
}

/// The bit of a joypad id in a button mask.
pub open spec fn id_bit(id: u32) -> u16 {
    pow2(id as nat) as u16
}

/// A button mask after a press (`pressed`) or release of `bit`.
pub open spec fn apply_button(mask: u16, bit: u16, pressed: bool) -> u16 {
    if pressed { mask | bit } else { mask & !bit }
}

/// The routing state: button masks per source and the gamepad each port belongs to.
#[derive(Debug, Clone, Copy)]
pub struct InputRouter {
    pub keyboard_buttons: u16,
    pub gamepad_port_buttons: [u16; 4],
    /// The gamepad id that owns each port.
    pub port_owner: [Option<usize>; 4],
    /// What the last pause toggle sent.
    pub paused: bool,
}

/// The command a hotkey action sends, with the pause state after it.
pub open spec fn hotkey_effect(action: HotkeyAction, paused: bool) -> (bool, Option<EmuCommandKind>) {
    match action {
        HotkeyAction::TogglePause => (!paused, Some(if !paused { EmuCommandKind::Pause } else { EmuCommandKind::Resume })),
        HotkeyAction::QuickSave => (paused, Some(EmuCommandKind::SaveState(0))),
        HotkeyAction::QuickLoad => (paused, Some(EmuCommandKind::LoadState(0))),
        HotkeyAction::SaveStateSlot(s) => (paused, Some(EmuCommandKind::SaveState(s))),
        HotkeyAction::LoadStateSlot(s) => (paused, Some(EmuCommandKind::LoadState(s))),
        HotkeyAction::Reset => (paused, Some(EmuCommandKind::Reset)),
        HotkeyAction::ToggleFullscreen | HotkeyAction::ExitFullscreenOrLibrary => (paused, None),
    }
}

/// Whether `a` is what the window does for a hotkey action that sends no command: the
/// fullscreen toggle toggles fullscreen; the exit key leaves it.
pub open spec fn window_action_matches(action: HotkeyAction, a: RouterAction) -> bool {
    match action {
        HotkeyAction::ToggleFullscreen => a is ToggleFullscreen,
        HotkeyAction::ExitFullscreenOrLibrary => a is ExitFullscreen,
        _ => false,
    }
}

/// F11 toggles fullscreen and Escape leaves it, whatever the modifiers: a fresh press of
/// either sends no command to the emulator, and the window action the router answers is
/// `ToggleFullscreen` for F11 (entering fullscreen from a window) and `ExitFullscreen`
/// for Escape, never the other one.
pub proof fn lemma_f11_toggles_and_escape_exits(shift: bool, primary_modifier: bool, paused: bool, a: RouterAction)
    ensures
        hotkey_action(HotkeyKey::F11, shift, primary_modifier) == Some(HotkeyAction::ToggleFullscreen),
        hotkey_action(HotkeyKey::Escape, shift, primary_modifier) == Some(HotkeyAction::ExitFullscreenOrLibrary),
        hotkey_effect(HotkeyAction::ToggleFullscreen, paused) == (paused, Option::<EmuCommandKind>::None),
        hotkey_effect(HotkeyAction::ExitFullscreenOrLibrary, paused) == (paused, Option::<EmuCommandKind>::None),
        window_action_matches(HotkeyAction::ToggleFullscreen, a) <==> a is ToggleFullscreen,
        window_action_matches(HotkeyAction::ExitFullscreenOrLibrary, a) <==> a is ExitFullscreen,
{
}

/// The commands the router sends, without payloads that do not concern it.
pub enum EmuCommandKind {
    Pause,
    Resume,
    SaveState(u8),
    LoadState(u8),
    Reset,
    FastForward(bool),
    Input(InputState),
}

/// Whether `action` is `Command(c)` for a command of kind `k`.
pub open spec fn sends(action: RouterAction, k: EmuCommandKind) -> bool {
    match (action, k) {
        (RouterAction::Command(EmuCommand::Pause), EmuCommandKind::Pause) => true,
        (RouterAction::Command(EmuCommand::Resume), EmuCommandKind::Resume) => true,
        (RouterAction::Command(EmuCommand::SaveState(a)), EmuCommandKind::SaveState(b)) => a == b,
        (RouterAction::Command(EmuCommand::LoadState(a)), EmuCommandKind::LoadState(b)) => a == b,
        (RouterAction::Command(EmuCommand::Reset), EmuCommandKind::Reset) => true,
        (RouterAction::Command(EmuCommand::SetFastForward(a)), EmuCommandKind::FastForward(b)) => a == b,
        (RouterAction::Command(EmuCommand::SetInput(a)), EmuCommandKind::Input(b)) => a == b,
        _ => false,
    }
}

/// The lowest port no gamepad owns, if any.
pub open spec fn first_free_port(owners: Seq<Option<usize>>) -> Option<int> {
    if owners[0] is None {
        Some(0)
    } else if owners[1] is None {
        Some(1)
    } else if owners[2] is None {
        Some(2)
    } else if owners[3] is None {
        Some(3)
    } else {
        None
    }
}

impl InputRouter {
    /// No gamepad owns two ports.
    pub open spec fn wf(&self) -> bool {
        forall|i: int, j: int|
            0 <= i < 4 && 0 <= j < 4 && i != j && (#[trigger] self.port_owner@[i]) is Some ==> self.port_owner@[i]
                != #[trigger] self.port_owner@[j]
    }

    /// The port gamepad `id` owns.
    pub open spec fn port_of(&self, id: usize) -> Option<int> {
        if exists|p: int| 0 <= p < 4 && self.port_owner@[p] == Some(id) {
            Some(choose|p: int| 0 <= p < 4 && self.port_owner@[p] == Some(id))
        } else {
            None
        }
    }

    /// The mask a port's input carries: keyboard and gamepad together on port 0.
    pub open spec fn port_mask(&self, port: int) -> u16 {
        if port == 0 {
            self.keyboard_buttons | self.gamepad_port_buttons@[0]
        } else {
            self.gamepad_port_buttons@[port]
        }
    }

    /// Nothing held, no gamepad, not paused.
    pub fn new() -> (r: InputRouter)
        ensures
            r.wf(),
            r.keyboard_buttons == 0,
            forall|p: int| 0 <= p < 4 ==> r.gamepad_port_buttons@[p] == 0 && r.port_owner@[p] is None,
            !r.paused,
    {
        InputRouter {
            keyboard_buttons: 0,
            gamepad_port_buttons: [0u16; 4],
            port_owner: [None, None, None, None],
            paused: false,
        }
    }

    /// The input state to send for `port`.
    pub fn port_input(&self, port: usize) -> (s: InputState)
        requires
            port < 4,
        ensures
            s.port == port,
            s.buttons == self.port_mask(port as int),
    {
        let gamepad_bits = self.gamepad_port_buttons[port];
        let buttons = if port == 0 { self.keyboard_buttons | gamepad_bits } else { gamepad_bits };
        InputState { port: port as u32, buttons }
    }

    /// The port `id` owns, looked up.
    pub fn find_port(&self, id: usize) -> (p: Option<usize>)
        requires
            self.wf(),
        ensures
            match self.port_of(id) {
                Some(q) => p == Some(q as usize),
                None => p is None,
            },
    {
        let mut k: usize = 0;
        while k < 4
            invariant
                self.wf(),
                k <= 4,
                forall|j: int| 0 <= j < k ==> self.port_owner@[j] != Some(id),
            decreases 4 - k,
        {
            if self.port_owner[k] == Some(id) {
                assert(self.port_owner@[k as int] == Some(id));
                assert(self.port_of(id) == Some(k as int)) by {
                    let q = choose|p: int| 0 <= p < 4 && self.port_owner@[p] == Some(id);
                    if q != k {
                        assert(self.port_owner@[q] != self.port_owner@[k as int]);
                    }
                }
                return Some(k);
            }
            k += 1;
        }
        None
    }

    /// Gives gamepad `id` a port: the one it already owns, else the lowest free one;
    /// `None` when all four are taken by other gamepads.
    pub fn assign_gamepad_port(&mut self, id: usize) -> (p: Option<usize>)
        requires
            old(self).wf(),
        ensures
            final(self).wf(),
            final(self).keyboard_buttons == old(self).keyboard_buttons,
            final(self).gamepad_port_buttons == old(self).gamepad_port_buttons,
            final(self).paused == old(self).paused,
            match old(self).port_of(id) {
                Some(q) => p == Some(q as usize) && final(self).port_owner == old(self).port_owner,
                None => match p {
                    Some(q) => q < 4 && old(self).port_owner@[q as int] is None
                        && (forall|j: int| 0 <= j < q ==> old(self).port_owner@[j] is Some)
                        && final(self).port_owner@ == old(self).port_owner@.update(q as int, Some(id)),
                    None => (forall|j: int| 0 <= j < 4 ==> old(self).port_owner@[j] is Some)
                        && final(self).port_owner == old(self).port_owner,
                },
            },
            p matches Some(q) ==> final(self).port_of(id) == Some(q as int),
    {
        if let Some(existing) = self.find_port(id) {
            return Some(existing);
        }
        let mut k: usize = 0;
        while k < 4
            invariant
                k <= 4,
                *self == *old(self),
                old(self).wf(),
                old(self).port_of(id) is None,
                forall|j: int| 0 <= j < k ==> self.port_owner@[j] is Some,
            decreases 4 - k,
        {
            if self.port_owner[k].is_none() {
                self.port_owner[k] = Some(id);
                proof {
                    assert(self.port_owner@ =~= old(self).port_owner@.update(k as int, Some(id)));
                    assert forall|i: int, j: int|
                        0 <= i < 4 && 0 <= j < 4 && i != j && (#[trigger] self.port_owner@[i]) is Some implies self.port_owner@[i]
                            != #[trigger] self.port_owner@[j] by {
                        if i == k {
                            assert(old(self).port_owner@[j] != Some(id));
                        } else if j == k {
                            assert(old(self).port_owner@[i] != Some(id));
                        } else {
                            assert(old(self).port_owner@[i] != old(self).port_owner@[j]);
                        }
                    }
                    assert(self.port_owner@[k as int] == Some(id));
                    let q = choose|p: int| 0 <= p < 4 && self.port_owner@[p] == Some(id);
                    if q != k {
                        assert(self.port_owner@[q] != self.port_owner@[k as int]);
                    }
                }
                return Some(k);
            }
            k += 1;
        }
        None
    }

    /// Runs a hotkey action: flips the pause state for the pause toggle, and sends the
    /// matching command, or asks the window to change its fullscreen state.
    pub fn handle_hotkey_action(&mut self, action: HotkeyAction) -> (a: RouterAction)
        ensures
            final(self).paused == hotkey_effect(action, old(self).paused).0,
            final(self).keyboard_buttons == old(self).keyboard_buttons,
            final(self).gamepad_port_buttons == old(self).gamepad_port_buttons,
            final(self).port_owner == old(self).port_owner,
            match hotkey_effect(action, old(self).paused).1 {
                Some(k) => sends(a, k),
                None => window_action_matches(action, a),
            },
    {
        match action {
            HotkeyAction::TogglePause => {
                self.paused = !self.paused;
                RouterAction::Command(if self.paused { EmuCommand::Pause } else { EmuCommand::Resume })
            },
            HotkeyAction::QuickSave => RouterAction::Command(EmuCommand::SaveState(0)),
            HotkeyAction::QuickLoad => RouterAction::Command(EmuCommand::LoadState(0)),
            HotkeyAction::SaveStateSlot(slot) => RouterAction::Command(EmuCommand::SaveState(slot)),
            HotkeyAction::LoadStateSlot(slot) => RouterAction::Command(EmuCommand::LoadState(slot)),
            HotkeyAction::Reset => RouterAction::Command(EmuCommand::Reset),
            HotkeyAction::ToggleFullscreen => RouterAction::ToggleFullscreen,
            HotkeyAction::ExitFullscreenOrLibrary => RouterAction::ExitFullscreen,
        }
    }

    /// Routes one key event. Space sets fast-forward while held. A fresh press of a key
    /// that resolves to a hotkey runs the hotkey and nothing else. Otherwise a fresh press
    /// or release of a game key updates the keyboard mask and sends port 0's input.
    /// Auto-repeats change nothing.
    pub fn handle_keyboard(&mut self, input: KeyInput) -> (a: RouterAction)
        requires
            old(self).wf(),
        ensures
            final(self).wf(),
            final(self).gamepad_port_buttons == old(self).gamepad_port_buttons,
            final(self).port_owner == old(self).port_owner,
            if input.fast_forward_key {
                *final(self) == *old(self) && if input.repeat {
                    a is Nothing
                } else {
                    sends(a, EmuCommandKind::FastForward(input.pressed))
                }
            } else if input.pressed && !input.repeat && input.hotkey is Some && hotkey_action(
                input.hotkey.unwrap(),
                input.shift,
                input.primary_modifier,
            ) is Some {
                let action = hotkey_action(input.hotkey.unwrap(), input.shift, input.primary_modifier).unwrap();
                final(self).keyboard_buttons == old(self).keyboard_buttons && final(self).paused == hotkey_effect(
                    action,
                    old(self).paused,
                ).0 && match hotkey_effect(action, old(self).paused).1 {
                    Some(k) => sends(a, k),
                    None => window_action_matches(action, a),
                }
            } else if input.repeat || input.key is None {
                *final(self) == *old(self) && a is Nothing
            } else {
                final(self).paused == old(self).paused && final(self).keyboard_buttons == apply_button(
                    old(self).keyboard_buttons,
                    id_bit(keyboard_table(input.key.unwrap())),
                    input.pressed,
                ) && sends(a, EmuCommandKind::Input(InputState { port: 0, buttons: final(self).port_mask(0) }))
            },
    {
        if input.fast_forward_key {
            if !input.repeat {
                return RouterAction::Command(EmuCommand::SetFastForward(input.pressed));
            }
            return RouterAction::Nothing;
        }
        if input.pressed && !input.repeat {
            if let Some(hotkey) = input.hotkey {
                if let Some(action) = resolve_hotkey(hotkey, input.shift, input.primary_modifier) {
                    return self.handle_hotkey_action(action);
                }
            }
        }
        if input.repeat {
            return RouterAction::Nothing;
        }
        let key = match input.key {
            Some(k) => k,
            None => {
                return RouterAction::Nothing;
            },
        };
        let joypad_id = match default_keyboard_mapping(key) {
            Some(id) => id,
            None => {
                return RouterAction::Nothing;
            },
        };
        proof {
            lemma_mappings_are_injective_and_in_range(key, key, GamepadButton::South, GamepadButton::South);
        }
        let bit = joypad_bit(joypad_id);
        if input.pressed {
            self.keyboard_buttons = self.keyboard_buttons | bit;
        } else {
            self.keyboard_buttons = self.keyboard_buttons & !bit;
        }
        RouterAction::Command(EmuCommand::SetInput(self.port_input(0)))
    }

    /// Applies one gamepad event and tells which port's input changed, if any. A new
    /// gamepad gets a port (or none when all four are taken); a disconnected one frees its
    /// port and that port's buttons are released; a button of a gamepad with a port sets
    /// or clears its joypad bit in that port's mask. Unmapped buttons, axes and gamepads
    /// without a port change nothing.
    pub fn handle_gamepad_event(&mut self, event: GamepadInput) -> (changed: Option<usize>)
        requires
            old(self).wf(),
        ensures
            final(self).wf(),
            final(self).keyboard_buttons == old(self).keyboard_buttons,
            final(self).paused == old(self).paused,
            match event {
                GamepadInput::Connected { id } => changed is None && final(self).gamepad_port_buttons
                    == old(self).gamepad_port_buttons && match old(self).port_of(id) {
                    Some(_) => final(self).port_owner == old(self).port_owner,
                    None => match first_free_port(old(self).port_owner@) {
                        Some(q) => final(self).port_owner@ == old(self).port_owner@.update(q, Some(id)),
                        None => final(self).port_owner == old(self).port_owner,
                    },
                },
                GamepadInput::Disconnected { id } => match old(self).port_of(id) {
                    Some(p) => changed == Some(p as usize) && final(self).port_owner@ == old(self).port_owner@.update(
                        p,
                        None,
                    ) && final(self).gamepad_port_buttons@ == old(self).gamepad_port_buttons@.update(p, 0),
                    None => changed is None && *final(self) == *old(self),
                },
                GamepadInput::Button { id, button, pressed } => match (old(self).port_of(id), gamepad_table(button)) {
                    (Some(p), Some(jid)) => changed == Some(p as usize) && final(self).port_owner == old(
                        self,
                    ).port_owner && final(self).gamepad_port_buttons@ == old(self).gamepad_port_buttons@.update(
                        p,
                        apply_button(old(self).gamepad_port_buttons@[p], id_bit(jid), pressed),
                    ),
                    _ => changed is None && *final(self) == *old(self),
                },
                GamepadInput::Axis => changed is None && *final(self) == *old(self),
            },
    {
        match event {
            GamepadInput::Connected { id } => {
                let _ = self.assign_gamepad_port(id);
                None
            },
            GamepadInput::Disconnected { id } => {
                match self.find_port(id) {
                    Some(port) => {
                        self.port_owner[port] = None;
                        self.gamepad_port_buttons[port] = 0;
                        proof {
                            assert(self.port_owner@ =~= old(self).port_owner@.update(port as int, None));
                            assert(self.gamepad_port_buttons@ =~= old(self).gamepad_port_buttons@.update(port as int, 0));
                            assert forall|i: int, j: int|
                                0 <= i < 4 && 0 <= j < 4 && i != j && (#[trigger] self.port_owner@[i]) is Some implies self.port_owner@[i]
                                    != #[trigger] self.port_owner@[j] by {
                                if i != port && j != port {
                                    assert(old(self).port_owner@[i] != old(self).port_owner@[j]);
                                }
                            }
                        }
                        Some(port)
                    },
                    None => None,
                }
            },
            GamepadInput::Button { id, button, pressed } => {
                let port = match self.find_port(id) {
                    Some(p) => p,
                    None => {
                        return None;
                    },
                };
                let joypad_id = match default_gamepad_mapping(button) {
                    Some(j) => j,
                    None => {
                        return None;
                    },
                };
                proof {
                    lemma_mappings_are_injective_and_in_range(KeyboardKey::Enter, KeyboardKey::Enter, button, button);
                }
                let bit = joypad_bit(joypad_id);
                let old_mask = self.gamepad_port_buttons[port];
                let new_mask = if pressed { old_mask | bit } else { old_mask & !bit };
                self.gamepad_port_buttons[port] = new_mask;
                assert(self.gamepad_port_buttons@ =~= old(self).gamepad_port_buttons@.update(
                    port as int,
                    apply_button(old(self).gamepad_port_buttons@[port as int], id_bit(joypad_id), pressed),
                ));
                Some(port)
            },
            GamepadInput::Axis => None,
        }
    }
}

/// A button held on the keyboard stays in port 0's input whatever the gamepad on port 0
/// does with the same button, and the other way round.
pub proof fn lemma_sources_do_not_clear_each_other(keyboard: u16, gamepad: u16, bit: u16, pressed: bool)
    ensures
        keyboard & bit == bit ==> (keyboard | apply_button(gamepad, bit, pressed)) & bit == bit,
        gamepad & bit == bit ==> (apply_button(keyboard, bit, pressed) | gamepad) & bit == bit,
{
    assert(keyboard & bit == bit ==> (keyboard | (gamepad | bit)) & bit == bit) by (bit_vector);
    assert(keyboard & bit == bit ==> (keyboard | (gamepad & !bit)) & bit == bit) by (bit_vector);
    assert(gamepad & bit == bit ==> ((keyboard | bit) | gamepad) & bit == bit) by (bit_vector);
    assert(gamepad & bit == bit ==> ((keyboard & !bit) | gamepad) & bit == bit) by (bit_vector);
}

/// Pressing and then releasing a button leaves the mask as it was without that button;
/// the other buttons are untouched.
pub proof fn lemma_press_then_release(mask: u16, bit: u16)
    ensures
        apply_button(apply_button(mask, bit, true), bit, false) == mask & !bit,
        (mask & bit) == 0 ==> apply_button(apply_button(mask, bit, true), bit, false) == mask,
{
    assert(((mask | bit) & !bit) == mask & !bit) by (bit_vector);
    assert((mask & bit) == 0 ==> mask & !bit == mask) by (bit_vector);
}

/// A gamepad that connects again while it holds a port keeps that port, and two
/// gamepads never share one.
pub proof fn lemma_ports_are_stable_and_exclusive(r: InputRouter, a: usize, b: usize)
    requires
        r.wf(),
        a != b,
    ensures
        r.port_of(a) matches Some(p) ==> r.port_of(b) != Some(p),
{
    if let Some(p) = r.port_of(a) {
        if r.port_of(b) == Some(p) {
            assert(r.port_owner@[p] == Some(a));
            assert(r.port_owner@[p] == Some(b));
        }
    }
}

} // verus!
