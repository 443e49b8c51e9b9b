//! Commands to the emulation thread and the state machine that interprets them.
//!
//! The thread owns one loaded core at a time. It runs frames only while a core and its
//! game are loaded and it was told to run; fast-forward drops audio and runs unpaced; with
//! a working audio pipeline, frames are paced by the audio ring's fill level, otherwise by
//! a fixed frame clock.

use vstd::prelude::*;
use crate::video::pixel_format::PixelFormat;

verus! {

/// The button mask of one joypad port.
#[derive(Debug, Clone, Copy, PartialEq, Eq, Structural)]
pub struct InputState {
    pub port: u32,
    pub buttons: u16,
}

/// Commands sent to the emulation thread.
#[derive(Debug)]
pub enum EmuCommand {
    Load { core: String, rom: String },
    Run,
    Pause,
    Resume,
    Reset,
    Stop,
    SaveState(u8),
    LoadState(u8),
    SetInput(InputState),
    /// Run unthrottled and drop the audio.
    SetFastForward(bool),
}

/// `RETRO_PIXEL_FORMAT_0RGB1555`.
pub const RETRO_PIXEL_FORMAT_0RGB1555: u32 = 0;
/// `RETRO_PIXEL_FORMAT_XRGB8888`.
pub const RETRO_PIXEL_FORMAT_XRGB8888: u32 = 1;
/// `RETRO_PIXEL_FORMAT_RGB565`.
pub const RETRO_PIXEL_FORMAT_RGB565: u32 = 2;

/// The pixel format a core announced, if the converter supports it.
pub fn map_pixel_format(raw: u32) -> (f: Option<PixelFormat>)
    ensures
        raw == RETRO_PIXEL_FORMAT_0RGB1555 ==> f == Some(PixelFormat::Rgb0555),
        raw == RETRO_PIXEL_FORMAT_XRGB8888 ==> f == Some(PixelFormat::Xrgb8888),
        raw == RETRO_PIXEL_FORMAT_RGB565 ==> f == Some(PixelFormat::Rgb565),
        raw > 2 ==> f is None,
{
    if raw == RETRO_PIXEL_FORMAT_0RGB1555 {
        Some(PixelFormat::Rgb0555)
    } else if raw == RETRO_PIXEL_FORMAT_XRGB8888 {
        Some(PixelFormat::Xrgb8888)
    } else if raw == RETRO_PIXEL_FORMAT_RGB565 {
        Some(PixelFormat::Rgb565)
    } else {
        None
    }
}

/// Number of joypad ports the input state holds.
pub const PORTS: usize = 4;

/// What the emulation thread knows of itself between commands.
#[derive(Debug, Clone, Copy)]
pub struct RunnerState {
    pub has_core: bool,
    pub has_game: bool,
    pub running: bool,
    pub fast_forward: bool,
    pub has_resampler: bool,
    pub input_state: [u16; 4],
}

/// What the thread must do outside the state after a command.
#[derive(Debug)]
pub enum CommandEffect {
    /// Nothing beyond the state change.
    Nothing,
    /// Unload the current core, then load `core` with `rom` and report
    /// [`RunnerState::load_finished`]; the frame counter and clock restart.
    Load { core: String, rom: String },
    /// The frame clock restarts now.
    RestartClock,
    /// Reset the loaded core.
    ResetCore,
    /// Unload the core and leave the loop.
    Exit,
    /// A command that cannot be carried out now (run without a core) or is not carried
    /// out by this thread (save states); it is logged.
    Ignored,
}

/// How a frame is paced.
#[derive(Debug, Clone, Copy, PartialEq, Eq, Structural)]
pub enum Pacing {
    /// Fast-forward: no waiting.
    Unpaced,
    /// The audio ring's fill level paces the frames; no extra wait.
    AudioDriven,
    /// No audio pipeline: wait for the fixed frame clock.
    FrameClock,
}

/// What one loop iteration does once commands are handled.
#[derive(Debug, Clone, Copy, PartialEq, Eq, Structural)]
pub enum FrameStep {
    /// Not running: wait for the next command.
    Idle,
    /// The audio ring is nearly full: sleep briefly and look again.
    Throttle,
    /// Run one frame, publish video and audio, then pace it.
    RunFrame(Pacing),
}

impl RunnerState {
    /// A thread with nothing loaded.
    pub fn new() -> (s: RunnerState)
        ensures
            !s.has_core && !s.has_game && !s.running && !s.fast_forward && !s.has_resampler,
            forall|p: int| 0 <= p < 4 ==> s.input_state@[p] == 0,
    {
        RunnerState {
            has_core: false,
            has_game: false,
            running: false,
            fast_forward: false,
            has_resampler: false,
            input_state: [0u16; 4],
        }
    }

    /// Equal in everything but the input state.
    pub open spec fn same_flags(self, other: RunnerState) -> bool {
        self.has_core == other.has_core && self.has_game == other.has_game && self.running == other.running
            && self.fast_forward == other.fast_forward && self.has_resampler == other.has_resampler
    }

    /// The state after unloading: no core, game or resampler, not running.
    pub open spec fn cleaned(self) -> RunnerState {
        RunnerState { has_core: false, has_game: false, running: false, has_resampler: false, ..self }
    }

    /// Interprets one command.
    pub fn on_command(&mut self, cmd: EmuCommand) -> (e: CommandEffect)
        ensures
            match cmd {
                EmuCommand::Load { core, rom } => *final(self) == old(self).cleaned()
                    && (e matches CommandEffect::Load { core: c, rom: r } && c == core && r == rom),
                EmuCommand::Run => if old(self).has_core {
                    *final(self) == (RunnerState { running: true, ..*old(self) }) && e is RestartClock
                } else {
                    *final(self) == *old(self) && e is Ignored
                },
                EmuCommand::Resume => if old(self).has_core {
                    *final(self) == (RunnerState { running: true, ..*old(self) }) && e is RestartClock
                } else {
                    *final(self) == *old(self) && e is Nothing
                },
                EmuCommand::Pause => *final(self) == (RunnerState { running: false, ..*old(self) })
                    && e is Nothing,
                EmuCommand::Reset => *final(self) == *old(self) && (if old(self).has_core {
                    e is ResetCore
                } else {
                    e is Nothing
                }),
                EmuCommand::Stop => *final(self) == old(self).cleaned() && e is Exit,
                EmuCommand::SaveState(_) | EmuCommand::LoadState(_) => *final(self) == *old(self)
                    && e is Ignored,
                EmuCommand::SetInput(input) => e is Nothing && if input.port < 4 {
                    final(self).same_flags(*old(self)) && final(self).input_state@ == old(
                        self,
                    ).input_state@.update(input.port as int, input.buttons)
                } else {
                    *final(self) == *old(self)
                },
                EmuCommand::SetFastForward(on) => *final(self) == (RunnerState {
                    fast_forward: on,
                    ..*old(self)
                }) && e is Nothing,
            },
    {
        match cmd {
            EmuCommand::Load { core, rom } => {
                self.cleanup();
                CommandEffect::Load { core, rom }
            },
            EmuCommand::Run => {
                if self.has_core {
                    self.running = true;
                    CommandEffect::RestartClock
                } else {
                    CommandEffect::Ignored
                }
            },
            EmuCommand::Resume => {
                if self.has_core {
                    self.running = true;
                    CommandEffect::RestartClock
                } else {
                    CommandEffect::Nothing
                }
            },
            EmuCommand::Pause => {
                self.running = false;
                CommandEffect::Nothing
            },
            EmuCommand::Reset => {
                if self.has_core { CommandEffect::ResetCore } else { CommandEffect::Nothing }
            },
            EmuCommand::Stop => {
                self.cleanup();
                CommandEffect::Exit
            },
            EmuCommand::SaveState(_) | EmuCommand::LoadState(_) => CommandEffect::Ignored,
            EmuCommand::SetInput(input) => {
                if input.port < 4 {
                    let p = input.port as usize;
                    self.input_state[p] = input.buttons;
                    assert(self.input_state@ =~= old(self).input_state@.update(input.port as int, input.buttons));
                }
                CommandEffect::Nothing
            },
            EmuCommand::SetFastForward(on) => {
                self.fast_forward = on;
                CommandEffect::Nothing
            },
        }
    }

    /// The command channel closed: unload and leave.
    pub fn on_disconnect(&mut self) -> (e: CommandEffect)
        ensures
            *final(self) == old(self).cleaned(),
            e is Exit,
    {
        self.cleanup();
        CommandEffect::Exit
    }

    fn cleanup(&mut self)
        ensures
            *final(self) == old(self).cleaned(),
    {
        self.has_core = false;
        self.has_game = false;
        self.running = false;
        self.has_resampler = false;
    }

    /// Records how a load ended: with the core and game loaded or not, and whether an
    /// audio resampler could be made for the game's sample rate.
    pub fn load_finished(&mut self, loaded: bool, resampler_ok: bool)
        ensures
            *final(self) == (RunnerState {
                has_core: loaded,
                has_game: loaded,
                has_resampler: loaded && resampler_ok,
                ..*old(self)
            }),
    {
        self.has_core = loaded;
        self.has_game = loaded;
        self.has_resampler = loaded && resampler_ok;
    }

    /// What the loop does next. `ring_nearly_full`: the audio ring is at or above its
    /// high watermark. A running thread without core or game stops running.
    pub fn frame_step(&mut self, ring_nearly_full: bool) -> (step: FrameStep)
        ensures
            !old(self).running ==> step == FrameStep::Idle && *final(self) == *old(self),
            old(self).running && !(old(self).has_core && old(self).has_game) ==> step == FrameStep::Idle
                && *final(self) == (RunnerState { running: false, ..*old(self) }),
            old(self).running && old(self).has_core && old(self).has_game ==> *final(self) == *old(self)
                && step == (if !old(self).fast_forward && old(self).has_resampler && ring_nearly_full {
                FrameStep::Throttle
            } else if old(self).fast_forward {
                FrameStep::RunFrame(Pacing::Unpaced)
            } else if old(self).has_resampler {
                FrameStep::RunFrame(Pacing::AudioDriven)
            } else {
                FrameStep::RunFrame(Pacing::FrameClock)
            }),
    {
        if !self.running {
            return FrameStep::Idle;
        }
        if !(self.has_core && self.has_game) {
            self.running = false;
            return FrameStep::Idle;
        }
        if !self.fast_forward && self.has_resampler && ring_nearly_full {
            FrameStep::Throttle
        } else if self.fast_forward {
            FrameStep::RunFrame(Pacing::Unpaced)
        } else if self.has_resampler {
            FrameStep::RunFrame(Pacing::AudioDriven)
        } else {
            FrameStep::RunFrame(Pacing::FrameClock)
        }
    }

    /// Whether this frame's audio is resampled and published: not in fast-forward, with a
    /// resampler and samples at hand.
    pub fn publishes_audio(&self, samples: usize) -> (b: bool)
        ensures
            b == (!self.fast_forward && samples > 0 && self.has_resampler),
    {
        !self.fast_forward && samples > 0 && self.has_resampler
    }
}

} // verus!
