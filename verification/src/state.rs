//! What the application does about the microphone: the mute state it shows,
//! and how clicks, hotkey presses and releases and the endpoint's reports
//! change it. The window procedures feed events in and perform the actions
//! that come out.
use vstd::prelude::*;

verus! {

/// What the indicator shows.
#[derive(Clone, Copy, Debug, PartialEq, Eq, Structural)]
pub enum MuteState {
    /// The microphone is live (green by default).
    Unmuted,
    /// The microphone is muted (red by default).
    Muted,
    /// The microphone cannot be reached (gray by default).
    Error,
}

/// Hotkey mode 0: each press flips the microphone.
pub const MODE_TOGGLE: u32 = 0;

/// Hotkey mode 1: hold to talk, release to mute again.
pub const MODE_PUSH_TO_TALK: u32 = 1;

/// Hotkey mode 2: hold to mute, release to talk again.
pub const MODE_PUSH_TO_MUTE: u32 = 2;

/// The state that the decisions depend on.
#[derive(Clone, Copy, Debug, PartialEq, Eq, Structural)]
pub struct Controller {
    pub mute_state: MuteState,
    /// A push-to-talk or push-to-mute press is waiting for its release.
    pub hotkey_held: bool,
    /// The settings window is recording a new hotkey.
    pub recording_hotkey: bool,
}

/// Something that happened.
#[derive(Clone, Copy, Debug, PartialEq, Eq, Structural)]
pub enum Event {
    /// Left click on the tray icon.
    TrayClicked,
    /// The registered hotkey went down.
    HotkeyPressed,
    /// The keyboard hook saw the hotkey's key go up.
    HotkeyReleased,
    /// The endpoint reported its mute flag.
    MuteNotified(bool),
    /// The mute flag was read: `None` where the device or the flag could not
    /// be reached.
    MuteQueried(Option<bool>),
    /// Setting the mute flag failed, or no device could be reached.
    MuteSetFailed,
    /// A hotkey mode was picked in the settings window.
    ModeSelected,
    /// The settings window saved its values.
    SettingsSaved,
    /// The settings window started recording a hotkey.
    RecordingStarted,
    /// The settings window stopped recording a hotkey.
    RecordingStopped,
}

/// What to do about it.
#[derive(Clone, Copy, Debug, PartialEq, Eq, Structural)]
pub enum Action {
    Nothing,
    /// Ask the endpoint to set its mute flag; the endpoint's report then
    /// comes back as `MuteNotified`.
    SetMute(bool),
    /// Read the endpoint's mute flag and hand it back as `MuteQueried`.
    QueryMute,
    /// Redraw the overlay and the tray icon.
    Redraw,
}

pub open spec fn is_muted(s: MuteState) -> bool {
    s == MuteState::Muted
}

/// The state shown for a reported mute flag.
pub open spec fn state_of_flag(muted: bool) -> MuteState {
    if muted {
        MuteState::Muted
    } else {
        MuteState::Unmuted
    }
}

/// The resting mute flag of a push mode, if `mode` is one.
pub open spec fn resting_mute(mode: u32) -> Option<bool> {
    if mode == MODE_PUSH_TO_TALK {
        Some(true)
    } else if mode == MODE_PUSH_TO_MUTE {
        Some(false)
    } else {
        None
    }
}

/// The next state and the action for an event, under hotkey mode `mode`.
pub open spec fn step_spec(c: Controller, mode: u32, ev: Event) -> (Controller, Action) {
    match ev {
        Event::TrayClicked => (c, Action::SetMute(!is_muted(c.mute_state))),
        Event::HotkeyPressed => if c.recording_hotkey {
            (c, Action::Nothing)
        } else if mode == MODE_TOGGLE {
            (c, Action::SetMute(!is_muted(c.mute_state)))
        } else if mode == MODE_PUSH_TO_TALK {
            (Controller { hotkey_held: true, ..c }, Action::SetMute(false))
        } else if mode == MODE_PUSH_TO_MUTE {
            (Controller { hotkey_held: true, ..c }, Action::SetMute(true))
        } else {
            (c, Action::Nothing)
        },
        Event::HotkeyReleased => {
            let released = Controller { hotkey_held: false, ..c };
            if c.hotkey_held && mode == MODE_PUSH_TO_TALK {
                (released, Action::SetMute(true))
            } else if c.hotkey_held && mode == MODE_PUSH_TO_MUTE {
                (released, Action::SetMute(false))
            } else {
                (released, Action::Nothing)
            }
        },
        Event::MuteNotified(m) => (Controller { mute_state: state_of_flag(m), ..c }, Action::Redraw),
        Event::MuteQueried(r) => (
            Controller {
                mute_state: match r {
                    Some(m) => state_of_flag(m),
                    None => MuteState::Error,
                },
                ..c
            },
            Action::Redraw,
        ),
        Event::MuteSetFailed => (Controller { mute_state: MuteState::Error, ..c }, Action::Redraw),
        Event::ModeSelected => match resting_mute(mode) {
            Some(m) => (c, Action::SetMute(m)),
            None => (c, Action::Nothing),
        },
        Event::SettingsSaved => {
            let settled = Controller { hotkey_held: false, recording_hotkey: false, ..c };
            match resting_mute(mode) {
                Some(m) => (settled, Action::SetMute(m)),
                None => (settled, Action::QueryMute),
            }
        },
        Event::RecordingStarted => (Controller { recording_hotkey: true, ..c }, Action::Nothing),
        Event::RecordingStopped => (Controller { recording_hotkey: false, ..c }, Action::Nothing),
    }
}

impl Controller {
    /// The state at start-up: live, nothing held, not recording.
    pub fn new() -> (c: Controller)
        ensures
            c == (Controller {
                mute_state: MuteState::Unmuted,
                hotkey_held: false,
                recording_hotkey: false,
            }),
    {
        Controller { mute_state: MuteState::Unmuted, hotkey_held: false, recording_hotkey: false }
    }

    /// Takes one event under hotkey mode `mode` and says what to do.
    pub fn step(&mut self, mode: u32, ev: Event) -> (a: Action)
        ensures
            (*final(self), a) == step_spec(*old(self), mode, ev),
    {
        let muted = match self.mute_state {
            MuteState::Muted => true,
            _ => false,
        };
        match ev {
            Event::TrayClicked => Action::SetMute(!muted),
            Event::HotkeyPressed => {
                if self.recording_hotkey {
                    Action::Nothing
                } else if mode == MODE_TOGGLE {
                    Action::SetMute(!muted)
                } else if mode == MODE_PUSH_TO_TALK {
                    self.hotkey_held = true;
                    Action::SetMute(false)
                } else if mode == MODE_PUSH_TO_MUTE {
                    self.hotkey_held = true;
                    Action::SetMute(true)
                } else {
                    Action::Nothing
                }
            },
            Event::HotkeyReleased => {
                let held = self.hotkey_held;
                self.hotkey_held = false;
                if held && mode == MODE_PUSH_TO_TALK {
                    Action::SetMute(true)
                } else if held && mode == MODE_PUSH_TO_MUTE {
                    Action::SetMute(false)
                } else {
                    Action::Nothing
                }
            },
            Event::MuteNotified(m) => {
                self.mute_state = if m {
                    MuteState::Muted
                } else {
                    MuteState::Unmuted
                };
                Action::Redraw
            },
            Event::MuteQueried(r) => {
                self.mute_state = match r {
                    Some(true) => MuteState::Muted,
                    Some(false) => MuteState::Unmuted,
                    None => MuteState::Error,
                };
                Action::Redraw
            },
            Event::MuteSetFailed => {
                self.mute_state = MuteState::Error;
                Action::Redraw
            },
            Event::ModeSelected => {
                if mode == MODE_PUSH_TO_TALK {
                    Action::SetMute(true)
                } else if mode == MODE_PUSH_TO_MUTE {
                    Action::SetMute(false)
                } else {
                    Action::Nothing
                }
            },
            Event::SettingsSaved => {
                self.hotkey_held = false;
                self.recording_hotkey = false;
                if mode == MODE_PUSH_TO_TALK {
                    Action::SetMute(true)
                } else if mode == MODE_PUSH_TO_MUTE {
                    Action::SetMute(false)
                } else {
                    Action::QueryMute
                }
            },
            Event::RecordingStarted => {
                self.recording_hotkey = true;
                Action::Nothing
            },
            Event::RecordingStopped => {
                self.recording_hotkey = false;
                Action::Nothing
            },
        }
    }
}

/// The tray tooltip for a state.
pub fn tray_tip(s: MuteState) -> (r: &'static str)
    ensures
        r@ == (match s {
            MuteState::Muted => "MicKey - Muted"@,
            MuteState::Unmuted => "MicKey - Active"@,
            MuteState::Error => "MicKey - Error"@,
        }),
{
    match s {
        MuteState::Muted => "MicKey - Muted",
        MuteState::Unmuted => "MicKey - Active",
        MuteState::Error => "MicKey - Error",
    }
}

/// Whether the muted variant of the microphone icon is drawn; the error
/// state draws the live variant in its own colour.
pub fn uses_muted_icon(s: MuteState) -> (r: bool)
    ensures
        r == is_muted(s),
{
    match s {
        MuteState::Muted => true,
        _ => false,
    }
}

// ---------------------------------------------------------------------
// Laws
// ---------------------------------------------------------------------

/// Toggle mode: each press of the hotkey asks for the opposite of what is
/// shown (an unreachable microphone counts as live).
pub proof fn lemma_toggle_flips(c: Controller)
    requires
        !c.recording_hotkey,
    ensures
        step_spec(c, MODE_TOGGLE, Event::HotkeyPressed) == (c, Action::SetMute(
            c.mute_state != MuteState::Muted,
        )),
{
}

/// Push-to-talk: pressing the hotkey unmutes, releasing it mutes again, and
/// nothing is left held.
pub proof fn lemma_push_to_talk(c: Controller)
    requires
        !c.recording_hotkey,
    ensures
        ({
            let (c1, a1) = step_spec(c, MODE_PUSH_TO_TALK, Event::HotkeyPressed);
            let (c2, a2) = step_spec(c1, MODE_PUSH_TO_TALK, Event::HotkeyReleased);
            &&& a1 == Action::SetMute(false)
            &&& a2 == Action::SetMute(true)
            &&& c2 == (Controller { hotkey_held: false, ..c })
        }),
{
}

/// Push-to-mute: pressing the hotkey mutes, releasing it unmutes again, and
/// nothing is left held.
pub proof fn lemma_push_to_mute(c: Controller)
    requires
        !c.recording_hotkey,
    ensures
        ({
            let (c1, a1) = step_spec(c, MODE_PUSH_TO_MUTE, Event::HotkeyPressed);
            let (c2, a2) = step_spec(c1, MODE_PUSH_TO_MUTE, Event::HotkeyReleased);
            &&& a1 == Action::SetMute(true)
            &&& a2 == Action::SetMute(false)
            &&& c2 == (Controller { hotkey_held: false, ..c })
        }),
{
}

/// While a hotkey is being recorded, hotkey presses change nothing and do
/// nothing.
pub proof fn lemma_recording_swallows_hotkey(c: Controller, mode: u32)
    requires
        c.recording_hotkey,
    ensures
        step_spec(c, mode, Event::HotkeyPressed) == (c, Action::Nothing),
{
}

/// A release that no press is waiting for does nothing.
pub proof fn lemma_release_without_press(c: Controller, mode: u32)
    requires
        !c.hotkey_held,
    ensures
        step_spec(c, mode, Event::HotkeyReleased) == (c, Action::Nothing),
{
}

/// The endpoint's report decides what is shown, whatever was shown before.
pub proof fn lemma_report_decides(c: Controller, mode: u32, muted: bool)
    ensures
        step_spec(c, mode, Event::MuteNotified(muted)).0.mute_state == (if muted {
            MuteState::Muted
        } else {
            MuteState::Unmuted
        }),
        step_spec(c, mode, Event::MuteNotified(muted)).1 == Action::Redraw,
{
}

/// A microphone that cannot be reached or set shows the error state.
pub proof fn lemma_unreachable_is_error(c: Controller, mode: u32)
    ensures
        step_spec(c, mode, Event::MuteQueried(None)).0.mute_state == MuteState::Error,
        step_spec(c, mode, Event::MuteSetFailed).0.mute_state == MuteState::Error,
{
}

/// Only the endpoint's reports, queries and failures change what is shown:
/// clicks and hotkeys only ask.
pub proof fn lemma_requests_do_not_change_display(c: Controller, mode: u32, ev: Event)
    requires
        !(ev is MuteNotified || ev is MuteQueried || ev is MuteSetFailed),
    ensures
        step_spec(c, mode, ev).0.mute_state == c.mute_state,
{
}


/// A successful query decides what is shown: a muted flag shows Muted, a
/// live one Unmuted, and the hotkey and recording state stay as they were.
pub proof fn lemma_query_decides(c: Controller, mode: u32, muted: bool)
    ensures
        step_spec(c, mode, Event::MuteQueried(Some(muted))) == (Controller {
            mute_state: if muted {
                MuteState::Muted
            } else {
                MuteState::Unmuted
            },
            ..c
        }, Action::Redraw),
        step_spec(c, mode, Event::MuteNotified(muted)) == (Controller {
            mute_state: if muted {
                MuteState::Muted
            } else {
                MuteState::Unmuted
            },
            ..c
        }, Action::Redraw),
{
}

/// A click on the tray icon asks for the opposite of what is shown (an
/// unreachable microphone counts as live), in every mode.
pub proof fn lemma_tray_click_flips(c: Controller, mode: u32)
    ensures
        step_spec(c, mode, Event::TrayClicked) == (c, Action::SetMute(
            c.mute_state != MuteState::Muted,
        )),
{
}

/// Picking or saving a push mode moves the microphone to that mode's resting
/// state: muted for push-to-talk, live for push-to-mute. Saving under toggle
/// reads the device again instead. Saving leaves nothing held or recording.
pub proof fn lemma_modes_settle(c: Controller)
    ensures
        step_spec(c, MODE_PUSH_TO_TALK, Event::ModeSelected) == (c, Action::SetMute(true)),
        step_spec(c, MODE_PUSH_TO_MUTE, Event::ModeSelected) == (c, Action::SetMute(false)),
        step_spec(c, MODE_TOGGLE, Event::ModeSelected) == (c, Action::Nothing),
        step_spec(c, MODE_PUSH_TO_TALK, Event::SettingsSaved) == (Controller {
            hotkey_held: false,
            recording_hotkey: false,
            ..c
        }, Action::SetMute(true)),
        step_spec(c, MODE_PUSH_TO_MUTE, Event::SettingsSaved) == (Controller {
            hotkey_held: false,
            recording_hotkey: false,
            ..c
        }, Action::SetMute(false)),
        step_spec(c, MODE_TOGGLE, Event::SettingsSaved) == (Controller {
            hotkey_held: false,
            recording_hotkey: false,
            ..c
        }, Action::QueryMute),
{
}

/// Starting to record a hotkey sets the recording flag and stopping clears
/// it; neither does anything else.
pub proof fn lemma_recording_flag(c: Controller, mode: u32)
    ensures
        step_spec(c, mode, Event::RecordingStarted) == (Controller { recording_hotkey: true, ..c }, Action::Nothing),
        step_spec(c, mode, Event::RecordingStopped) == (Controller { recording_hotkey: false, ..c }, Action::Nothing),
{
}

} // verus!
