use mickey::state::{tray_tip, uses_muted_icon, Action, Controller, Event, MuteState};

fn ctl(m: MuteState) -> Controller {
    Controller { mute_state: m, hotkey_held: false, recording_hotkey: false }
}

#[test]
fn toggle_press_flips() {
    let mut c = ctl(MuteState::Muted);
    assert_eq!(c.step(0, Event::HotkeyPressed), Action::SetMute(false));
    let mut c2 = ctl(MuteState::Unmuted);
    assert_eq!(c2.step(0, Event::HotkeyPressed), Action::SetMute(true));
    let mut c3 = ctl(MuteState::Error);
    assert_eq!(c3.step(0, Event::HotkeyPressed), Action::SetMute(true));
    assert_eq!(c.mute_state, MuteState::Muted);
}

#[test]
fn push_to_talk_press_and_release() {
    let mut c = ctl(MuteState::Muted);
    assert_eq!(c.step(1, Event::HotkeyPressed), Action::SetMute(false));
    assert!(c.hotkey_held);
    assert_eq!(c.step(1, Event::HotkeyReleased), Action::SetMute(true));
    assert!(!c.hotkey_held);
    assert_eq!(c.step(1, Event::HotkeyReleased), Action::Nothing);
}

#[test]
fn push_to_mute_press_and_release() {
    let mut c = ctl(MuteState::Unmuted);
    assert_eq!(c.step(2, Event::HotkeyPressed), Action::SetMute(true));
    assert_eq!(c.step(2, Event::HotkeyReleased), Action::SetMute(false));
}

#[test]
fn recording_swallows_hotkey() {
    let mut c = ctl(MuteState::Muted);
    assert_eq!(c.step(0, Event::RecordingStarted), Action::Nothing);
    assert_eq!(c.step(1, Event::HotkeyPressed), Action::Nothing);
    assert!(!c.hotkey_held);
    c.step(0, Event::RecordingStopped);
    assert_eq!(c.step(0, Event::HotkeyPressed), Action::SetMute(false));
}

#[test]
fn reports_queries_and_failures_set_the_display() {
    let mut c = Controller::new();
    assert_eq!(c.mute_state, MuteState::Unmuted);
    assert_eq!(c.step(0, Event::MuteNotified(true)), Action::Redraw);
    assert_eq!(c.mute_state, MuteState::Muted);
    c.step(0, Event::MuteQueried(Some(false)));
    assert_eq!(c.mute_state, MuteState::Unmuted);
    c.step(0, Event::MuteQueried(None));
    assert_eq!(c.mute_state, MuteState::Error);
    c.step(0, Event::MuteNotified(false));
    assert_eq!(c.step(0, Event::MuteSetFailed), Action::Redraw);
    assert_eq!(c.mute_state, MuteState::Error);
}

#[test]
fn tray_click_and_settings_events() {
    let mut c = ctl(MuteState::Muted);
    assert_eq!(c.step(0, Event::TrayClicked), Action::SetMute(false));
    assert_eq!(c.step(1, Event::ModeSelected), Action::SetMute(true));
    assert_eq!(c.step(2, Event::ModeSelected), Action::SetMute(false));
    assert_eq!(c.step(0, Event::ModeSelected), Action::Nothing);
    c.hotkey_held = true;
    c.recording_hotkey = true;
    assert_eq!(c.step(0, Event::SettingsSaved), Action::QueryMute);
    assert!(!c.hotkey_held && !c.recording_hotkey);
    assert_eq!(c.step(1, Event::SettingsSaved), Action::SetMute(true));
    assert_eq!(c.step(7, Event::HotkeyPressed), Action::Nothing);
}

#[test]
fn tips_and_icons() {
    assert_eq!(tray_tip(MuteState::Muted), "MicKey - Muted");
    assert_eq!(tray_tip(MuteState::Unmuted), "MicKey - Active");
    assert_eq!(tray_tip(MuteState::Error), "MicKey - Error");
    assert!(uses_muted_icon(MuteState::Muted));
    assert!(!uses_muted_icon(MuteState::Error));
}
