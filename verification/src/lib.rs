//! Settings, hotkeys, colours and pixel logic of a microphone mute indicator.
pub mod text;
pub mod color;
pub mod hotkey;
pub mod ico;
pub mod pixels;
pub mod settings;
pub mod state;
