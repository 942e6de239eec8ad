//! Device selection logic of an audio switcher for PulseAudio/PipeWire systems.

pub mod text;
pub mod command;
pub mod audio;
pub mod bluetooth;
pub mod config;
pub mod i18n;
pub mod utils;
pub mod selector;
pub mod laws;
pub mod watcher;
