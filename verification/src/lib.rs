//! Verified core of the LG UltraGear colour-profile tool: text handling,
//! number parsing, state-file formats and paths, profile-snapshot ordering,
//! monitor matching, DDC/CI decisions, toast payloads and the terminal UI's
//! text model.

pub mod text;
pub mod numparse;
pub mod state;
pub mod escape;
pub mod paths;
pub mod diagnostics;
pub mod metrics;
pub mod monitor;
pub mod fmt;
pub mod ddc;
pub mod cli;
pub mod tui;
pub mod screen;
pub mod notify;
pub mod wrap;
pub mod snapshots;
