//! Core logic of the PC-side sender of an ESP32 system monitor: telemetry
//! packet framing and signing, the configuration and its defaults, the parsing
//! of the display's replies, and the small decisions the background loops make.

pub mod text;
pub mod privacy;
pub mod pong;
pub mod prayer;
pub mod packet;
pub mod config;
pub mod processes;
pub mod sensors;
pub mod status;
pub mod log;
