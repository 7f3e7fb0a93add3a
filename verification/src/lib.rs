//! Proto-Control: the logic of a daemon for the Roto-Control, a surface of motorised knobs and
//! lit buttons.
//!
//! Nothing here reads or writes anything: each module says what is to be sent and makes sense of
//! what came in.

pub mod config;
pub mod discord;
pub mod double;
pub mod json;
pub mod lines;
pub mod midi;
pub mod mpv;
pub mod order;
pub mod pipewire;
pub mod ports;
pub mod protocol;
pub mod settings;
pub mod surface;
pub mod teamspeak;
pub mod text;
pub mod tray;
