//! Discord RPC: per-user volume and mute in a voice channel.
pub mod oauth;
pub mod session;
pub mod socket;
pub mod wire;
