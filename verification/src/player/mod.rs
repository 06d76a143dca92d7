//! The player: what the audio engine says, and what is kept of it.
pub mod protocol;
pub mod sidecar;
pub mod state;
pub mod wire;
