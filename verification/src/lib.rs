//! Vinilo: the logic of a music player and of the terminal client that drives it.
//!
//! Everything here works on plain values. Sockets, files, clocks and the audio
//! engine belong to the programs around this library: they hand in what they
//! read and carry out what they are told.
use vstd::prelude::*;

pub mod aguja;
pub mod artwork;
pub mod catalog;
pub mod catalog_write;
pub mod decimal;
pub mod discover;
pub mod double;
pub mod entry;
pub mod i18n;
pub mod ipc;
pub mod json;
pub mod lastfm;
pub mod listen_history;
pub mod listen_stats;
pub mod local_files;
pub mod lyrics;
pub mod mpris;
pub mod music;
pub mod natural;
pub mod order;
pub mod page_cache;
pub mod paths;
pub mod percent;
pub mod player;
pub mod provider;
pub mod queue;
pub mod session;
pub mod setup;
pub mod sort;
pub mod spotify;
pub mod steps;
pub mod streams;
pub mod text;

verus! {

/// The application's id: the name of its desktop file and of its prefix on the
/// session bus.
pub const APP_ID: &'static str = "dev.danielmiguelt.Vinilo";

} // verus!
