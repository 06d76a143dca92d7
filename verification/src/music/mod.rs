//! Apple Music's catalogue: everything that is shown, as opposed to played.
pub mod attributes;
pub mod client;
pub mod mixed;
pub mod pages;
pub mod shelves;
pub mod types;
