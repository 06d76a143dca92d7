//! The terminal client: what it shows, and what its keys ask for.
pub mod app;
pub mod browser;
pub mod panes;
pub mod queue;
pub mod theme;
pub mod ui;
