//! The terminal interface: its state, how keys change it, and the text it shows.

pub mod app;
pub mod input;
pub mod ui;
