//! Verified core of the MJVentoy installer: the disk layout arithmetic, the
//! installation plan and the state machine that drives it, the text that the
//! tools are given, and the state machine of the terminal interface.

pub mod auth;
pub mod text;
pub mod executor;
pub mod commands;
pub mod installer;
pub mod discovery;
pub mod theme;
pub mod tui;
