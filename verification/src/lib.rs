//! Verified core of a self-updating application launcher.

pub mod archive;
pub mod command;
pub mod config;
pub mod digest;
pub mod error;
pub mod launch;
pub mod state;
pub mod text;
pub mod update;
