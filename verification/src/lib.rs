//! lazyjust: the verified core of a terminal dashboard for the `just`
//! command runner.

pub mod app;
pub mod discovery;
pub mod error;
pub mod session;
pub mod ui;
pub mod text;
pub mod input;
pub mod theme;
pub mod config;
pub mod cli;
