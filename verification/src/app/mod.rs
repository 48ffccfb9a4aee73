pub mod types;
pub mod view;
pub mod filter;
pub mod state;
pub mod action;
pub mod help_section;
pub mod reducer;
pub mod laws;
pub mod spawn;
pub mod outcome;
