pub mod osc;
pub mod shell;
pub mod manager;
