pub mod keys;
pub mod keymap;
