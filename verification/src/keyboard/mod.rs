//! The PS/2 keyboard: what its keys mean, what was typed, and how it is switched on.

pub mod keys;
pub mod keys_law;
pub mod keyboard;
pub mod keyboard_law;
pub mod probe;
