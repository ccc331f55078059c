//! Keyboard and mouse input state.

pub mod input_handler;
pub mod keyboard;
