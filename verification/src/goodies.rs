//! Optional helpers on top of the core framework.

pub mod megaui;
pub mod scene;
