//! A verified core for a small web-friendly 2D game framework: frame timing,
//! keyboard and mouse state, scene stacks, window trees and the plain data
//! types that the rendering layer builds on.

pub mod audio;
pub mod conf;
pub mod decimal;
pub mod error;
pub mod event;
pub mod filesystem;
mod seq_set;
pub mod timer;
pub mod input;
pub mod goodies;
pub mod graphics;
