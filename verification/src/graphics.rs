//! Plain data of the rendering layer: blend modes and their blend states,
//! handles into batches, font handles and the dirty flag of images.

pub mod image;
pub mod mesh;
pub mod shader;
pub mod spritebatch;
pub mod text;
