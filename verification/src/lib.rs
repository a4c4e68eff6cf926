//! Loads a packaged 3D asset into a renderer-ready model.
//!
//! The package is a zip archive that holds one Wavefront object file, the
//! material libraries it names, and the texture images those materials refer
//! to. Loading yields a [`model::Model`]: a list of meshes with expanded
//! vertex data, and a table of decoded textures in which every source file
//! occurs once.
pub mod archive;
pub mod geometry;
pub mod loader;
pub mod material;
pub mod mesh;
pub mod model;
pub mod plan;
pub mod text;
pub mod texture;
