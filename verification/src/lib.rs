//! Grammar-driven procedural generation of voxel models.
//!
//! The pipeline runs in four stages: an L-system grammar is parsed and
//! rewritten into a command sequence, a turtle interprets the commands by
//! rasterizing line segments into a dense volumetric buffer, and the buffer
//! is serialized into a chunked binary model-exchange file.

pub mod buffer;
pub mod l_system;
pub mod raster;
pub mod turtle;
pub mod turtle_graphics;
pub mod voxel_buffer;
pub mod vox;
