//! Geometry planning for an isometric tile terrain: which tiles feed each
//! floor corner's height, where wall quads stand and which height their far
//! edge takes, where lighting is sampled, and the order of the draw passes.
//! Numeric work on heights, normals and intensities is done by the caller
//! from these plans.

pub mod grid;
pub mod floor;
pub mod walls;
pub mod frame;
