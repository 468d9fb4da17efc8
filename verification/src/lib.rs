//! A voxel world library: integer vectors, chunk occupancy bitboards, column meshing,
//! an integer hash for world generation, an RGBA image buffer with PNG coding, and the
//! decisions the game makes on keyboard, mouse and window events.

pub mod vector_i32;
pub mod random;
pub mod chunk;
pub mod meshing;
pub mod image;
pub mod input;
