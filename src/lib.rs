//! The integer side of a small ray caster: 8-bit pixel colors, the raster
//! that a frame is written into, and the per-pixel compositing rule that
//! decides which object's shading ends up in each pixel.

pub mod color;
pub mod composite;
pub mod raster;
