//! A small path tracer's verified core: 8-bit color arithmetic, the pixel
//! buffer a render fills, and the bounce-accumulation state of a single
//! traced ray. The floating-point geometry (vectors, spheres, the camera)
//! lives outside the library and feeds plain color values into it.

pub mod buffer;
pub mod color;
pub mod trace;
