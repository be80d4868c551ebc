//! Verified control core of a ray tracing and ray marching renderer.
//!
//! Every quantity that the rendering arithmetic produces as a binary32 number
//! enters this crate as its bit pattern (`u32`). The crate decides on those
//! patterns and on the indices of a scene:
//!
//! - `ieee`: order, sign and clamping of numbers given by their patterns;
//! - `shapes`: whether a ray hits a primitive, on which part and side;
//! - `tracer`: the nearest hit, the next step of a ray, blocked lights;
//! - `marcher`: the nearest distance field and the progress of a march;
//! - `objects`, `scene`, `texture`: the scene's objects, materials and
//!   textures, and the check that no index in a scene dangles;
//! - `renderer`: when a frame is due, how the pixels are cut into chunks and
//!   how the accumulation buffer is reset, handed out and merged;
//! - `errors`: the error type.

pub mod errors;
pub mod ieee;
pub mod marcher;
pub mod objects;
pub mod renderer;
pub mod scene;
pub mod shapes;
pub mod texture;
pub mod tracer;
