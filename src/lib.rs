//! A software rendering pipeline for a stylised solar system, in fixed-point
//! arithmetic: transform, triangle rasterization, depth-tested framebuffer,
//! procedural noise and an orbit camera with timed transitions between bodies.
pub mod fixed;
pub mod geometry;
pub mod raster;
pub mod framebuffer;
pub mod camera;
pub mod warp;
pub mod noise;
pub mod skybox;
pub mod transform;
pub mod shade;
pub mod shaders;
pub mod post;
pub mod pipeline;
