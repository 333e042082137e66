//! A small recursive ray tracer over exact decimal fixed-point arithmetic.
//!
//! A scene is a list of spheres, triangles and rectangles, each with a
//! material. `trace` follows one ray through the scene, `render` makes the
//! picture that a pinhole camera at the origin sees, `render_wireframe` the
//! picture of the outlines. Numbers are fixed-point with thirteen decimal
//! places, so that every picture is the same on every machine, to the last
//! bit.

pub mod cli;
pub mod image;
pub mod intsqrt;
pub mod laws;
pub mod render;
pub mod scalar;
pub mod scene;
pub mod solids;
pub mod text;
pub mod tracer;
pub mod vec3;
pub mod wide;

pub use crate::render::{render, render_wireframe};
pub use crate::tracer::trace;
