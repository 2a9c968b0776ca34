//! Core of an interactive 3D viewer: an orbit camera and a procedural
//! pipe-mesh builder, both written over exact fixed-point arithmetic so that
//! their geometric bookkeeping can be verified.  A thin shell converts
//! between these fixed-point values and the `f32` world of a GPU renderer.

pub mod fx;
pub mod vec3;
pub mod quat;
pub mod trig;
pub mod camera;
pub mod pipe;
pub mod geometry;
pub mod geometry_generator;
