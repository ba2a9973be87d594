//! Verified core of a small stochastic ray tracer.
//!
//! The renderer draws a handful of unit spheres over an infinite ground
//! plane and a sky gradient, averaging many jittered samples per pixel and
//! splitting the image rows across a fixed set of workers.  The modules here
//! hold everything in that pipeline that is discrete: the pseudo-random
//! state stream, the art-to-object parser, the pixel buffer with its PPM
//! serialization, and the row-partitioned scheduling.  The floating-point
//! geometry (camera basis, intersection tests, light transport) lives with
//! the binary that drives the render.

pub mod art;
pub mod config;
pub mod image;
pub mod rng;
pub mod schedule;
pub mod shade;
