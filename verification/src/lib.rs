//! A spectral, stochastic, sphere-traced renderer.
//!
//! Camera rays are walked through a scene of signed-distance-field spheres;
//! at each hit a per-channel reflect/absorb decision extends a bounded path,
//! which is reduced backward into one radiance sample and accumulated into a
//! progressive image buffer.
//!
//! Every scalar of the rendering core is a fixed-point integer (see
//! [`fixed`]), so each arithmetic step has an exact contract.

pub mod fixed;
pub mod vec3;
pub mod shape;
pub mod error;
pub mod rng;
pub mod rtrf;
pub mod rdf;
pub mod tdf;
pub mod material;
pub mod object;
pub mod config;
pub mod camera;
pub mod renderer;
