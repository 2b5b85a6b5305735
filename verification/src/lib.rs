//! Core of a generative sketch that renders a word as a hatched outline,
//! blows it around with random wind impulses, and overlays a re-randomized
//! cut line every frame.
//!
//! The verified parts are the scanline hatcher that turns a closed outline
//! into evenly spaced horizontal segments, the force/velocity integrator,
//! the cut-line resampling, and the frame-capture schedule. Windowing and
//! drawing are left to the host program.

pub mod capture;
pub mod cutline;
pub mod geom;
pub mod hatch;
pub mod model;
pub mod physics;
mod rng;
