//! A verified core for a real-time 2D incompressible-fluid simulation.
//!
//! Field values live on a grid of fixed-point samples (see [`fixed`]).  The
//! library provides the double-buffered grid fields ([`field`]), the pure
//! per-pass grid transforms of the solver ([`kernels`]), the shader-pass
//! dispatch layer with its argument cache ([`pass`]), the compositor that
//! commits a pass output to a target ([`compositor`]), and the per-frame
//! solver loop ([`sim`]).  A host driver owns the device and the frame
//! scheduler; it feeds pointer samples and timestamps into
//! [`sim::SimulationLoop::step`] once per frame.

pub mod compositor;
pub mod field;
pub mod fixed;
pub mod grid;
pub mod kernels;
pub mod pass;
pub mod sim;
