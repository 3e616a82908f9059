//! Touch-gesture camera control: a verified gesture-disambiguation state
//! machine that turns per-frame touch snapshots into camera pan and zoom
//! updates, plus the one-shot decision that binds the control tag to a
//! camera.
//!
//! All quantities are integers. Positions and per-touch displacements are
//! plain integer coordinates; sensitivities and the zoom scale are
//! fixed-point values in thousandths (`1000` stands for `1.0`); times are
//! integer milliseconds. The host adapter converts to and from its own
//! floating-point units at the boundary.

pub mod arith;
pub mod binder;
pub mod config;
pub mod geometry;
pub mod laws;
pub mod tracker;
