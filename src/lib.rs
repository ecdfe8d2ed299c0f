//! Verified core of a progressive path tracer: the material tags stored in
//! the scene's material table, the per-pixel random stream, the bounce
//! state machine of the integrator, the progressive-accumulation counter
//! and the byte layout of the per-frame uniform block.
pub mod material;
pub mod rng;
pub mod trace;
pub mod frame;
pub mod ui;
