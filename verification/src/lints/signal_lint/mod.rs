//! Lints on signals and hooks.
pub mod bindings;
pub mod clones;
pub mod effects;
pub mod fence;
pub mod fence_laws;
pub mod hydration;
pub mod interpolation;
pub mod lint;
pub mod laws;
pub mod links;
pub mod loops;
pub mod polling;
pub mod report;
pub mod state_laws;
pub mod triads;
pub mod writers;
