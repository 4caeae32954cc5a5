//! A stable-handle, densely packed instance store for frame-driven rendering.
//!
//! Callers insert and remove per-object render instances in arbitrary order
//! and receive stable integer handles, while the backing storage stays
//! gap-free so a whole model's instances can be copied to a graphics buffer
//! as one contiguous block every frame.

pub mod dense_store;
pub mod error;
pub mod model;
pub mod renderer;
pub mod slot_table;
pub mod stepper;
