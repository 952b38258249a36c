//! Data shapes for learned models.

pub mod classifier;
