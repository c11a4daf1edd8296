//! Document/state model of a multi-frame, multi-layer raster image editor.
//!
//! The crate tracks open sprites ("views"): their geometry (frame size,
//! frame count, layer count), their dirty/damaged rendering status, their
//! undo/redo history cursor, and their on-disk persistence state, together
//! with a registry that manages document lifecycle and most-recently-used
//! ordering.

pub mod animation;
pub mod file;
pub mod geometry;
pub mod layer;
pub mod manager;
pub mod resource;
pub mod view;
