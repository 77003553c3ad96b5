//! A software 3D rendering core for character-cell displays.
//!
//! The crate holds the integer parts of a small first-person renderer:
//! screen-space geometry (bounding boxes, the edge-function point-in-triangle
//! test), Bresenham line drawing and triangle filling onto an owned cell
//! canvas, the visibility test and back-to-front depth ordering of mesh
//! faces, and the per-frame input decisions (camera movement, resize,
//! termination). Floating-point vertex transforms and the actual terminal
//! backend live outside the crate and hand plain integer values in.

pub mod canvas;
pub mod engine;
pub mod geometry;
pub mod raster;
pub mod scene;
