//! Core editing engine of a layered raster-image editor: a plane/layer stack
//! with per-plane offsets, a selection model with copy/cutout/move, a canvas
//! that composites planes under a whole-canvas transform, and a merge-aware
//! undo/redo history.
pub mod actions;
pub mod canvas;
pub mod edit;
pub mod editor;
pub mod geom;
pub mod image_utils;
pub mod laws;
pub mod plane;
pub mod selections;
pub mod text;
