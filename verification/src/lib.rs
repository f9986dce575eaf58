//! A single-pass screen-space post-processing stage: pixelation, edge
//! darkening and colour quantisation applied to the shaded output of a scene
//! pass.
//!
//! The crate holds the stage's bookkeeping, all of it on plain values: the
//! per-camera settings and their byte layout, the once-per-frame staging of
//! those settings into a shared uniform buffer, the cache of compiled
//! pipelines, the per-frame decision of the render-graph node, and the render
//! graph with its ordering edges.
pub mod graph;
pub mod node;
pub mod pipeline;
pub mod plugin;
pub mod settings;
pub mod stager;
pub mod world;
