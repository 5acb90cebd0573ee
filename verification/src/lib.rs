//! A minimal real-time rendering core: a Wavefront-style mesh importer that
//! produces deduplicated, GPU-ready vertex/index data, a model/texture store,
//! positioned entities, and a batching layer that groups entities by shared
//! model so each model is bound once per frame.
//!
//! Geometry coordinates are held as exact fixed-point scalars (nanounits), so
//! every stage from parsing to batching is stated and proved over plain
//! integer values; the host converts to floating point only at buffer upload.

pub mod camera;
pub mod entity;
pub mod light;
pub mod loader;
pub mod master_renderer;
pub mod model_texture;
pub mod raw_model;
pub mod scalar;
pub mod split;
pub mod textured_model;
