//! Scene composition core of a small real-time renderer: asset identity and
//! caching, model assembly from parsed mesh data, the assets manifest, scene
//! object resolution, the lighting uniform protocol, the per-frame pass order
//! and the offscreen framebuffer lifecycle.
//!
//! Everything that touches the GPU, the file system or floating-point data is
//! done by the caller; this crate decides what is loaded, shared, uploaded and
//! drawn, and in which order.

pub mod identity;
pub mod mesh;
pub mod model;
pub mod assets_cache;
pub mod manifest;
pub mod scene;
pub mod lighting;
pub mod framebuffer;
