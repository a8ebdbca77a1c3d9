//! A resource-management layer for GPU buffers and pipelines.
//!
//! The library tracks GPU-side buffers and compute/render pipelines by
//! opaque handles, caches each pipeline's realized binding set, and
//! invalidates that cache when a bound resource is replaced.  Dispatches
//! are either submitted immediately or queued and flushed as one batch;
//! completion callbacks are drained cooperatively by polling.
//!
//! The device itself (shader compilation, memory allocation, command
//! execution) is a boundary collaborator: callers drive it with the
//! decisions this library makes and hand back completion events.

pub mod binding;
pub mod buffer;
pub mod dispatch;
pub mod gpu;
pub mod handles;
pub mod pipeline;
pub mod registry;
