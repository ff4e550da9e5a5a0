//! Locates and retrieves historical Chromium build artifacts published under a
//! sequential numeric versioning scheme in a cloud object store.
//!
//! The heart of the library is the build-version resolution algorithm (the
//! digit-prefix narrowing search), the channel aggregation that decides which
//! branch points to fetch, and the progress accounting shared by concurrent
//! fetch pipelines. All of it is verified; network and filesystem work stays
//! with the callers.

pub mod builds;
pub mod channels;
pub mod collections;
pub mod config;
pub mod filter;
pub mod orchestrate;
pub mod releases;
pub mod progress;
pub mod resolver;
pub mod text;
