//! Registry of sandboxed plugins.
//!
//! The registry resolves a plugin identity to one shared instance, building
//! each identity at most once, and rewrites paths between the host's view
//! of the filesystem and the view that a sandboxed plugin has of it.

pub mod cache;
pub mod error;
pub mod identity;
pub mod manifest;
pub mod paths;
pub mod plan;
pub mod protocol;
pub mod registry;
