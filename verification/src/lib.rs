//! Verified core of a native plugin host.
//!
//! The host discovers plugin manifests on disk, republishes each plugin's
//! bundled web UI under a stable served path, keeps a registry of loaded
//! plugins, and dispatches requests to a cached per-plugin handler.  This
//! crate holds the verified logic: manifest parsing, id derivation, path
//! normalization and publish planning, the registry, the bounded LRU handler
//! cache, and the invocation state machine.  Filesystem traversal, symlink
//! creation and the dynamic-library FFI stay outside, in the host binary,
//! which drives this crate through plain values.

pub mod cache;
pub mod config;
pub mod errors;
pub mod ids;
pub mod manager;
pub mod parse;
pub mod manifest;
pub mod paths;
pub mod registry;
pub mod resp;
pub mod scan;
pub mod search;
pub mod strings;
