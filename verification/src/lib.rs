//! Core of a Dock-icon suppression manager for macOS application bundles.
//!
//! The library keeps the set of bundles whose Dock presence is currently
//! suppressed (the registry), decides which dropped paths may join that set,
//! flips the suppression key inside a bundle's metadata document, turns the
//! registry into scripts for the rendered list, and encodes the registry for
//! persistence across restarts.  Windowing, drag-and-drop transport and file
//! reads live outside the library and hand it plain values.

pub mod laws;
pub mod metadata;
pub mod paths;
pub mod persist;
pub mod registry;
pub mod render;
pub mod router;
pub mod strings;
