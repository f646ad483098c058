//! Build orchestration for turning a compiled package and a declared asset
//! list into a native distribution package.
//!
//! The crate holds the decisions of a build run as verified functions on
//! plain values: expanding declared assets into a conflict-free manifest,
//! planning the content archive, assembling the template context, sequencing
//! the build commands and the pipeline stages, and checking a produced
//! package against what was declared.  Reading the disk, spawning processes
//! and rendering templates are left to the caller.

pub mod archive;
pub mod artifacts;
pub mod assets;
pub mod assets_proofs;
pub mod config;
pub mod definitions;
pub mod info;
pub mod layout;
pub mod numbers;
pub mod paths;
pub mod pipeline;
pub mod process;
pub mod render;
pub mod sorting;
pub mod text;
pub mod verify;
pub mod verify_proofs;
