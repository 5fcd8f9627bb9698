//! agentpacknest — portable, reproducible bundles for coding agents.
//!
//! The library holds the rules of the bundle format: the manifest model and
//! its validation, harness descriptions, secret handling, payload integrity,
//! signing and the decisions taken when a bundle is packed or run.

pub mod domain;
pub mod security;
pub mod text;
pub mod paths;
pub mod hexfmt;
pub mod calendar;
pub mod system;
pub mod sorting;
pub mod utils;
pub mod pairmap;
pub mod infrastructure;
pub mod application;
pub mod harness;
pub mod cli;
