//! Harnesses: the agent runtimes a bundle can capture and launch.

pub mod traits;
pub mod pi;
pub mod aider;
pub mod registry;
