//! Small utilities: ignore patterns for packing.

pub mod ignore;
