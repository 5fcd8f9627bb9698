//! Infrastructure: bundle storage and the environment an agent process runs
//! in.

pub mod bundle_store;
pub mod process;
