//! Required repository commands: their configuration, the contained runs
//! that check them, and the results those runs produce.

pub mod config;
pub mod result;
pub mod runner;
pub mod supervisor;
