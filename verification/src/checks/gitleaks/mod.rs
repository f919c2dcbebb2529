//! Secret scanning with gitleaks: what its exit codes and reports mean, and how
//! findings become results that never echo the secret itself.

pub mod api;
pub mod report;
pub mod result;
pub mod runner;
