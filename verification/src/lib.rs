//! Enforcement logic for agent quality gates: hook protocol encoding, check
//! result normalization, repository configuration validation, change-set
//! analysis and bounded gitignore matching.

pub mod paths;
pub mod strset;
pub mod text;
pub mod checks;
pub mod compile;
pub mod config_v2;
pub mod config_decode;
pub mod discovery;
pub mod json;
pub mod adapter;
pub mod context;
pub mod detect;
pub mod doctor;
