//! Compiling the policy rules selected for a task into a compact instruction
//! packet for the agent and a machine-readable enforcement plan.

pub mod packet;
pub mod plan;

use vstd::prelude::*;

verus! {

/// How strongly a rule binds: a hard requirement, or a point to review.
#[derive(Debug, Clone, Copy, PartialEq, Eq, Structural)]
pub enum Level {
    Must,
    Review,
}

/// A policy rule as compilation reads it: its id, level and instruction,
/// the checks that enforce it and the evidence it requires.
#[derive(Debug, Clone, PartialEq, Eq)]
pub struct Rule {
    pub id: String,
    pub level: Level,
    pub instruction: String,
    pub checks: Vec<String>,
    pub evidence: Vec<String>,
}

} // verus!
