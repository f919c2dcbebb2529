//! The enforcement-result type every check produces.
//!
//! A check either ran and found the rule satisfied (`Passed`), ran and found a
//! violation (`Failed`), or could not establish compliance (`Unverified`); a
//! missing tool is never reported as a pass.

pub mod auth;
pub mod boundary;
pub mod claims;
pub mod commands;
pub mod construction;
pub mod determinism;
pub mod diff;
pub mod endpoints;
pub mod gitleaks;
pub mod justification;
pub mod languages;
pub mod logging;
pub mod modules;
pub mod naming;
pub mod review;
pub mod ruff;
pub mod semgrep;
pub mod structure;
pub mod tiers;
pub mod ui;

use vstd::prelude::*;

verus! {

/// The outcome of evaluating one rule against one change.
#[derive(Debug, Clone, Copy, PartialEq, Eq, Structural)]
pub enum Status {
    Passed,
    Failed,
    Warning,
    Skipped,
    NotApplicable,
    Unverified,
    Overridden,
}

/// How strongly a rule's failure is enforced.
#[derive(Debug, Clone, Copy, PartialEq, Eq, Structural)]
pub enum Severity {
    Error,
    Warning,
    Info,
}

/// A source location a result points at; `line` is one-based when present.
#[derive(Debug, Clone, PartialEq, Eq)]
pub struct Location {
    pub file: String,
    pub line: Option<u64>,
}

/// Provenance of a result: the check, the tool version, and sanitized
/// tool-sourced descriptions kept out of agent-facing text.
#[derive(Debug, Clone, PartialEq, Eq)]
pub struct ResultEvidence {
    pub check: String,
    pub tool_version: Option<String>,
    pub finding_descriptions: Vec<String>,
}

/// The normalized outcome of one check against one rule.
#[derive(Debug, Clone, PartialEq, Eq)]
pub struct EnforcementResult {
    pub rule_id: String,
    pub status: Status,
    pub severity: Severity,
    pub message: String,
    pub locations: Vec<Location>,
    pub remediation: Option<String>,
    pub evidence: ResultEvidence,
}

impl Location {
    /// A copy of the location.
    pub fn clone_location(&self) -> (r: Location)
        ensures
            r.file@ == self.file@,
            r.line == self.line,
    {
        Location { file: self.file.clone(), line: self.line }
    }
}

impl EnforcementResult {
    /// True when this result records a violation the stop gate acts on: only
    /// `Failed` is a violation.
    pub fn is_failure(&self) -> (r: bool)
        ensures
            r == (self.status == Status::Failed),
    {
        self.status == Status::Failed
    }
}

} // verus!
