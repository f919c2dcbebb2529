//! What a gitleaks run's exit code and report mean, and the one result a scan
//! of several files gives.

use vstd::prelude::*;

use crate::checks::gitleaks::result::Finding;
use crate::text::trim;

verus! {

/// The largest report or output read from gitleaks.
pub const MAX_CAPTURE_BYTES: u64 = 262144;

/// A scan's findings, or why it could not be trusted.
#[derive(Debug, Clone, PartialEq, Eq)]
pub enum ScanOutcome {
    Findings(Vec<Finding>),
    Unverified(String),
}

pub open spec fn outcome_view(o: ScanOutcome) -> Result<Seq<Finding>, Seq<char>> {
    match o {
        ScanOutcome::Findings(f) => Ok(f@),
        ScanOutcome::Unverified(r) => Err(r@),
    }
}

/// What reading the report gave: blank text, text that is not a report (with
/// the parser's message), or the report's findings.
#[derive(Debug, Clone, PartialEq, Eq)]
pub enum ReportRead {
    Blank,
    Unparsed(String),
    Parsed(Vec<Finding>),
}

/// Report text that is empty once trimmed.
pub fn report_is_blank(contents: &str) -> (r: bool)
    ensures
        r == (trim(contents@).len() == 0),
{
    let c = crate::text::chars_of(contents);
    crate::text::trim_exec(c.as_slice()).len() == 0
}

/// Exit 2 means leaks were reported (the report decides), 0 a clean scan;
/// any other exit, or none, leaves the scan unverified.
pub open spec fn exit_outcome(code: Option<i32>, report: ReportRead) -> Result<Seq<Finding>, Seq<char>> {
    match code {
        Some(c) => if c == 2 {
            match report {
                ReportRead::Blank => Err("gitleaks reported leaks but its report was empty or unreadable"@),
                ReportRead::Unparsed(e) => Err("could not parse gitleaks report ("@ + e@ + ")"@),
                ReportRead::Parsed(f) => Ok(f@),
            }
        } else if c == 0 {
            Ok(seq![])
        } else {
            Err("gitleaks exited with status "@ + crate::checks::commands::result::code_text(c))
        },
        None => Err("gitleaks was terminated by a signal"@),
    }
}

pub fn classify_exit(code: Option<i32>, report: ReportRead) -> (r: ScanOutcome)
    ensures
        outcome_view(r) == exit_outcome(code, report),
{
    match code {
        Some(c) => if c == 2 {
            match report {
                ReportRead::Blank => ScanOutcome::Unverified(
                    String::from_str("gitleaks reported leaks but its report was empty or unreadable"),
                ),
                ReportRead::Unparsed(e) => ScanOutcome::Unverified(
                    crate::text::concat3("could not parse gitleaks report (", e.as_str(), ")"),
                ),
                ReportRead::Parsed(f) => ScanOutcome::Findings(f),
            }
        } else if c == 0 {
            let none: Vec<Finding> = Vec::new();
            assert(none@ =~= Seq::<Finding>::empty());
            ScanOutcome::Findings(none)
        } else {
            let n = crate::checks::commands::result::code_string(c);
            ScanOutcome::Unverified(crate::text::concat2("gitleaks exited with status ", n.as_str()))
        },
        None => ScanOutcome::Unverified(String::from_str("gitleaks was terminated by a signal")),
    }
}

/// A run that was not waited on, or whose process group could not be proven
/// gone, is unverified; otherwise its exit decides.
pub open spec fn cleanup_outcome(cleanup: Result<(), String>, status: Option<Option<i32>>, report: ReportRead) -> Result<Seq<Finding>, Seq<char>> {
    match status {
        None => Err("gitleaks timed out or could not be waited on"@),
        Some(code) => match cleanup {
            Err(e) => Err("could not prove gitleaks process-group cleanup: "@ + e@),
            Ok(_) => exit_outcome(code, report),
        },
    }
}

pub fn classify_after_cleanup(cleanup: Result<(), String>, status: Option<Option<i32>>, report: ReportRead) -> (r: ScanOutcome)
    ensures
        outcome_view(r) == cleanup_outcome(cleanup, status, report),
{
    let code = match status {
        None => return ScanOutcome::Unverified(String::from_str("gitleaks timed out or could not be waited on")),
        Some(code) => code,
    };
    if let Err(e) = cleanup {
        return ScanOutcome::Unverified(crate::text::concat2("could not prove gitleaks process-group cleanup: ", e.as_str()));
    }
    classify_exit(code, report)
}

} // verus!
