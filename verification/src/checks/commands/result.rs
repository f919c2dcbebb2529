//! Results and evidence of required repository commands.

use vstd::prelude::*;

use crate::checks::commands::supervisor::{decimal, decimal_string, Captured, ContainedRunError};
use crate::checks::{EnforcementResult, ResultEvidence, Severity, Status};
use crate::text::{concat3, strip_controls, visible};

verus! {

/// What was observed of one required command.
#[derive(Debug, Clone, PartialEq, Eq)]
pub struct CommandEvidence {
    pub command: String,
    pub exit_code: Option<i32>,
    pub duration_ms: u64,
    pub argv: Vec<String>,
    pub cwd: Option<String>,
    pub workspace_id: Option<String>,
    pub config_digest: Option<String>,
    pub touched_files_digest: Option<String>,
    pub policy_version: Option<String>,
    pub binary_version: Option<String>,
    pub started_at_ms: Option<u128>,
    pub finished_at_ms: Option<u128>,
}

/// The results of a command gate and the evidence behind them.
#[derive(Debug, Clone, PartialEq, Eq)]
pub struct RunResults {
    pub results: Vec<EnforcementResult>,
    pub evidence: Vec<CommandEvidence>,
}

/// The message of a command result.
pub open spec fn command_message(command: Seq<char>, reason: Seq<char>) -> Seq<char> {
    "Required repository command `"@ + visible(command) + "` "@ + reason + "."@
}

/// A result of the required-commands rule: an error-severity result that
/// names the command (control characters removed), with a remediation for
/// everything but a pass.
pub open spec fn is_command_result(
    r: EnforcementResult,
    command: Seq<char>,
    status: Status,
    reason: Seq<char>,
) -> bool {
    &&& r.rule_id@ == "required-repository-commands"@
    &&& r.status == status
    &&& r.severity == Severity::Error
    &&& r.message@ == command_message(command, reason)
    &&& r.locations@.len() == 0
    &&& (if status == Status::Passed {
        r.remediation is None
    } else {
        r.remediation matches Some(m) && m@ == "Fix the command or repository failure, then retry Stop."@
    })
    &&& r.evidence.check@ == "command.required"@
    &&& r.evidence.tool_version is None
    &&& r.evidence.finding_descriptions@.len() == 0
}

pub fn result(command: &str, status: Status, reason: &str) -> (r: EnforcementResult)
    ensures
        is_command_result(r, command@, status, reason@),
{
    let shown = strip_controls(command);
    let mut message = concat3("Required repository command `", shown.as_str(), "` ");
    message.append(reason);
    message.append(".");
    EnforcementResult {
        rule_id: String::from_str("required-repository-commands"),
        status,
        severity: Severity::Error,
        message,
        locations: Vec::new(),
        remediation: if status != Status::Passed {
            Some(String::from_str("Fix the command or repository failure, then retry Stop."))
        } else {
            None
        },
        evidence: ResultEvidence {
            check: String::from_str("command.required"),
            tool_version: None,
            finding_descriptions: Vec::new(),
        },
    }
}

/// The result when the command configuration itself could not be used.
pub fn config_unverified(reason: &str) -> (r: EnforcementResult)
    ensures
        is_command_result(
            r,
            "configuration"@,
            Status::Unverified,
            "could not run ("@ + reason@ + ")"@,
        ),
{
    let why = concat3("could not run (", reason, ")");
    result("configuration", Status::Unverified, why.as_str())
}

/// The result when no command is configured.
pub fn not_applicable() -> (r: EnforcementResult)
    ensures
        is_command_result(
            r,
            "configuration"@,
            Status::NotApplicable,
            "has no configured commands"@,
        ),
{
    result("configuration", Status::NotApplicable, "has no configured commands")
}

pub fn unverified_for_budget(command: &str) -> (r: EnforcementResult)
    ensures
        is_command_result(
            r,
            command@,
            Status::Unverified,
            "was not completed before the aggregate execution budget expired"@,
        ),
{
    result(
        command,
        Status::Unverified,
        "was not completed before the aggregate execution budget expired",
    )
}

pub fn unverified_for_containment(command: &str) -> (r: EnforcementResult)
    ensures
        is_command_result(
            r,
            command@,
            Status::Unverified,
            "was not started after descendant containment failed"@,
        ),
{
    result(command, Status::Unverified, "was not started after descendant containment failed")
}

/// The decimal text of a signed exit code.
pub open spec fn code_text(code: i32) -> Seq<char> {
    if code < 0 {
        seq!['-'] + decimal((-code) as nat)
    } else {
        decimal(code as nat)
    }
}

pub fn code_string(code: i32) -> (r: String)
    ensures
        r@ == code_text(code),
{
    if code < 0 {
        let magnitude: u64 = if code == i32::MIN {
            2147483648
        } else {
            (-code) as u64
        };
        let digits = decimal_string(magnitude);
        let mut r = String::from_str("-");
        r.append(digits.as_str());
        proof {
            reveal_strlit("-");
            assert(r@ =~= seq!['-'] + decimal((-code) as nat));
        }
        r
    } else {
        decimal_string(code as u64)
    }
}

/// The reason a contained run gives for its result.
pub open spec fn contained_reason(details: Result<Captured, ContainedRunError>) -> (Status, Seq<char>) {
    match details {
        Ok(d) => match d.code {
            Some(0i32) => (Status::Passed, "passed"@),
            Some(c) => (Status::Failed, "failed with exit status "@ + code_text(c)),
            None => (Status::Failed, "failed with exit status "@ + "signal"@),
        },
        Err(ContainedRunError::CouldNotRun) => (
            Status::Unverified,
            "could not run (missing, timed out, or wait failed)"@,
        ),
        Err(ContainedRunError::ContainmentUnavailable) => (
            Status::Unverified,
            "could not run (descendant containment is unavailable on this platform)"@,
        ),
        Err(ContainedRunError::ContainmentViolation) => (
            Status::Unverified,
            "could not pass (a descendant outlived the direct command and was terminated)"@,
        ),
        Err(ContainedRunError::ContainmentUnproven) => (
            Status::Unverified,
            "could not run (descendant containment could not be proven)"@,
        ),
    }
}

/// The result of a command run under containment: exit 0 passes, another
/// exit fails, and every containment error leaves the command unverified.
pub fn classify_contained(command: &str, details: &Result<Captured, ContainedRunError>) -> (r:
    EnforcementResult)
    ensures
        is_command_result(
            r,
            command@,
            contained_reason(*details).0,
            contained_reason(*details).1,
        ),
{
    match details {
        Ok(d) => match d.code {
            Some(0i32) => result(command, Status::Passed, "passed"),
            Some(c) => {
                let text = code_string(c);
                let mut reason = String::from_str("failed with exit status ");
                reason.append(text.as_str());
                result(command, Status::Failed, reason.as_str())
            },
            None => {
                let mut reason = String::from_str("failed with exit status ");
                reason.append("signal");
                result(command, Status::Failed, reason.as_str())
            },
        },
        Err(ContainedRunError::CouldNotRun) => result(
            command,
            Status::Unverified,
            "could not run (missing, timed out, or wait failed)",
        ),
        Err(ContainedRunError::ContainmentUnavailable) => result(
            command,
            Status::Unverified,
            "could not run (descendant containment is unavailable on this platform)",
        ),
        Err(ContainedRunError::ContainmentViolation) => result(
            command,
            Status::Unverified,
            "could not pass (a descendant outlived the direct command and was terminated)",
        ),
        Err(ContainedRunError::ContainmentUnproven) => result(
            command,
            Status::Unverified,
            "could not run (descendant containment could not be proven)",
        ),
    }
}

/// A contained run passes exactly when it completed with exit code 0; a run
/// that completed with any other code, or ended by a signal, fails and
/// names its exit status; a run without a trustworthy capture is unverified.
pub proof fn law_only_exit_zero_passes(command: Seq<char>, details: Result<Captured, ContainedRunError>, r: EnforcementResult)
    requires
        is_command_result(r, command, contained_reason(details).0, contained_reason(details).1),
    ensures
        (r.status == Status::Passed) == (details matches Ok(d) && d.code == Some(0i32)),
        match details {
            Ok(d) => d.code != Some(0i32) ==> r.status == Status::Failed && r.message@ == command_message(
                command,
                "failed with exit status "@ + match d.code {
                    Some(c) => code_text(c),
                    None => "signal"@,
                },
            ),
            Err(_) => true,
        },
        details is Err ==> r.status == Status::Unverified,
{
}

} // verus!
