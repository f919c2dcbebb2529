//! The decisions of a command gate: how a configured command line becomes an
//! argv, how the aggregate budget hands out deadlines, and what each run
//! records. Running the commands themselves is the caller's work.

use vstd::prelude::*;

use crate::checks::commands::result::{
    classify_contained, contained_reason, is_command_result, not_applicable, result,
    unverified_for_budget, unverified_for_containment, CommandEvidence, RunResults,
};
use crate::checks::commands::supervisor::{Captured, ContainedRunError};
use crate::checks::{EnforcementResult, Status};
use crate::text::{chars_of, has_control, has_control_exec, join_spaced, join_with_spaces, views};

verus! {

/// The fixed wall-clock budget of one Stop-facing command gate, in seconds.
pub const STOP_COMMAND_BUDGET_SECONDS: u64 = 3600;

/// The words `shlex::split` makes of a command line, `None` when its quoting
/// is invalid.
pub uninterp spec fn shlex_words(s: Seq<char>) -> Option<Seq<Seq<char>>>;

/// `shlex::split`: splits a command line the way a POSIX shell would,
/// without expanding anything; `None` for unbalanced quoting or a trailing
/// backslash. The result depends on the text alone.
#[verifier::external_body]
pub(crate) fn shlex_split(command: &str) -> (r: Option<Vec<String>>)
    ensures
        match r {
            Some(v) => shlex_words(command@) == Some(views(v@)),
            None => shlex_words(command@) is None,
        },
{
    shlex::split(command)
}

pub open spec fn is_operator_char(c: char) -> bool {
    c == ';' || c == '|' || c == '&' || c == '>' || c == '<'
}

pub open spec fn has_operator_char(s: Seq<char>) -> bool {
    exists|i: int| 0 <= i < s.len() && is_operator_char(#[trigger] s[i])
}

/// What a split command line must still pass: it has a program, the program
/// is not an environment assignment, and no word holds a shell operator.
pub open spec fn argv_verdict(words: Option<Seq<Seq<char>>>) -> Result<Seq<Seq<char>>, Seq<char>> {
    match words {
        None => Err("invalid quoting"@),
        Some(w) => if w.len() == 0 {
            Err("empty command"@)
        } else if w[0].contains('=') {
            Err("environment assignments are not allowed"@)
        } else if exists|k: int| 0 <= k < w.len() && has_operator_char(#[trigger] w[k]) {
            Err("shell operators are not allowed"@)
        } else {
            Ok(w)
        },
    }
}

fn word_has_operator(s: &str) -> (r: bool)
    ensures
        r == has_operator_char(s@),
{
    let c = chars_of(s);
    let mut i: usize = 0;
    while i < c.len()
        invariant
            c@ == s@,
            i <= c.len(),
            forall|j: int| 0 <= j < i ==> !is_operator_char(#[trigger] c@[j]),
        decreases c.len() - i,
    {
        let x = c[i];
        if x == ';' || x == '|' || x == '&' || x == '>' || x == '<' {
            assert(is_operator_char(c@[i as int]));
            return true;
        }
        i += 1;
    }
    false
}

/// Checks the words a command line was split into.
#[verifier::loop_isolation(false)]
pub fn vet_argv(words: Option<Vec<String>>) -> (r: Result<Vec<String>, String>)
    ensures
        match (r, argv_verdict(
            match words {
                Some(w) => Some(views(w@)),
                None => None,
            },
        )) {
            (Ok(v), Ok(w)) => views(v@) == w,
            (Err(e), Err(m)) => e@ == m,
            _ => false,
        },
{
    let argv = match words {
        Some(w) => w,
        None => return Err(String::from_str("invalid quoting")),
    };
    if argv.len() == 0 {
        return Err(String::from_str("empty command"));
    }
    let first = chars_of(argv[0].as_str());
    if crate::text::has_char_exec(first.as_slice(), '=') {
        assert(views(argv@)[0] == argv@[0]@);
        return Err(String::from_str("environment assignments are not allowed"));
    }
    let mut k: usize = 0;
    while k < argv.len()
        invariant
            k <= argv.len(),
            forall|j: int| 0 <= j < k ==> !has_operator_char(#[trigger] views(argv@)[j]),
        decreases argv.len() - k,
    {
        if word_has_operator(argv[k].as_str()) {
            assert(has_operator_char(views(argv@)[k as int]));
            return Err(String::from_str("shell operators are not allowed"));
        }
        k += 1;
    }
    assert(views(argv@)[0] == argv@[0]@);
    Ok(argv)
}

/// How a configured command line becomes an argv: comments and control
/// characters are refused before splitting.
pub open spec fn parse_verdict(command: Seq<char>) -> Result<Seq<Seq<char>>, Seq<char>> {
    if command.contains('#') || has_control(command) {
        Err("comments and control characters are not allowed"@)
    } else {
        argv_verdict(shlex_words(command))
    }
}

pub fn parse(command: &str) -> (r: Result<Vec<String>, String>)
    ensures
        match (r, parse_verdict(command@)) {
            (Ok(v), Ok(w)) => views(v@) == w,
            (Err(e), Err(m)) => e@ == m,
            _ => false,
        },
{
    let c = chars_of(command);
    if crate::text::has_char_exec(c.as_slice(), '#') || has_control_exec(c.as_slice()) {
        return Err(String::from_str("comments and control characters are not allowed"));
    }
    vet_argv(shlex_split(command))
}

/// The aggregate wall-clock budget of a command gate, on the monotonic clock
/// in nanoseconds. Once containment fails, no further command is started.
#[derive(Debug, Clone, Copy, PartialEq, Eq, Structural)]
pub struct ExecutionBudget {
    pub deadline_ns: Option<u64>,
    pub exhausted: bool,
    pub containment_failed: bool,
}

impl ExecutionBudget {
    /// A budget that ends `limit_ns` after `now_ns`.
    pub fn new(now_ns: u64, limit_ns: u64) -> (r: Self)
        requires
            now_ns + limit_ns <= u64::MAX,
        ensures
            r.deadline_ns == Some((now_ns + limit_ns) as u64),
            !r.exhausted,
            !r.containment_failed,
    {
        ExecutionBudget { deadline_ns: Some(now_ns + limit_ns), exhausted: false, containment_failed: false }
    }

    /// A budget with no aggregate deadline.
    pub fn unlimited() -> (r: Self)
        ensures
            r.deadline_ns is None,
            !r.exhausted,
            !r.containment_failed,
    {
        ExecutionBudget { deadline_ns: None, exhausted: false, containment_failed: false }
    }

    pub fn is_exhausted(&self) -> (r: bool)
        ensures
            r == self.exhausted,
    {
        self.exhausted
    }

    pub fn containment_failed(&self) -> (r: bool)
        ensures
            r == self.containment_failed,
    {
        self.containment_failed
    }

    /// The deadline of a command configured to run `configured_ns`: the
    /// earlier of its own and the run's, or none once the run's has passed
    /// (which exhausts the budget). A deadline past the clock's range is the
    /// clock's last instant.
    pub fn deadline_for(&mut self, now_ns: u64, configured_ns: u64) -> (r: Option<u64>)
        ensures
            final(self).containment_failed == old(self).containment_failed,
            final(self).deadline_ns == old(self).deadline_ns,
            ({
                let own = own_deadline(now_ns, configured_ns as int);
                match old(self).deadline_ns {
                    None => r == Some(own) && final(self).exhausted == old(self).exhausted,
                    Some(gate) => if now_ns >= gate {
                        r is None && final(self).exhausted
                    } else {
                        r == Some(if own <= gate { own } else { gate })
                            && final(self).exhausted == old(self).exhausted
                    },
                }
            }),
    {
        let own = now_ns.saturating_add(configured_ns);
        match self.deadline_ns {
            None => Some(own),
            Some(gate) => {
                if now_ns >= gate {
                    self.exhausted = true;
                    None
                } else if own <= gate {
                    Some(own)
                } else {
                    Some(gate)
                }
            },
        }
    }

    /// Whether the run's deadline has passed; passing it exhausts the budget.
    pub fn expired(&mut self, now_ns: u64) -> (r: bool)
        ensures
            r == (old(self).deadline_ns matches Some(gate) && now_ns >= gate),
            final(self).exhausted == (old(self).exhausted || r),
            final(self).deadline_ns == old(self).deadline_ns,
            final(self).containment_failed == old(self).containment_failed,
    {
        match self.deadline_ns {
            Some(gate) => {
                if now_ns >= gate {
                    self.exhausted = true;
                    true
                } else {
                    false
                }
            },
            None => false,
        }
    }

    /// Records a run's outcome: any containment error stops further runs.
    pub fn record(&mut self, details: &Result<Captured, ContainedRunError>)
        ensures
            final(self).containment_failed == (old(self).containment_failed || is_containment_error(
                *details,
            )),
            final(self).exhausted == old(self).exhausted,
            final(self).deadline_ns == old(self).deadline_ns,
    {
        let failed = match details {
            Err(ContainedRunError::ContainmentUnavailable) => true,
            Err(ContainedRunError::ContainmentViolation) => true,
            Err(ContainedRunError::ContainmentUnproven) => true,
            _ => false,
        };
        if failed {
            self.containment_failed = true;
        }
    }
}

/// A command's own deadline: `configured` after `now`, or the clock's last
/// instant when that lies beyond it.
pub open spec fn own_deadline(now_ns: u64, configured: int) -> u64 {
    if now_ns + configured <= u64::MAX {
        (now_ns + configured) as u64
    } else {
        u64::MAX
    }
}

pub open spec fn is_containment_error(details: Result<Captured, ContainedRunError>) -> bool {
    match details {
        Err(ContainedRunError::ContainmentUnavailable) => true,
        Err(ContainedRunError::ContainmentViolation) => true,
        Err(ContainedRunError::ContainmentUnproven) => true,
        _ => false,
    }
}

/// A structured command: an argv run in a workspace directory.
#[derive(Debug, Clone, PartialEq, Eq)]
pub struct StructuredCommand {
    pub argv: Vec<String>,
    pub cwd: String,
    pub workspace_id: String,
    pub tier: String,
    pub timeout_seconds: u64,
}

/// A coverage command of a workspace.
#[derive(Debug, Clone, PartialEq, Eq)]
pub struct CoverageCommand {
    pub workspace_id: String,
    pub argv: Vec<String>,
    pub cwd: String,
    pub timeout_seconds: u64,
    pub scope: String,
    pub line_threshold_percent: Option<u8>,
    pub branch_threshold_percent: Option<u8>,
}

fn clone_argv(xs: &Vec<String>) -> (r: Vec<String>)
    ensures
        r@ == xs@,
{
    let mut r: Vec<String> = Vec::new();
    let mut i: usize = 0;
    while i < xs.len()
        invariant
            i <= xs.len(),
            r@ == xs@.take(i as int),
        decreases xs.len() - i,
    {
        r.push(xs[i].clone());
        i += 1;
        assert(r@ =~= xs@.take(i as int));
    }
    assert(xs@.take(xs.len() as int) =~= xs@);
    r
}

/// Evidence of a structured command.
pub fn structured_evidence(
    command: &StructuredCommand,
    display: &str,
    exit_code: Option<i32>,
    duration_ms: u64,
    started_at_ms: Option<u128>,
    finished_at_ms: Option<u128>,
) -> (r: CommandEvidence)
    ensures
        r.command@ == display@,
        r.exit_code == exit_code,
        r.duration_ms == duration_ms,
        r.argv@ == command.argv@,
        r.cwd matches Some(c) && c@ == command.cwd@,
        r.workspace_id matches Some(w) && w@ == command.workspace_id@,
        r.config_digest is None,
        r.touched_files_digest is None,
        r.policy_version is None,
        r.binary_version is None,
        r.started_at_ms == started_at_ms,
        r.finished_at_ms == finished_at_ms,
{
    CommandEvidence {
        command: String::from_str(display),
        exit_code,
        duration_ms,
        argv: clone_argv(&command.argv),
        cwd: Some(command.cwd.clone()),
        workspace_id: Some(command.workspace_id.clone()),
        config_digest: None,
        touched_files_digest: None,
        policy_version: None,
        binary_version: None,
        started_at_ms,
        finished_at_ms,
    }
}

/// What the checker does with a structured command before running it.
pub enum StructuredStart {
    /// Run it with this deadline.
    Run(u64),
    /// Record it as not run, with this evidence and result.
    Skip(CommandEvidence, EnforcementResult),
}

/// The evidence of a structured command that was not started: its display
/// form, argv, working directory and workspace, with no exit code, no
/// duration and no times.
pub open spec fn unrun_evidence(command: StructuredCommand, e: CommandEvidence) -> bool {
    &&& e.command@ == join_spaced(views(command.argv@))
    &&& e.exit_code is None
    &&& e.duration_ms == 0
    &&& e.argv@ == command.argv@
    &&& e.cwd matches Some(c) && c@ == command.cwd@
    &&& e.workspace_id matches Some(w) && w@ == command.workspace_id@
    &&& e.config_digest is None
    &&& e.touched_files_digest is None
    &&& e.policy_version is None
    &&& e.binary_version is None
    &&& e.started_at_ms is None
    &&& e.finished_at_ms is None
}

/// Before a structured command: after a containment failure it is not
/// started; once the run's deadline has passed it is not started either;
/// otherwise it runs until the earlier of its own deadline and the run's.
pub fn start_structured(
    budget: &mut ExecutionBudget,
    now_ns: u64,
    command: &StructuredCommand,
) -> (r: StructuredStart)
    ensures
        final(budget).containment_failed == old(budget).containment_failed,
        final(budget).deadline_ns == old(budget).deadline_ns,
        old(budget).containment_failed ==> final(budget).exhausted == old(budget).exhausted
            && (r matches StructuredStart::Skip(e, res) && unrun_evidence(*command, e) && is_command_result(
            res,
            join_spaced(views(command.argv@)),
            Status::Unverified,
            "was not started after descendant containment failed"@,
        )),
        !old(budget).containment_failed ==> ({
            let own = own_deadline(now_ns, command.timeout_seconds * 1000000000);
            match old(budget).deadline_ns {
                Some(gate) if now_ns >= gate => final(budget).exhausted && (r matches StructuredStart::Skip(
                    e,
                    res,
                ) && unrun_evidence(*command, e) && is_command_result(
                    res,
                    join_spaced(views(command.argv@)),
                    Status::Unverified,
                    "was not completed before the aggregate execution budget expired"@,
                )),
                Some(gate) => r == StructuredStart::Run(if own <= gate { own } else { gate })
                    && final(budget).exhausted == old(budget).exhausted,
                None => r == StructuredStart::Run(own) && final(budget).exhausted == old(budget).exhausted,
            }
        }),
{
    let display = join_with_spaces(command.argv.as_slice());
    if budget.containment_failed {
        let e = structured_evidence(command, display.as_str(), None, 0, None, None);
        let res = unverified_for_containment(display.as_str());
        return StructuredStart::Skip(e, res);
    }
    let configured_ns = match command.timeout_seconds.checked_mul(1000000000) {
        Some(n) => n,
        None => u64::MAX,
    };
    proof {
        assert(own_deadline(now_ns, configured_ns as int) == own_deadline(now_ns, command.timeout_seconds * 1000000000))
            by (nonlinear_arith)
            requires
                configured_ns == if command.timeout_seconds * 1000000000 <= u64::MAX {
                    command.timeout_seconds * 1000000000
                } else {
                    u64::MAX as int
                },
        {
        }
    }
    match budget.deadline_for(now_ns, configured_ns) {
        Some(d) => StructuredStart::Run(d),
        None => {
            let e = structured_evidence(command, display.as_str(), None, 0, None, None);
            let res = unverified_for_budget(display.as_str());
            StructuredStart::Skip(e, res)
        },
    }
}

/// After a structured command ran: a containment error stops later runs; a
/// run that ends after the run's deadline is unverified and its exit code
/// is not kept; otherwise the run is classified.
pub fn finish_structured(
    budget: &mut ExecutionBudget,
    now_ns: u64,
    command: &StructuredCommand,
    details: &Result<Captured, ContainedRunError>,
    duration_ms: u64,
    started_at_ms: u128,
    finished_at_ms: u128,
) -> (r: (CommandEvidence, EnforcementResult))
    ensures
        final(budget).containment_failed == (old(budget).containment_failed
            || is_containment_error(*details)),
        ({
            let expired = old(budget).deadline_ns matches Some(gate) && now_ns >= gate;
            let display = join_spaced(views(command.argv@));
            &&& final(budget).exhausted == (old(budget).exhausted || expired)
            &&& r.0.command@ == display
            &&& r.0.exit_code == (if expired {
                None
            } else {
                match details {
                    Ok(d) => d.code,
                    Err(_) => None,
                }
            })
            &&& r.0.duration_ms == duration_ms
            &&& r.0.started_at_ms == Some(started_at_ms)
            &&& r.0.finished_at_ms == Some(finished_at_ms)
            &&& if expired {
                is_command_result(
                    r.1,
                    display,
                    Status::Unverified,
                    "was not completed before the aggregate execution budget expired"@,
                )
            } else {
                is_command_result(
                    r.1,
                    display,
                    contained_reason(*details).0,
                    contained_reason(*details).1,
                )
            }
        }),
{
    budget.record(details);
    let expired = budget.expired(now_ns);
    let display = join_with_spaces(command.argv.as_slice());
    let code = if expired {
        None
    } else {
        match details {
            Ok(d) => d.code,
            Err(_) => None,
        }
    };
    let e = structured_evidence(
        command,
        display.as_str(),
        code,
        duration_ms,
        Some(started_at_ms),
        Some(finished_at_ms),
    );
    let res = if expired {
        unverified_for_budget(display.as_str())
    } else {
        classify_contained(display.as_str(), details)
    };
    (e, res)
}

/// The evidence of a shell-form command that could not be parsed or ran.
pub fn plain_evidence(command: &str, exit_code: Option<i32>, duration_ms: u64) -> (r:
    CommandEvidence)
    ensures
        r.command@ == command@,
        r.exit_code == exit_code,
        r.duration_ms == duration_ms,
        r.argv@.len() == 0,
        r.cwd is None,
        r.workspace_id is None,
        r.started_at_ms is None,
        r.finished_at_ms is None,
{
    CommandEvidence {
        command: String::from_str(command),
        exit_code,
        duration_ms,
        argv: Vec::new(),
        cwd: None,
        workspace_id: None,
        config_digest: None,
        touched_files_digest: None,
        policy_version: None,
        binary_version: None,
        started_at_ms: None,
        finished_at_ms: None,
    }
}

/// A shell-form command that cannot be parsed is unverified and not run.
pub fn unparsed_command(command: &str, reason: &str) -> (r: (CommandEvidence, EnforcementResult))
    ensures
        r.0.command@ == command@,
        r.0.exit_code is None,
        r.0.duration_ms == 0,
        is_command_result(r.1, command@, Status::Unverified, "could not run ("@ + reason@ + ")"@),
{
    let why = crate::text::concat3("could not run (", reason, ")");
    (plain_evidence(command, None, 0), result(command, Status::Unverified, why.as_str()))
}

/// The outcome of a shell-form command that ran.
pub fn ran_command(
    command: &str,
    details: &Result<Captured, ContainedRunError>,
    duration_ms: u64,
) -> (r: (CommandEvidence, EnforcementResult))
    ensures
        r.0.command@ == command@,
        r.0.exit_code == (match details {
            Ok(d) => d.code,
            Err(_) => None,
        }),
        r.0.duration_ms == duration_ms,
        is_command_result(
            r.1,
            command@,
            contained_reason(*details).0,
            contained_reason(*details).1,
        ),
{
    let code = match details {
        Ok(d) => d.code,
        Err(_) => None,
    };
    (plain_evidence(command, code, duration_ms), classify_contained(command, details))
}

/// The outcome of a command check when nothing is configured.
pub fn nothing_to_run() -> (r: RunResults)
    ensures
        r.evidence@.len() == 0,
        r.results@.len() == 1,
        is_command_result(
            r.results@[0],
            "configuration"@,
            Status::NotApplicable,
            "has no configured commands"@,
        ),
{
    let mut results: Vec<EnforcementResult> = Vec::new();
    results.push(not_applicable());
    RunResults { results, evidence: Vec::new() }
}

} // verus!
