//! The secret scan as a whole: the gitleaks version in use, and the one
//! result that scanning each existing touched file gives.

use vstd::prelude::*;

use crate::checks::gitleaks::report::{outcome_view, ScanOutcome};
use crate::checks::gitleaks::result::{
    failed, failure_message, is_scan_result, passed_with_version, unverified, version_view, Finding,
};
use crate::checks::{EnforcementResult, Status};
use crate::text::{trim, visible};

verus! {

/// The version line `gitleaks version` printed: its trimmed output after
/// `gitleaks `, when it exited 0 with something to say.
pub open spec fn version_outcome(code: Option<i32>, stdout: Seq<u8>) -> Option<Seq<char>> {
    let v = trim(crate::text::lossy_decoded(stdout));
    if code != Some(0i32) || v.len() == 0 {
        None
    } else {
        Some("gitleaks "@ + v)
    }
}

pub fn installed_version(code: Option<i32>, stdout: &[u8]) -> (r: Option<String>)
    ensures
        version_view(r) == version_outcome(code, stdout@),
{
    match code {
        Some(c) => if c != 0 {
            return None;
        },
        None => return None,
    }
    let raw = crate::text::lossy_text(stdout);
    let c = crate::text::chars_of(raw.as_str());
    let t = crate::text::trim_exec(c.as_slice());
    if t.len() == 0 {
        return None;
    }
    let v = crate::text::string_of(t.as_slice());
    Some(crate::text::concat2("gitleaks ", v.as_str()))
}

/// Scans in order: the first that could not be trusted decides; else the
/// findings of all of them.
pub open spec fn scans_outcome(outs: Seq<ScanOutcome>) -> Result<Seq<Finding>, Seq<char>>
    decreases outs.len(),
{
    if outs.len() == 0 {
        Ok(seq![])
    } else {
        match scans_outcome(outs.drop_last()) {
            Err(e) => Err(e),
            Ok(fs) => match outcome_view(outs.last()) {
                Err(e) => Err(e),
                Ok(more) => Ok(fs + more),
            },
        }
    }
}

/// The one result of scanning the existing touched files (`outcomes`, one
/// per file, in order) with the given gitleaks version: unverified at the
/// first untrusted scan, a pass when nothing was found, else a failure for
/// every finding.
pub fn scan(version: Option<String>, outcomes: Vec<ScanOutcome>) -> (r: EnforcementResult)
    ensures
        match scans_outcome(outcomes@) {
            Err(reason) => is_scan_result(
                r,
                Status::Unverified,
                "Secret scan could not run ("@ + reason + ")."@,
                Some("install gitleaks (see https://github.com/gitleaks/gitleaks) or run `quality_gate doctor`"@),
                version_view(version),
            ),
            Ok(fs) => if fs.len() == 0 {
                is_scan_result(r, Status::Passed, "No committed secrets detected in the touched files."@, None, version_view(version))
            } else {
                r.status == Status::Failed && r.message@ == failure_message(fs) && r.locations@.len() == fs.len()
                    && (forall|k: int| 0 <= k < fs.len() ==> (#[trigger] r.locations@[k]).file@ == visible(fs[k].file@)
                    && r.locations@[k].line == Some(fs[k].start_line))
                    && version_view(r.evidence.tool_version) == version_view(version)
            },
        },
{
    let mut all: Vec<Finding> = Vec::new();
    let mut i: usize = 0;
    assert(outcomes@.take(0) =~= Seq::<ScanOutcome>::empty());
    while i < outcomes.len()
        invariant
            i <= outcomes.len(),
            scans_outcome(outcomes@.take(i as int)) == Ok::<Seq<Finding>, Seq<char>>(all@),
        decreases outcomes.len() - i,
    {
        assert(outcomes@.take(i + 1).drop_last() =~= outcomes@.take(i as int));
        assert(outcomes@.take(i + 1).last() == outcomes@[i as int]);
        match &outcomes[i] {
            ScanOutcome::Unverified(reason) => {
                proof {
                    lemma_scans_stop(outcomes@, (i + 1) as int);
                }
                return unverified(reason.clone(), version);
            },
            ScanOutcome::Findings(f) => {
                let ghost before = all@;
                let mut k: usize = 0;
                while k < f.len()
                    invariant
                        k <= f.len(),
                        all@ == before + f@.take(k as int),
                    decreases f.len() - k,
                {
                    all.push(f[k].clone_finding());
                    k += 1;
                    assert(all@ =~= before + f@.take(k as int));
                }
                assert(f@.take(f.len() as int) =~= f@);
            },
        }
        i += 1;
    }
    assert(outcomes@.take(outcomes.len() as int) =~= outcomes@);
    if all.len() == 0 {
        passed_with_version(version)
    } else {
        failed(&all, version)
    }
}

proof fn lemma_scans_stop(outs: Seq<ScanOutcome>, j: int)
    requires
        0 < j <= outs.len(),
        scans_outcome(outs.take(j)) is Err,
    ensures
        scans_outcome(outs) == scans_outcome(outs.take(j)),
    decreases outs.len() - j,
{
    if j < outs.len() {
        assert(outs.take(j + 1).drop_last() =~= outs.take(j));
        lemma_scans_stop(outs, j + 1);
    } else {
        assert(outs.take(j) =~= outs);
    }
}

} // verus!
