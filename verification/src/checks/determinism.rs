//! Determinism review of unit-test files: real sleeps, unseeded randomness
//! and network calls, outside integration and end-to-end tests.

use vstd::prelude::*;

use crate::checks::commands::supervisor::decimal;
use crate::checks::languages::{found_views, loc_views};
use crate::checks::review::{
    count_message, is_review_result, review_found, review_locations, review_result, review_status,
    review_status_exec, Review,
};
use crate::checks::{EnforcementResult, Severity, Status};

verus! {

/// The message for `n` findings.
pub open spec fn message(n: nat) -> Seq<char> {
    if n == 0 {
        "No high-confidence nondeterminism signals were found in unit-test paths."@
    } else {
        "Review "@ + decimal(n) + " nondeterminism signal(s) or mark the test as integration/e2e."@
    }
}

/// The review of the touched files (each with its source, or `None` when it
/// could not be read): one result, not applicable without files, passed
/// without findings, otherwise a warning locating every flagged line.
pub fn scan(files: &Vec<(String, Option<String>)>) -> (r: Vec<EnforcementResult>)
    ensures
        r@.len() == 1,
        ({
            let found = review_found(Review::Determinism, ""@, files@);
            let status = review_status(files@.len() == 0, found.len());
            is_review_result(
                r@[0],
                "determinism-review"@,
                status,
                Severity::Warning,
                message(found.len()),
                found,
                if status == Status::Warning {
                    Some("Seed randomness, replace real sleeps/network calls, isolate fixtures, or explicitly mark integration/e2e scope."@)
                } else {
                    None
                },
                "native.determinism"@,
            )
        }),
{
    let locations = review_locations(Review::Determinism, "", files);
    let n = locations.len();
    assert(loc_views(locations@).len() == found_views(review_found(Review::Determinism, ""@, files@)).len());
    let status = review_status_exec(files.len() == 0, n);
    let text = if n == 0 {
        String::from_str("No high-confidence nondeterminism signals were found in unit-test paths.")
    } else {
        count_message("Review ", n, " nondeterminism signal(s) or mark the test as integration/e2e.")
    };
    let remediation = if status == Status::Warning {
        Some("Seed randomness, replace real sleeps/network calls, isolate fixtures, or explicitly mark integration/e2e scope.")
    } else {
        None
    };
    let result = review_result("determinism-review", status, Severity::Warning, text, locations, remediation, "native.determinism");
    let mut out: Vec<EnforcementResult> = Vec::new();
    out.push(result);
    out
}

} // verus!
