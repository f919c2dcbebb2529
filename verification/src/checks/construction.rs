//! Review of unsafe boundaries built by string concatenation: shell
//! commands, HTML, SQL, URLs and JSON.

use vstd::prelude::*;

use crate::checks::commands::supervisor::decimal;
use crate::checks::languages::{found_views, loc_views};
use crate::checks::review::{
    count_message, is_review_result, review_found, review_locations, review_result, review_status,
    review_status_exec, Review,
};
use crate::checks::{EnforcementResult, Severity, Status};

verus! {

/// The message for `n` findings.
pub open spec fn message(n: nat) -> Seq<char> {
    if n == 0 {
        "No high-confidence string-built boundary signals were found."@
    } else {
        "Review "@ + decimal(n) + " string-built boundary signal(s); use contextual builders and escaping."@
    }
}

/// The review of the touched files (each with its source, or `None` when it
/// could not be read): one result, not applicable without files, passed
/// without findings, otherwise a warning locating every flagged line.
pub fn scan(files: &Vec<(String, Option<String>)>) -> (r: Vec<EnforcementResult>)
    ensures
        r@.len() == 1,
        ({
            let found = review_found(Review::Construction, ""@, files@);
            let status = review_status(files@.len() == 0, found.len());
            is_review_result(
                r@[0],
                "safe-construction-review"@,
                status,
                Severity::Warning,
                message(found.len()),
                found,
                if status == Status::Warning {
                    Some("Use parameterized SQL, argv/builders, contextual escaping, and typed serializers instead of concatenation."@)
                } else {
                    None
                },
                "native.safe-construction"@,
            )
        }),
{
    let locations = review_locations(Review::Construction, "", files);
    let n = locations.len();
    assert(loc_views(locations@).len() == found_views(review_found(Review::Construction, ""@, files@)).len());
    let status = review_status_exec(files.len() == 0, n);
    let text = if n == 0 {
        String::from_str("No high-confidence string-built boundary signals were found.")
    } else {
        count_message("Review ", n, " string-built boundary signal(s); use contextual builders and escaping.")
    };
    let remediation = if status == Status::Warning {
        Some("Use parameterized SQL, argv/builders, contextual escaping, and typed serializers instead of concatenation.")
    } else {
        None
    };
    let result = review_result("safe-construction-review", status, Severity::Warning, text, locations, remediation, "native.safe-construction");
    let mut out: Vec<EnforcementResult> = Vec::new();
    out.push(result);
    out
}

} // verus!
