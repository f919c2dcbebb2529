//! Public-endpoint signals of common Python and TypeScript frameworks.

use vstd::prelude::*;

use crate::checks::commands::supervisor::decimal;
use crate::checks::languages::{found_views, loc_views};
use crate::checks::review::{
    count_message, is_review_result, review_found, review_locations, review_result, review_status,
    review_status_exec, Review,
};
use crate::checks::{EnforcementResult, Severity, Status};

verus! {

/// The message for `n` findings.
pub open spec fn message(n: nat) -> Seq<char> {
    if n == 0 {
        "No supported public endpoint signal was found."@
    } else {
        "Review "@ + decimal(n) + " public endpoint signal(s) for validation, auth, rate limits, and secure defaults."@
    }
}

/// The review of the touched files (each with its source, or `None` when it
/// could not be read): one result, not applicable without files, passed
/// without findings, otherwise a warning locating every flagged line.
pub fn scan(files: &Vec<(String, Option<String>)>) -> (r: Vec<EnforcementResult>)
    ensures
        r@.len() == 1,
        ({
            let found = review_found(Review::Endpoints, ""@, files@);
            let status = review_status(files@.len() == 0, found.len());
            is_review_result(
                r@[0],
                "public-endpoint-review"@,
                status,
                Severity::Warning,
                message(found.len()),
                found,
                if status == Status::Warning {
                    Some("Add boundary validation, server-side authorization, rate limiting, and secure cookie/CORS/CSRF/debug settings; document evidence."@)
                } else {
                    None
                },
                "native.public-endpoints"@,
            )
        }),
{
    let locations = review_locations(Review::Endpoints, "", files);
    let n = locations.len();
    assert(loc_views(locations@).len() == found_views(review_found(Review::Endpoints, ""@, files@)).len());
    let status = review_status_exec(files.len() == 0, n);
    let text = if n == 0 {
        String::from_str("No supported public endpoint signal was found.")
    } else {
        count_message("Review ", n, " public endpoint signal(s) for validation, auth, rate limits, and secure defaults.")
    };
    let remediation = if status == Status::Warning {
        Some("Add boundary validation, server-side authorization, rate limiting, and secure cookie/CORS/CSRF/debug settings; document evidence.")
    } else {
        None
    };
    let result = review_result("public-endpoint-review", status, Severity::Warning, text, locations, remediation, "native.public-endpoints");
    let mut out: Vec<EnforcementResult> = Vec::new();
    out.push(result);
    out
}

} // verus!
