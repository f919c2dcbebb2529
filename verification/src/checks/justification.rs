//! Justification metadata of temporary and disabled code: a `TODO`, `FIXME`,
//! temporary or disabling marker must name a reason, an owner, an expiry date
//! and a deletion condition, and its expiry must not have passed.

use vstd::prelude::*;

use crate::checks::commands::supervisor::decimal;
use crate::checks::languages::{found_views, loc_views};
use crate::checks::review::{count_message, is_review_result, review_found, review_locations, review_result, Review};
use crate::checks::{EnforcementResult, Severity, Status};

verus! {

/// The status, severity and message for `found` flagged markers, some of
/// them expired when `expired`.
pub open spec fn justification_outcome(no_files: bool, expired: bool, found: nat) -> (Status, Severity, Seq<char>) {
    if no_files {
        (Status::NotApplicable, Severity::Warning, "Temporary and disabled-code markers have complete justification metadata."@)
    } else if expired {
        (Status::Failed, Severity::Error, "Expired justification metadata must be removed or renewed."@)
    } else if found == 0 {
        (Status::Passed, Severity::Warning, "Temporary and disabled-code markers have complete justification metadata."@)
    } else {
        (
            Status::Warning,
            Severity::Warning,
            "Review "@ + decimal(found) + " marker(s) missing owner, reason, expiry, or deletion condition."@,
        )
    }
}

/// The review of the touched files (each with its source, or `None` when it
/// could not be read) on the day `today` (`YYYY-MM-DD`): markers lacking
/// metadata warn, an expired one fails, and every flagged marker is
/// located.
pub fn scan(files: &Vec<(String, Option<String>)>, today: &str) -> (r: Vec<EnforcementResult>)
    ensures
        r@.len() == 1,
        ({
            let found = review_found(Review::Justification, today@, files@);
            let expired = review_found(Review::Expired, today@, files@).len() > 0;
            let (status, severity, message) = justification_outcome(files@.len() == 0, expired, found.len());
            is_review_result(
                r@[0],
                "justification-metadata"@,
                status,
                severity,
                message,
                found,
                if status == Status::Failed || status == Status::Warning {
                    Some("Add reason=, owner=, expires=YYYY-MM-DD, and delete=... metadata or remove the temporary marker."@)
                } else {
                    None
                },
                "native.justification"@,
            )
        }),
{
    let findings = review_locations(Review::Justification, today, files);
    let expired_lines = review_locations(Review::Expired, today, files);
    assert(loc_views(findings@).len() == found_views(review_found(Review::Justification, today@, files@)).len());
    assert(loc_views(expired_lines@).len() == found_views(review_found(Review::Expired, today@, files@)).len());
    let expired = expired_lines.len() > 0;
    let n = findings.len();
    let complete = "Temporary and disabled-code markers have complete justification metadata.";
    let (status, severity, text) = if files.len() == 0 {
        (Status::NotApplicable, Severity::Warning, String::from_str(complete))
    } else if expired {
        (Status::Failed, Severity::Error, String::from_str("Expired justification metadata must be removed or renewed."))
    } else if n == 0 {
        (Status::Passed, Severity::Warning, String::from_str(complete))
    } else {
        (
            Status::Warning,
            Severity::Warning,
            count_message("Review ", n, " marker(s) missing owner, reason, expiry, or deletion condition."),
        )
    };
    let remediation = if status == Status::Failed || status == Status::Warning {
        Some("Add reason=, owner=, expires=YYYY-MM-DD, and delete=... metadata or remove the temporary marker.")
    } else {
        None
    };
    let mut out: Vec<EnforcementResult> = Vec::new();
    out.push(review_result("justification-metadata", status, severity, text, findings, remediation, "native.justification"));
    out
}

} // verus!
