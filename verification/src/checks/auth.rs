//! Control signals of public endpoints: an endpoint file should show input
//! validation, authorization, rate limiting and secure defaults. The review
//! is lexical, so complete signals still leave runtime behavior unverified.

use vstd::prelude::*;

use crate::checks::commands::supervisor::decimal;
use crate::checks::languages::{found_views, loc_views};
use crate::checks::review::{count_message, is_review_result, review_found, review_locations, review_result, Review};
use crate::checks::{EnforcementResult, Location, Severity, Status};

verus! {

pub open spec fn remediation() -> Seq<char> {
    "Add runtime boundary validation, server-side authorization, rate limiting, secure cookies/CORS/CSRF, and non-debug defaults; attach runtime evidence."@
}

/// The status and message for the endpoint lines of files with complete
/// controls (`complete`) and of files lacking some (`missing`).
pub open spec fn auth_outcome(no_files: bool, complete: nat, missing: nat) -> (Status, Seq<char>) {
    if no_files {
        (Status::NotApplicable, "No files were changed."@)
    } else if complete == 0 && missing == 0 {
        (Status::NotApplicable, "No supported public endpoint signal was found."@)
    } else if missing == 0 {
        (
            Status::Unverified,
            "Lexical control signals are present; runtime auth, validation, rate-limit, and secure-default semantics remain unverified."@,
        )
    } else {
        (
            Status::Warning,
            decimal(missing)
                + " public endpoint signal(s) lack one or more required control categories; runtime semantics remain review."@,
        )
    }
}

/// The review of the touched files (each with its source, or `None` when it
/// could not be read). The locations are the endpoint lines of files with
/// complete controls, then those of files lacking some; without files, or
/// without endpoint lines, the result is not applicable and locates nothing.
pub fn scan(files: &Vec<(String, Option<String>)>) -> (r: Vec<EnforcementResult>)
    ensures
        r@.len() == 1,
        ({
            let complete = review_found(Review::ControlledEndpoints, ""@, files@);
            let missing = review_found(Review::UncontrolledEndpoints, ""@, files@);
            let (status, message) = auth_outcome(files@.len() == 0, complete.len(), missing.len());
            is_review_result(
                r@[0],
                "auth-input-enforcement"@,
                status,
                Severity::Warning,
                message,
                if status == Status::NotApplicable {
                    seq![]
                } else {
                    complete + missing
                },
                Some(remediation()),
                "native.auth-input-enforcement"@,
            )
        }),
{
    let mut locations = review_locations(Review::ControlledEndpoints, "", files);
    let missing = review_locations(Review::UncontrolledEndpoints, "", files);
    let ghost cf = review_found(Review::ControlledEndpoints, ""@, files@);
    let ghost mf = review_found(Review::UncontrolledEndpoints, ""@, files@);
    assert(loc_views(locations@).len() == found_views(cf).len());
    assert(loc_views(missing@).len() == found_views(mf).len());
    let nc = locations.len();
    let nm = missing.len();
    let rem = "Add runtime boundary validation, server-side authorization, rate limiting, secure cookies/CORS/CSRF, and non-debug defaults; attach runtime evidence.";
    let mut out: Vec<EnforcementResult> = Vec::new();
    if files.len() == 0 || (nc == 0 && nm == 0) {
        let text = if files.len() == 0 {
            String::from_str("No files were changed.")
        } else {
            String::from_str("No supported public endpoint signal was found.")
        };
        let none: Vec<Location> = Vec::new();
        assert(loc_views(none@) =~= found_views(seq![]));
        out.push(review_result("auth-input-enforcement", Status::NotApplicable, Severity::Warning, text, none, Some(rem), "native.auth-input-enforcement"));
        return out;
    }
    let ghost before = locations@;
    let mut m: usize = 0;
    while m < missing.len()
        invariant
            m <= missing.len(),
            loc_views(locations@) == loc_views(before) + loc_views(missing@).take(m as int),
        decreases missing.len() - m,
    {
        let ghost b = locations@;
        locations.push(missing[m].clone_location());
        assert(loc_views(locations@) =~= loc_views(b).push((missing@[m as int].file@, missing@[m as int].line)));
        assert(loc_views(missing@).take(m + 1) =~= loc_views(missing@).take(m as int).push(
            (missing@[m as int].file@, missing@[m as int].line),
        ));
        m += 1;
    }
    assert(loc_views(missing@).take(missing.len() as int) =~= loc_views(missing@));
    assert(found_views(cf + mf) =~= found_views(cf) + found_views(mf));
    let (status, text) = if nm == 0 {
        (
            Status::Unverified,
            String::from_str(
                "Lexical control signals are present; runtime auth, validation, rate-limit, and secure-default semantics remain unverified.",
            ),
        )
    } else {
        (
            Status::Warning,
            count_message(
                "",
                nm,
                " public endpoint signal(s) lack one or more required control categories; runtime semantics remain review.",
            ),
        )
    };
    proof {
        reveal_strlit("");
    }
    out.push(review_result("auth-input-enforcement", status, Severity::Warning, text, locations, Some(rem), "native.auth-input-enforcement"));
    out
}

} // verus!
