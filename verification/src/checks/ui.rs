//! Accessibility and responsive-layout signals in markup and styles: images
//! without alternatives, inputs without labels, inline styles and fixed
//! pixel sizes forced with `!important`.

use vstd::prelude::*;

use crate::checks::commands::supervisor::decimal;
use crate::checks::languages::{found_views, loc_views};
use crate::checks::review::{is_review_result, review_found, review_locations, review_result, Review};
use crate::checks::{EnforcementResult, Location, Severity, Status};

verus! {

pub open spec fn ui_status(found: nat) -> Status {
    if found == 0 {
        Status::NotApplicable
    } else {
        Status::Warning
    }
}

pub open spec fn ui_message(summary: Seq<char>, found: nat) -> Seq<char> {
    if found == 0 {
        summary + " No high-confidence signal found."@
    } else {
        summary + " ("@ + decimal(found) + " finding(s))."@
    }
}

pub open spec fn ui_remediation(found: nat) -> Option<Seq<char>> {
    if found == 0 {
        None
    } else {
        Some("Fix the high-confidence signal and verify responsive/accessibility behavior at configured viewports."@)
    }
}

fn ui_result(rule_id: &str, locations: Vec<Location>, summary: &str) -> (r: EnforcementResult)
    ensures
        r.rule_id@ == rule_id@,
        r.status == ui_status(locations@.len()),
        r.severity == Severity::Warning,
        r.message@ == ui_message(summary@, locations@.len()),
        r.locations@ == locations@,
        match (r.remediation, ui_remediation(locations@.len())) {
            (Some(a), Some(b)) => a@ == b,
            (None, None) => true,
            _ => false,
        },
        r.evidence.check@ == "native.ui-review"@,
        r.evidence.tool_version is None,
        r.evidence.finding_descriptions@.len() == 0,
{
    let n = locations.len();
    if n == 0 {
        let text = crate::text::concat2(summary, " No high-confidence signal found.");
        review_result(rule_id, Status::NotApplicable, Severity::Warning, text, locations, None, "native.ui-review")
    } else {
        let text2 = crate::text::concat2(summary, " (");
        let d = crate::checks::commands::supervisor::decimal_string(n as u64);
        let text3 = crate::text::concat3(text2.as_str(), d.as_str(), " finding(s)).");
        review_result(
            rule_id,
            Status::Warning,
            Severity::Warning,
            text3,
            locations,
            Some("Fix the high-confidence signal and verify responsive/accessibility behavior at configured viewports."),
            "native.ui-review",
        )
    }
}

/// The two reviews of the touched HTML, JSX/TSX and CSS files (each with its
/// source, or `None` when it could not be read): accessibility, then
/// responsive layout; each is a warning locating its flagged lines, or not
/// applicable without any.
pub fn scan(files: &Vec<(String, Option<String>)>) -> (r: Vec<EnforcementResult>)
    ensures
        r@.len() == 2,
        ({
            let a = review_found(Review::Accessibility, ""@, files@);
            is_review_result(
                r@[0],
                "ui-accessibility-review"@,
                ui_status(a.len()),
                Severity::Warning,
                ui_message("Review missing labels, roles, and image alternatives."@, a.len()),
                a,
                ui_remediation(a.len()),
                "native.ui-review"@,
            )
        }),
        ({
            let p = review_found(Review::Responsive, ""@, files@);
            is_review_result(
                r@[1],
                "ui-responsive-review"@,
                ui_status(p.len()),
                Severity::Warning,
                ui_message("Review fixed styling and responsive viewport behavior."@, p.len()),
                p,
                ui_remediation(p.len()),
                "native.ui-review"@,
            )
        }),
{
    let accessibility = review_locations(Review::Accessibility, "", files);
    let responsive = review_locations(Review::Responsive, "", files);
    assert(loc_views(accessibility@).len() == found_views(review_found(Review::Accessibility, ""@, files@)).len());
    assert(loc_views(responsive@).len() == found_views(review_found(Review::Responsive, ""@, files@)).len());
    let mut out: Vec<EnforcementResult> = Vec::new();
    out.push(ui_result("ui-accessibility-review", accessibility, "Review missing labels, roles, and image alternatives."));
    out.push(ui_result("ui-responsive-review", responsive, "Review fixed styling and responsive viewport behavior."));
    out
}

} // verus!
