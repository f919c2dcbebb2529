//! Structural review of the touched source files from their measured
//! functions: function size against a target and a hard limit, file size,
//! and function complexity (branching, nesting, parameters).

use vstd::prelude::*;

use crate::checks::commands::supervisor::decimal;
use crate::checks::diff::association::{extension, extension_exec};
use crate::checks::languages::{found_views, loc_views};
use crate::checks::review::{is_review_result, review_result};
use crate::checks::{EnforcementResult, Location, Severity, Status};

verus! {

/// A function body above this many lines fails the function-size review.
pub const HARD_FUNCTION_LINES: u64 = 50;
/// A function body above this many lines is reviewed.
pub const TARGET_FUNCTION_LINES: u64 = 30;
/// A file above this many lines fails the file-size review.
pub const MAX_FILE_LINES: u64 = 300;

/// What the analysis measured of one function.
#[derive(Debug, Clone, Copy, PartialEq, Eq)]
pub struct FunctionMetrics {
    pub start_line: u64,
    pub lines: u64,
    pub complexity: u64,
    pub max_nesting: u64,
    pub parameters: u64,
    /// The function carries complete exemption metadata.
    pub exempt: bool,
}

/// What the analysis measured of one file.
#[derive(Debug, Clone, PartialEq, Eq)]
pub struct Analysis {
    pub file_lines: u64,
    pub functions: Vec<FunctionMetrics>,
}

/// Which measured functions a review flags.
#[derive(Debug, Clone, Copy, PartialEq, Eq, Structural)]
pub enum FunctionRule {
    /// Longer than the target.
    OverTarget,
    /// Longer than the hard limit.
    OverLimit,
    /// Too branchy, too deeply nested, or with too many parameters.
    Complex,
}

/// The language the analysis reads a file as, by extension.
pub open spec fn analyzed_language(file: Seq<char>) -> Option<Seq<char>> {
    match extension(file) {
        Some(e) => if e == "py"@ {
            Some("python"@)
        } else if e == "rs"@ {
            Some("rust"@)
        } else if e == "ts"@ || e == "tsx"@ {
            Some("typescript"@)
        } else if e == "js"@ || e == "jsx"@ {
            Some("javascript"@)
        } else if e == "go"@ {
            Some("go"@)
        } else {
            None
        },
        None => None,
    }
}

pub fn language_for(file: &str) -> (r: Option<&'static str>)
    ensures
        match r {
            Some(l) => analyzed_language(file@) == Some(l@),
            None => analyzed_language(file@) is None,
        },
{
    let c = crate::text::chars_of(file);
    match extension_exec(c.as_slice()) {
        None => None,
        Some(e) => {
            let x = e.as_slice();
            if crate::text::chars_are(x, "py") {
                Some("python")
            } else if crate::text::chars_are(x, "rs") {
                Some("rust")
            } else if crate::text::chars_are(x, "ts") || crate::text::chars_are(x, "tsx") {
                Some("typescript")
            } else if crate::text::chars_are(x, "js") || crate::text::chars_are(x, "jsx") {
                Some("javascript")
            } else if crate::text::chars_are(x, "go") {
                Some("go")
            } else {
                None
            }
        },
    }
}

pub open spec fn function_flagged(rule: FunctionRule, f: FunctionMetrics) -> bool {
    !f.exempt && match rule {
        FunctionRule::OverTarget => f.lines > TARGET_FUNCTION_LINES,
        FunctionRule::OverLimit => f.lines > HARD_FUNCTION_LINES,
        FunctionRule::Complex => f.complexity > 10 || f.max_nesting > 3 || f.parameters > 4,
    }
}

/// The flagged functions of one file, located at their first line.
pub open spec fn flagged_functions(rule: FunctionRule, file: Seq<char>, fs: Seq<FunctionMetrics>) -> Seq<(Seq<char>, nat)>
    decreases fs.len(),
{
    if fs.len() == 0 {
        seq![]
    } else if function_flagged(rule, fs.last()) {
        flagged_functions(rule, file, fs.drop_last()).push((file, fs.last().start_line as nat))
    } else {
        flagged_functions(rule, file, fs.drop_last())
    }
}

pub open spec fn analyzed(e: (String, Option<Analysis>)) -> bool {
    analyzed_language(e.0@) is Some
}

/// Some touched file is one the analysis reads.
pub open spec fn any_analyzed(es: Seq<(String, Option<Analysis>)>) -> bool {
    exists|k: int| 0 <= k < es.len() && analyzed(#[trigger] es[k])
}

/// The analysis could not run on some file it reads.
pub open spec fn analysis_failed(es: Seq<(String, Option<Analysis>)>) -> bool {
    exists|k: int| 0 <= k < es.len() && analyzed(#[trigger] es[k]) && es[k].1 is None
}

/// The flagged functions of every analyzed file, in order.
pub open spec fn function_found(rule: FunctionRule, es: Seq<(String, Option<Analysis>)>) -> Seq<(Seq<char>, nat)>
    decreases es.len(),
{
    if es.len() == 0 {
        seq![]
    } else {
        function_found(rule, es.drop_last()) + match es.last().1 {
            Some(a) => if analyzed(es.last()) {
                flagged_functions(rule, es.last().0@, a.functions@)
            } else {
                seq![]
            },
            None => seq![],
        }
    }
}

/// The analyzed files over the line limit, located at their first line.
pub open spec fn file_found(es: Seq<(String, Option<Analysis>)>) -> Seq<(Seq<char>, nat)>
    decreases es.len(),
{
    if es.len() == 0 {
        seq![]
    } else {
        file_found(es.drop_last()) + match es.last().1 {
            Some(a) => if analyzed(es.last()) && a.file_lines > MAX_FILE_LINES {
                seq![(es.last().0@, 1nat)]
            } else {
                seq![]
            },
            None => seq![],
        }
    }
}

pub open spec fn remediation() -> Seq<char> {
    "Review the finding and split the structure or document a parser/table/state-machine exemption."@
}

/// A structural result: failing ones count their findings and carry the
/// remediation; only a failing function-size review is an error.
pub open spec fn is_structure_result(
    res: EnforcementResult,
    rule_id: Seq<char>,
    status: Status,
    summary: Seq<char>,
    found: Seq<(Seq<char>, nat)>,
) -> bool {
    let failed = status == Status::Failed;
    is_review_result(
        res,
        rule_id,
        status,
        if rule_id == "function-size"@ && failed {
            Severity::Error
        } else {
            Severity::Warning
        },
        if failed {
            summary + " ("@ + decimal(found.len()) + " finding(s))."@
        } else {
            summary
        },
        found,
        if failed {
            Some(remediation())
        } else {
            None
        },
        "native.function-size"@,
    )
}

fn structure_result(rule_id: &str, status: Status, locations: Vec<Location>, summary: &str) -> (r: EnforcementResult)
    ensures
        forall|found: Seq<(Seq<char>, nat)>| loc_views(locations@) == found_views(found) ==> #[trigger] is_structure_result(
            r,
            rule_id@,
            status,
            summary@,
            found,
        ),
{
    let failed = status == Status::Failed;
    let severity = if failed && crate::text::same_text(rule_id, "function-size") {
        Severity::Error
    } else {
        Severity::Warning
    };
    let n = locations.len();
    let text = if failed {
        let a = crate::text::concat2(summary, " (");
        let d = crate::checks::commands::supervisor::decimal_string(n as u64);
        crate::text::concat3(a.as_str(), d.as_str(), " finding(s)).")
    } else {
        String::from_str(summary)
    };
    let rem = if failed {
        Some("Review the finding and split the structure or document a parser/table/state-machine exemption.")
    } else {
        None
    };
    let r = review_result(rule_id, status, severity, text, locations, rem, "native.function-size");
    proof {
        assert forall|found: Seq<(Seq<char>, nat)>| loc_views(locations@) == found_views(found) implies #[trigger] is_structure_result(
            r,
            rule_id@,
            status,
            summary@,
            found,
        ) by {
            assert(loc_views(locations@).len() == found_views(found).len());
        }
    }
    r
}

fn function_flagged_exec(rule: FunctionRule, f: &FunctionMetrics) -> (r: bool)
    ensures
        r == function_flagged(rule, *f),
{
    !f.exempt && match rule {
        FunctionRule::OverTarget => f.lines > TARGET_FUNCTION_LINES,
        FunctionRule::OverLimit => f.lines > HARD_FUNCTION_LINES,
        FunctionRule::Complex => f.complexity > 10 || f.max_nesting > 3 || f.parameters > 4,
    }
}

/// Appends the flagged functions of one file.
fn push_flagged(rule: FunctionRule, file: &String, fs: &Vec<FunctionMetrics>, out: &mut Vec<Location>)
    ensures
        loc_views(final(out)@) == loc_views(old(out)@) + found_views(flagged_functions(rule, file@, fs@)),
{
    let ghost before = out@;
    let mut k: usize = 0;
    assert(fs@.take(0) =~= Seq::<FunctionMetrics>::empty());
    assert(loc_views(out@) =~= loc_views(before) + found_views(flagged_functions(rule, file@, fs@.take(0))));
    while k < fs.len()
        invariant
            k <= fs.len(),
            loc_views(out@) == loc_views(before) + found_views(flagged_functions(rule, file@, fs@.take(k as int))),
        decreases fs.len() - k,
    {
        assert(fs@.take(k + 1).drop_last() =~= fs@.take(k as int));
        assert(fs@.take(k + 1).last() == fs@[k as int]);
        let ghost b = out@;
        if function_flagged_exec(rule, &fs[k]) {
            out.push(Location { file: file.clone(), line: Some(fs[k].start_line) });
            assert(loc_views(out@) =~= loc_views(b).push((file@, Some(fs@[k as int].start_line))));
            assert(found_views(flagged_functions(rule, file@, fs@.take(k + 1))) =~= found_views(
                flagged_functions(rule, file@, fs@.take(k as int)),
            ).push((file@, Some(fs@[k as int].start_line))));
        }
        k += 1;
    }
    assert(fs@.take(fs.len() as int) =~= fs@);
}

fn function_locations(rule: FunctionRule, files: &Vec<(String, Option<Analysis>)>) -> (r: Vec<Location>)
    ensures
        loc_views(r@) == found_views(function_found(rule, files@)),
{
    let mut out: Vec<Location> = Vec::new();
    let mut i: usize = 0;
    assert(files@.take(0) =~= Seq::<(String, Option<Analysis>)>::empty());
    assert(loc_views(out@) =~= found_views(function_found(rule, files@.take(0))));
    while i < files.len()
        invariant
            i <= files.len(),
            loc_views(out@) == found_views(function_found(rule, files@.take(i as int))),
        decreases files.len() - i,
    {
        assert(files@.take(i + 1).drop_last() =~= files@.take(i as int));
        assert(files@.take(i + 1).last() == files@[i as int]);
        let ghost prev = function_found(rule, files@.take(i as int));
        match &files[i].1 {
            Some(a) => {
                if language_for(files[i].0.as_str()).is_some() {
                    push_flagged(rule, &files[i].0, &a.functions, &mut out);
                    assert(found_views(prev + flagged_functions(rule, files@[i as int].0@, a.functions@)) =~= found_views(prev)
                        + found_views(flagged_functions(rule, files@[i as int].0@, a.functions@)));
                } else {
                    assert(prev + Seq::<(Seq<char>, nat)>::empty() =~= prev);
                }
            },
            None => {
                assert(prev + Seq::<(Seq<char>, nat)>::empty() =~= prev);
            },
        }
        i += 1;
    }
    assert(files@.take(files.len() as int) =~= files@);
    out
}

fn file_locations(files: &Vec<(String, Option<Analysis>)>) -> (r: Vec<Location>)
    ensures
        loc_views(r@) == found_views(file_found(files@)),
{
    let mut out: Vec<Location> = Vec::new();
    let mut i: usize = 0;
    assert(files@.take(0) =~= Seq::<(String, Option<Analysis>)>::empty());
    assert(loc_views(out@) =~= found_views(file_found(files@.take(0))));
    while i < files.len()
        invariant
            i <= files.len(),
            loc_views(out@) == found_views(file_found(files@.take(i as int))),
        decreases files.len() - i,
    {
        assert(files@.take(i + 1).drop_last() =~= files@.take(i as int));
        assert(files@.take(i + 1).last() == files@[i as int]);
        let ghost prev = file_found(files@.take(i as int));
        let ghost b = out@;
        match &files[i].1 {
            Some(a) => {
                if language_for(files[i].0.as_str()).is_some() && a.file_lines > MAX_FILE_LINES {
                    out.push(Location { file: files[i].0.clone(), line: Some(1) });
                    assert(loc_views(out@) =~= loc_views(b).push((files@[i as int].0@, Some(1u64))));
                    assert(found_views(prev + seq![(files@[i as int].0@, 1nat)]) =~= found_views(prev).push(
                        (files@[i as int].0@, Some(1u64)),
                    ));
                } else {
                    assert(prev + Seq::<(Seq<char>, nat)>::empty() =~= prev);
                }
            },
            None => {
                assert(prev + Seq::<(Seq<char>, nat)>::empty() =~= prev);
            },
        }
        i += 1;
    }
    assert(files@.take(files.len() as int) =~= files@);
    out
}

pub open spec fn function_size_status(es: Seq<(String, Option<Analysis>)>) -> Status {
    if function_found(FunctionRule::OverLimit, es).len() > 0 {
        Status::Failed
    } else if function_found(FunctionRule::OverTarget, es).len() == 0 {
        Status::Passed
    } else {
        Status::Warning
    }
}

pub open spec fn findings_status(found: Seq<(Seq<char>, nat)>) -> Status {
    if found.len() == 0 {
        Status::Passed
    } else {
        Status::Failed
    }
}

/// The three structural reviews (function size, file size, complexity) of
/// the touched files, each with what the analysis measured of it (`None`
/// when it could not run). Without an analyzed file all three are not
/// applicable; when the analysis failed on one, all three are unverified;
/// otherwise each locates its findings: a function over the hard limit
/// fails the size review and one over the target warns, and any file over
/// the line limit or complex function fails its review.
pub fn scan(files: &Vec<(String, Option<Analysis>)>) -> (r: Vec<EnforcementResult>)
    ensures
        r@.len() == 3,
        !any_analyzed(files@) ==> is_structure_result(r@[0], "function-size"@, Status::NotApplicable, "Function-size review was not applicable."@, seq![])
            && is_structure_result(r@[1], "file-size"@, Status::NotApplicable, "File-size review was not applicable."@, seq![])
            && is_structure_result(r@[2], "function-complexity"@, Status::NotApplicable, "Complexity review was not applicable."@, seq![]),
        any_analyzed(files@) && analysis_failed(files@) ==> is_structure_result(r@[0], "function-size"@, Status::Unverified, "Structural analysis could not run."@, seq![])
            && is_structure_result(r@[1], "file-size"@, Status::Unverified, "Structural analysis could not run."@, seq![])
            && is_structure_result(r@[2], "function-complexity"@, Status::Unverified, "Structural analysis could not run."@, seq![]),
        any_analyzed(files@) && !analysis_failed(files@) ==> is_structure_result(
            r@[0],
            "function-size"@,
            function_size_status(files@),
            "Function-size review found functions above the target threshold."@,
            function_found(FunctionRule::OverTarget, files@),
        ) && is_structure_result(
            r@[1],
            "file-size"@,
            findings_status(file_found(files@)),
            "File-size review found files over 300 lines."@,
            file_found(files@),
        ) && is_structure_result(
            r@[2],
            "function-complexity"@,
            findings_status(function_found(FunctionRule::Complex, files@)),
            "Complexity review found high-parameter, deeply nested, or high-complexity functions."@,
            function_found(FunctionRule::Complex, files@),
        ),
{
    let mut supported = false;
    let mut failed = false;
    let mut i: usize = 0;
    while i < files.len()
        invariant
            i <= files.len(),
            supported == (exists|k: int| 0 <= k < i && analyzed(#[trigger] files@[k])),
            failed == (exists|k: int| 0 <= k < i && analyzed(#[trigger] files@[k]) && files@[k].1 is None),
        decreases files.len() - i,
    {
        if language_for(files[i].0.as_str()).is_some() {
            assert(analyzed(files@[i as int]));
            supported = true;
            if files[i].1.is_none() {
                failed = true;
            }
        }
        i += 1;
    }
    let mut out: Vec<EnforcementResult> = Vec::new();
    let none: Vec<Location> = Vec::new();
    assert(loc_views(none@) =~= found_views(seq![]));
    if !supported {
        out.push(structure_result("function-size", Status::NotApplicable, Vec::new(), "Function-size review was not applicable."));
        out.push(structure_result("file-size", Status::NotApplicable, Vec::new(), "File-size review was not applicable."));
        out.push(structure_result("function-complexity", Status::NotApplicable, Vec::new(), "Complexity review was not applicable."));
        return out;
    }
    if failed {
        out.push(structure_result("function-size", Status::Unverified, Vec::new(), "Structural analysis could not run."));
        out.push(structure_result("file-size", Status::Unverified, Vec::new(), "Structural analysis could not run."));
        out.push(structure_result("function-complexity", Status::Unverified, Vec::new(), "Structural analysis could not run."));
        return out;
    }
    let review = function_locations(FunctionRule::OverTarget, files);
    let hard = function_locations(FunctionRule::OverLimit, files);
    let sized = file_locations(files);
    let complex = function_locations(FunctionRule::Complex, files);
    assert(loc_views(review@).len() == found_views(function_found(FunctionRule::OverTarget, files@)).len());
    assert(loc_views(hard@).len() == found_views(function_found(FunctionRule::OverLimit, files@)).len());
    assert(loc_views(sized@).len() == found_views(file_found(files@)).len());
    assert(loc_views(complex@).len() == found_views(function_found(FunctionRule::Complex, files@)).len());
    let size_status = if hard.len() > 0 {
        Status::Failed
    } else if review.len() == 0 {
        Status::Passed
    } else {
        Status::Warning
    };
    let file_status = if sized.len() == 0 { Status::Passed } else { Status::Failed };
    let complex_status = if complex.len() == 0 { Status::Passed } else { Status::Failed };
    out.push(structure_result("function-size", size_status, review, "Function-size review found functions above the target threshold."));
    out.push(structure_result("file-size", file_status, sized, "File-size review found files over 300 lines."));
    out.push(structure_result("function-complexity", complex_status, complex, "Complexity review found high-parameter, deeply nested, or high-complexity functions."));
    out
}

} // verus!
