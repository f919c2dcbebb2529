//! Line-oriented lexical reviews of touched files.
//!
//! Each review admits some files (by extension, path or size) and flags the
//! lines of an admitted file that show its signal; a flagged line becomes a
//! location `(file, one-based line)`. Files that could not be read are
//! skipped, as the reviews skip unreadable files.

use vstd::prelude::*;

use crate::checks::diff::association::{extension, extension_exec};
use crate::checks::languages::{found_views, loc_views};
use crate::checks::{EnforcementResult, Location, ResultEvidence, Severity, Status};
use crate::text::{byte_len, contains, contains_str, deep, ends_with, join_sep, lines, lower, starts_with, trim, words};

verus! {

/// The largest file the size-capped reviews read, in bytes.
pub const MAX_REVIEWED_BYTES: usize = 262144;

/// The reviews, each with its admission rule and line signal.
#[derive(Debug, Clone, Copy, PartialEq, Eq, Structural)]
pub enum Review {
    /// Sleeps, randomness and network calls in unit-test files.
    Determinism,
    /// Shell, HTML, SQL, URL or JSON text built by concatenation.
    Construction,
    /// Route declarations of common web frameworks.
    Endpoints,
    /// Logging calls that mention credentials, payloads or personal data.
    Logging,
    /// Images without alternatives and inputs without labels.
    Accessibility,
    /// Inline styles and fixed pixel sizes forced with `!important`.
    Responsive,
    /// Swallowed exception handlers and unbounded retries.
    Boundary,
    /// Endpoint lines of files that show every control category.
    ControlledEndpoints,
    /// Endpoint lines of files that lack some control category.
    UncontrolledEndpoints,
    /// Temporary or disabled-code markers without complete metadata, or
    /// whose expiry date has passed.
    Justification,
    /// Complete temporary-code markers whose expiry date has passed.
    Expired,
}

// ---------------------------------------------------------------------------
// Which files a review reads.

/// A unit-test path, lower-cased: under `tests`, or named as a Python or
/// TypeScript test.
pub open spec fn test_path(p: Seq<char>) -> bool {
    contains(p, "/tests/"@) || contains(p, "\\tests\\"@) || ends_with(p, "_test.py"@) || ends_with(p, ".spec.ts"@)
        || ends_with(p, ".test.ts"@)
}

pub open spec fn within_size(source: Seq<char>) -> bool {
    byte_len(source) <= MAX_REVIEWED_BYTES
}

pub open spec fn has_extension(file: Seq<char>, allowed: Seq<Seq<char>>) -> bool {
    match extension(file) {
        Some(e) => allowed.contains(e),
        None => false,
    }
}

pub open spec fn script_extensions() -> Seq<Seq<char>> {
    seq!["py"@, "ts"@, "tsx"@, "js"@, "jsx"@]
}

pub open spec fn markup_extensions() -> Seq<Seq<char>> {
    seq!["html"@, "htm"@, "tsx"@, "jsx"@, "css"@]
}

/// The four control categories an endpoint file shows, lower-cased:
/// validation, authorization, rate limiting and secure defaults.
pub open spec fn controls_complete(s: Seq<char>) -> bool {
    &&& (contains(s, "validate"@) || contains(s, "schema"@) || contains(s, "parse("@) || contains(s, "pydantic"@)
        || contains(s, "zod"@))
    &&& (contains(s, "auth"@) || contains(s, "session"@) || contains(s, "jwt"@) || contains(s, "current_user"@)
        || contains(s, "require"@))
    &&& (contains(s, "ratelimit"@) || contains(s, "rate_limit"@) || contains(s, "throttle"@) || contains(
        s,
        "limiter"@,
    ))
    &&& (contains(s, "httponly"@) || contains(s, "secure"@) || contains(s, "csrf"@) || contains(s, "cors"@)
        || contains(s, "debug=false"@))
}

/// Whether a review reads a file with the given path and source.
pub open spec fn admitted(r: Review, file: Seq<char>, source: Seq<char>) -> bool {
    match r {
        Review::Determinism => {
            let p = lower(file);
            test_path(p) && !contains(p, "integration"@) && !contains(p, "e2e"@)
        },
        Review::Construction | Review::Logging => within_size(source),
        Review::Accessibility | Review::Responsive => has_extension(file, markup_extensions()) && within_size(
            source,
        ),
        Review::Boundary => has_extension(file, script_extensions()) && within_size(source),
        Review::ControlledEndpoints => controls_complete(lower(source)),
        Review::UncontrolledEndpoints => !controls_complete(lower(source)),
        Review::Endpoints | Review::Justification | Review::Expired => true,
    }
}

// ---------------------------------------------------------------------------
// Line signals.

pub open spec fn determinism_line(l: Seq<char>) -> bool {
    contains(l, "sleep("@) || contains(l, "thread::sleep"@) || contains(l, "math.random"@) || contains(
        l,
        "random.random"@,
    ) || contains(l, "rand::random"@) || contains(l, "http://"@) || contains(l, "https://"@) || contains(
        l,
        "requests.get"@,
    ) || contains(l, "fetch("@)
}

pub open spec fn construction_line(l: Seq<char>) -> bool {
    contains(l, "+"@) && (contains(l, "subprocess"@) || contains(l, "child_process"@) || contains(l, "command"@)
        || contains(l, "innerhtml"@) || contains(l, "select "@) || contains(l, "insert "@) || contains(
        l,
        "update "@,
    ) || contains(l, "http://"@) || contains(l, "https://"@) || contains(l, "json.stringify"@))
}

/// A route declaration: FastAPI decorators, Express calls, or a Next.js
/// handler (any line of a file under an `api` directory counts).
pub open spec fn endpoint_line(p: Seq<char>, l: Seq<char>) -> bool {
    contains(l, "@app.get"@) || contains(l, "@app.post"@) || contains(l, "@router."@) || contains(l, "app.get("@)
        || contains(l, "app.post("@) || contains(l, "router.get("@) || contains(p, "/api/"@) || contains(
        l,
        "export async function get("@,
    ) || contains(l, "export async function post("@)
}

pub open spec fn logging_line(l: Seq<char>) -> bool {
    (contains(l, "print"@) || contains(l, "log"@) || contains(l, "logger"@)) && (contains(l, "password"@)
        || contains(l, "token"@) || contains(l, "cookie"@) || contains(l, "authorization"@) || contains(
        l,
        "set-cookie"@,
    ) || contains(l, "raw_body"@) || contains(l, "payload"@) || contains(l, "pii"@))
}

pub open spec fn accessibility_line(l: Seq<char>) -> bool {
    (contains(l, "<img"@) && !contains(l, " alt="@)) || (contains(l, "<input"@) && !contains(l, "aria-label"@)
        && !contains(l, "<label"@))
}

pub open spec fn responsive_line(l: Seq<char>) -> bool {
    contains(l, "style="@) || (contains(l, "px"@) && contains(l, "!important"@))
}

/// The text of the (at most) eight lines after line `i`, joined by spaces
/// and lower-cased.
pub open spec fn nearby(ls: Seq<Seq<char>>, i: int) -> Seq<char> {
    let end = if i + 9 < ls.len() {
        i + 9
    } else {
        ls.len() as int
    };
    lower(join_sep(ls.subrange(i + 1, end), " "@))
}

/// The trimmed line after line `i`, or nothing at the end.
pub open spec fn followup(ls: Seq<Seq<char>>, i: int) -> Seq<char> {
    if i + 1 < ls.len() {
        trim(ls[i + 1])
    } else {
        seq![]
    }
}

/// An exception handler whose next line is `pass`, or is empty with no
/// throw or raise nearby; or a retry with no backoff, jitter, cancellation
/// or timeout nearby.
pub open spec fn boundary_line(ls: Seq<Seq<char>>, i: int) -> bool {
    let t = trim(ls[i]);
    let handler = starts_with(t, "except"@) || starts_with(t, "catch"@);
    let retry = contains(lower(t), "retry"@);
    let near = nearby(ls, i);
    let f = followup(ls, i);
    (handler && (f == "pass"@ || (f.len() == 0 && !contains(near, "throw"@) && !contains(near, "raise"@))))
        || (retry && !contains(near, "backoff"@) && !contains(near, "jitter"@) && !contains(near, "cancel"@)
        && !contains(near, "timeout"@))
}

/// The first position at or after `i` where `needle` occurs.
pub open spec fn find_from(hay: Seq<char>, needle: Seq<char>, i: nat) -> Option<nat>
    decreases hay.len() + 1 - i,
{
    if i + needle.len() > hay.len() {
        None
    } else if hay.subrange(i as int, (i + needle.len()) as int) == needle {
        Some(i)
    } else {
        find_from(hay, needle, i + 1)
    }
}

/// The expiry a marker line names: the first word after the first
/// `expires=`, read up to the next `expires=`.
pub open spec fn expiry_of(l: Seq<char>) -> Option<Seq<char>> {
    match find_from(l, "expires="@, 0) {
        None => None,
        Some(i) => {
            let rest = l.skip((i + 8) as int);
            let segment = match find_from(rest, "expires="@, 0) {
                Some(j) => rest.take(j as int),
                None => rest,
            };
            if words(segment).len() > 0 {
                Some(words(segment)[0])
            } else {
                None
            }
        },
    }
}

/// `a` sorts before `b` character by character, as `str` comparison does.
pub open spec fn text_less(a: Seq<char>, b: Seq<char>) -> bool
    decreases a.len(),
{
    if b.len() == 0 {
        false
    } else if a.len() == 0 {
        true
    } else if a[0] != b[0] {
        a[0] < b[0]
    } else {
        text_less(a.drop_first(), b.drop_first())
    }
}

pub open spec fn marker_line(l: Seq<char>) -> bool {
    contains(l, "todo"@) || contains(l, "fixme"@) || contains(l, "temporary"@) || contains(l, "disable"@)
}

pub open spec fn metadata_complete(l: Seq<char>) -> bool {
    contains(l, "reason="@) && contains(l, "owner="@) && contains(l, "expires="@) && contains(l, "delete="@)
}

/// A ten-byte expiry that sorts before today's `YYYY-MM-DD`.
pub open spec fn expired_line(l: Seq<char>, today: Seq<char>) -> bool {
    match expiry_of(l) {
        Some(e) => byte_len(e) == 10 && text_less(e, today),
        None => false,
    }
}

/// Whether line `i` (of the lower-cased path `p`) shows the review's signal.
pub open spec fn line_hit(r: Review, today: Seq<char>, p: Seq<char>, ls: Seq<Seq<char>>, i: int) -> bool {
    let l = lower(ls[i]);
    match r {
        Review::Determinism => determinism_line(l),
        Review::Construction => construction_line(l),
        Review::Endpoints | Review::ControlledEndpoints | Review::UncontrolledEndpoints => endpoint_line(p, l),
        Review::Logging => logging_line(l),
        Review::Accessibility => accessibility_line(l),
        Review::Responsive => responsive_line(l),
        Review::Boundary => boundary_line(ls, i),
        Review::Justification => marker_line(l) && (!metadata_complete(l) || expired_line(l, today)),
        Review::Expired => marker_line(l) && metadata_complete(l) && expired_line(l, today),
    }
}

/// The one-based numbers of the lines among the first `n` that show the
/// review's signal.
pub open spec fn line_hits(r: Review, today: Seq<char>, p: Seq<char>, ls: Seq<Seq<char>>, n: nat) -> Seq<nat>
    decreases n,
{
    if n == 0 || n > ls.len() {
        seq![]
    } else if line_hit(r, today, p, ls, n - 1) {
        line_hits(r, today, p, ls, (n - 1) as nat).push(n)
    } else {
        line_hits(r, today, p, ls, (n - 1) as nat)
    }
}

/// The flagged lines of one file: none unless the review admits it.
pub open spec fn file_hits(r: Review, today: Seq<char>, file: Seq<char>, source: Seq<char>) -> Seq<nat> {
    if admitted(r, file, source) {
        line_hits(r, today, lower(file), lines(source), lines(source).len())
    } else {
        seq![]
    }
}

/// The review's findings over the files in order; unreadable files are
/// skipped.
pub open spec fn review_found(r: Review, today: Seq<char>, files: Seq<(String, Option<String>)>) -> Seq<(Seq<char>, nat)>
    decreases files.len(),
{
    if files.len() == 0 {
        seq![]
    } else {
        let prev = review_found(r, today, files.drop_last());
        let (file, source) = files.last();
        match source {
            Some(s) => prev + file_hits(r, today, file@, s@).map_values(|j: nat| (file@, j)),
            None => prev,
        }
    }
}

// ---------------------------------------------------------------------------
// Executable checks.

fn has_extension_exec(file: &str, markup: bool) -> (r: bool)
    ensures
        r == has_extension(file@, if markup { markup_extensions() } else { script_extensions() }),
{
    let c = crate::text::chars_of(file);
    match extension_exec(c.as_slice()) {
        None => false,
        Some(e) => {
            let x = e.as_slice();
            let ghost allowed = if markup { markup_extensions() } else { script_extensions() };
            let r = if markup {
                crate::text::chars_are(x, "html") || crate::text::chars_are(x, "htm") || crate::text::chars_are(x, "tsx")
                    || crate::text::chars_are(x, "jsx") || crate::text::chars_are(x, "css")
            } else {
                crate::text::chars_are(x, "py") || crate::text::chars_are(x, "ts") || crate::text::chars_are(x, "tsx")
                    || crate::text::chars_are(x, "js") || crate::text::chars_are(x, "jsx")
            };
            proof {
                if r {
                    if markup {
                        assert(allowed.contains(e@)) by {
                            if e@ == "html"@ { assert(allowed[0] == e@); }
                            else if e@ == "htm"@ { assert(allowed[1] == e@); }
                            else if e@ == "tsx"@ { assert(allowed[2] == e@); }
                            else if e@ == "jsx"@ { assert(allowed[3] == e@); }
                            else { assert(allowed[4] == e@); }
                        }
                    } else {
                        assert(allowed.contains(e@)) by {
                            if e@ == "py"@ { assert(allowed[0] == e@); }
                            else if e@ == "ts"@ { assert(allowed[1] == e@); }
                            else if e@ == "tsx"@ { assert(allowed[2] == e@); }
                            else if e@ == "js"@ { assert(allowed[3] == e@); }
                            else { assert(allowed[4] == e@); }
                        }
                    }
                }
            }
            r
        },
    }
}

fn controls_complete_exec(s: &[char]) -> (r: bool)
    ensures
        r == controls_complete(s@),
{
    (contains_str(s, "validate") || contains_str(s, "schema") || contains_str(s, "parse(") || contains_str(s, "pydantic")
        || contains_str(s, "zod")) && (contains_str(s, "auth") || contains_str(s, "session") || contains_str(s, "jwt")
        || contains_str(s, "current_user") || contains_str(s, "require")) && (contains_str(s, "ratelimit")
        || contains_str(s, "rate_limit") || contains_str(s, "throttle") || contains_str(s, "limiter")) && (contains_str(
        s,
        "httponly",
    ) || contains_str(s, "secure") || contains_str(s, "csrf") || contains_str(s, "cors") || contains_str(
        s,
        "debug=false",
    ))
}

fn test_path_exec(p: &[char]) -> (r: bool)
    ensures
        r == test_path(p@),
{
    contains_str(p, "/tests/") || contains_str(p, "\\tests\\") || crate::text::ends_with_str(p, "_test.py")
        || crate::text::ends_with_str(p, ".spec.ts") || crate::text::ends_with_str(p, ".test.ts")
}

fn admitted_exec(r: Review, file: &str, source: &str) -> (res: bool)
    ensures
        res == admitted(r, file@, source@),
{
    match r {
        Review::Determinism => {
            let c = crate::text::chars_of(file);
            let p = crate::text::to_lower(c.as_slice());
            test_path_exec(p.as_slice()) && !contains_str(p.as_slice(), "integration") && !contains_str(p.as_slice(), "e2e")
        },
        Review::Construction | Review::Logging => source.len() <= MAX_REVIEWED_BYTES,
        Review::Accessibility | Review::Responsive => has_extension_exec(file, true) && source.len() <= MAX_REVIEWED_BYTES,
        Review::Boundary => has_extension_exec(file, false) && source.len() <= MAX_REVIEWED_BYTES,
        Review::ControlledEndpoints | Review::UncontrolledEndpoints => {
            let c = crate::text::chars_of(source);
            let l = crate::text::to_lower(c.as_slice());
            let complete = controls_complete_exec(l.as_slice());
            match r {
                Review::ControlledEndpoints => complete,
                _ => !complete,
            }
        },
        Review::Endpoints | Review::Justification | Review::Expired => true,
    }
}

fn determinism_line_exec(l: &[char]) -> (r: bool)
    ensures
        r == determinism_line(l@),
{
    contains_str(l, "sleep(") || contains_str(l, "thread::sleep") || contains_str(l, "math.random") || contains_str(
        l,
        "random.random",
    ) || contains_str(l, "rand::random") || contains_str(l, "http://") || contains_str(l, "https://")
        || contains_str(l, "requests.get") || contains_str(l, "fetch(")
}

fn construction_line_exec(l: &[char]) -> (r: bool)
    ensures
        r == construction_line(l@),
{
    contains_str(l, "+") && (contains_str(l, "subprocess") || contains_str(l, "child_process") || contains_str(
        l,
        "command",
    ) || contains_str(l, "innerhtml") || contains_str(l, "select ") || contains_str(l, "insert ") || contains_str(
        l,
        "update ",
    ) || contains_str(l, "http://") || contains_str(l, "https://") || contains_str(l, "json.stringify"))
}

fn endpoint_line_exec(p: &[char], l: &[char]) -> (r: bool)
    ensures
        r == endpoint_line(p@, l@),
{
    contains_str(l, "@app.get") || contains_str(l, "@app.post") || contains_str(l, "@router.") || contains_str(
        l,
        "app.get(",
    ) || contains_str(l, "app.post(") || contains_str(l, "router.get(") || contains_str(p, "/api/")
        || contains_str(l, "export async function get(") || contains_str(l, "export async function post(")
}

fn logging_line_exec(l: &[char]) -> (r: bool)
    ensures
        r == logging_line(l@),
{
    (contains_str(l, "print") || contains_str(l, "log") || contains_str(l, "logger")) && (contains_str(l, "password")
        || contains_str(l, "token") || contains_str(l, "cookie") || contains_str(l, "authorization")
        || contains_str(l, "set-cookie") || contains_str(l, "raw_body") || contains_str(l, "payload")
        || contains_str(l, "pii"))
}

fn accessibility_line_exec(l: &[char]) -> (r: bool)
    ensures
        r == accessibility_line(l@),
{
    (contains_str(l, "<img") && !contains_str(l, " alt=")) || (contains_str(l, "<input") && !contains_str(
        l,
        "aria-label",
    ) && !contains_str(l, "<label"))
}

fn responsive_line_exec(l: &[char]) -> (r: bool)
    ensures
        r == responsive_line(l@),
{
    contains_str(l, "style=") || (contains_str(l, "px") && contains_str(l, "!important"))
}

/// The lines `start..end` joined by single spaces.
fn join_lines(ls: &Vec<Vec<char>>, start: usize, end: usize) -> (r: Vec<char>)
    requires
        start <= end <= ls.len(),
    ensures
        r@ == join_sep(deep(ls@).subrange(start as int, end as int), " "@),
{
    let ghost d = deep(ls@);
    let mut out: Vec<char> = Vec::new();
    let mut j: usize = start;
    assert(d.subrange(start as int, start as int) =~= Seq::<Seq<char>>::empty());
    while j < end
        invariant
            start <= j <= end <= ls.len(),
            d == deep(ls@),
            out@ == join_sep(d.subrange(start as int, j as int), " "@),
        decreases end - j,
    {
        let ghost before = out@;
        assert(d.subrange(start as int, j + 1).drop_last() =~= d.subrange(start as int, j as int));
        assert(d.subrange(start as int, j + 1).last() == ls@[j as int]@);
        if j > start {
            out.push(' ');
        }
        let mut k: usize = 0;
        let ghost mid = out@;
        while k < ls[j].len()
            invariant
                k <= ls@[j as int]@.len(),
                j < ls.len(),
                out@ == mid + ls@[j as int]@.take(k as int),
            decreases ls@[j as int]@.len() - k,
        {
            out.push(ls[j][k]);
            k += 1;
            assert(out@ =~= mid + ls@[j as int]@.take(k as int));
        }
        assert(ls@[j as int]@.take(k as int) =~= ls@[j as int]@);
        proof {
            reveal_strlit(" ");
            if j > start {
                assert(out@ =~= before + " "@ + ls@[j as int]@);
            } else {
                assert(d.subrange(start as int, j + 1).len() == 1);
                assert(d.subrange(start as int, j + 1)[0] == ls@[j as int]@);
                assert(out@ =~= ls@[j as int]@);
            }
        }
        j += 1;
    }
    out
}

fn boundary_line_exec(ls: &Vec<Vec<char>>, i: usize) -> (r: bool)
    requires
        i < ls.len(),
    ensures
        r == boundary_line(deep(ls@), i as int),
{
    let ghost d = deep(ls@);
    assert(d[i as int] == ls@[i as int]@);
    let t = crate::text::trim_exec(ls[i].as_slice());
    let handler = crate::text::starts_with_str(t.as_slice(), "except") || crate::text::starts_with_str(t.as_slice(), "catch");
    let lt = crate::text::to_lower(t.as_slice());
    let retry = contains_str(lt.as_slice(), "retry");
    if !handler && !retry {
        return false;
    }
    let end: usize = if ls.len() - i > 9 { i + 9 } else { ls.len() };
    let joined = join_lines(ls, i + 1, end);
    let near = crate::text::to_lower(joined.as_slice());
    let f: Vec<char> = if i + 1 < ls.len() {
        assert(d[i + 1] == ls@[i + 1]@);
        crate::text::trim_exec(ls[i + 1].as_slice())
    } else {
        Vec::new()
    };
    assert(near@ == nearby(d, i as int));
    assert(f@ == followup(d, i as int));
    let n = near.as_slice();
    let is_pass = crate::text::chars_are(f.as_slice(), "pass");
    let empty_handler = handler && (is_pass || (f.len() == 0 && !contains_str(n, "throw") && !contains_str(n, "raise")));
    let unbounded_retry = retry && !contains_str(n, "backoff") && !contains_str(n, "jitter") && !contains_str(n, "cancel")
        && !contains_str(n, "timeout");
    empty_handler || unbounded_retry
}

pub fn find_from_exec(hay: &[char], needle: &str, start: usize) -> (r: Option<usize>)
    requires
        start <= hay.len(),
    ensures
        match r {
            Some(i) => find_from(hay@, needle@, start as nat) == Some(i as nat),
            None => find_from(hay@, needle@, start as nat) is None,
        },
{
    let n = crate::text::chars_of(needle);
    let mut i: usize = start;
    while n.len() <= hay.len() - i
        invariant
            start <= i <= hay.len(),
            n@ == needle@,
            find_from(hay@, needle@, start as nat) == find_from(hay@, needle@, i as nat),
        decreases hay.len() - i,
    {
        if crate::text::occurs_at_exec(hay, n.as_slice(), i) {
            assert(hay@.subrange(i as int, i + n@.len()) == n@);
            return Some(i);
        }
        assert(hay@.subrange(i as int, i + n@.len()) != n@);
        proof {
            if n@.len() == 0 {
                assert(hay@.subrange(i as int, i as int) =~= n@);
            }
        }
        i += 1;
    }
    None
}

/// A position `find_from` gives holds the needle, at or after the start.
pub proof fn lemma_find_from(hay: Seq<char>, needle: Seq<char>, i: nat)
    ensures
        match find_from(hay, needle, i) {
            Some(k) => i <= k && k + needle.len() <= hay.len() && hay.subrange(k as int, (k + needle.len()) as int) == needle,
            None => true,
        },
    decreases hay.len() + 1 - i,
{
    if i + needle.len() <= hay.len() && hay.subrange(i as int, (i + needle.len()) as int) != needle {
        lemma_find_from(hay, needle, i + 1);
    }
}

fn expiry_exec(l: &[char]) -> (r: Option<Vec<char>>)
    ensures
        match r {
            Some(e) => expiry_of(l@) == Some(e@),
            None => expiry_of(l@) is None,
        },
{
    proof {
        reveal_strlit("expires=");
        lemma_find_from(l@, "expires="@, 0);
    }
    let i = match find_from_exec(l, "expires=", 0) {
        Some(i) => i,
        None => return None,
    };
    assert(i + 8 <= l.len());
    let mut rest: Vec<char> = Vec::new();
    let mut k: usize = i + 8;
    while k < l.len()
        invariant
            i + 8 <= k || k <= l.len(),
            i + 8 <= l.len(),
            i + 8 <= k <= l.len(),
            rest@ == l@.subrange(i + 8, k as int),
        decreases l.len() - k,
    {
        rest.push(l[k]);
        k += 1;
        assert(rest@ =~= l@.subrange(i + 8, k as int));
    }
    assert(rest@ =~= l@.skip(i + 8));
    proof {
        lemma_find_from(rest@, "expires="@, 0);
    }
    let segment: Vec<char> = match find_from_exec(rest.as_slice(), "expires=", 0) {
        Some(j) => {
            let mut seg: Vec<char> = Vec::new();
            let mut m: usize = 0;
            while m < j
                invariant
                    m <= j,
                    j <= rest.len(),
                    seg@ == rest@.take(m as int),
                decreases j - m,
            {
                seg.push(rest[m]);
                m += 1;
                assert(seg@ =~= rest@.take(m as int));
            }
            seg
        },
        None => rest,
    };
    let ws = crate::text::words_exec(segment.as_slice());
    if ws.len() > 0 {
        assert(deep(ws@)[0] == ws@[0]@);
        Some(ws[0].clone())
    } else {
        None
    }
}

fn text_less_exec(a: &[char], b: &[char]) -> (r: bool)
    ensures
        r == text_less(a@, b@),
{
    let mut i: usize = 0;
    assert(a@.skip(0) =~= a@);
    assert(b@.skip(0) =~= b@);
    while i < a.len() && i < b.len()
        invariant
            i <= a.len(),
            i <= b.len(),
            text_less(a@, b@) == text_less(a@.skip(i as int), b@.skip(i as int)),
            forall|k: int| 0 <= k < i ==> a@[k] == b@[k],
        decreases a.len() - i,
    {
        if a[i] != b[i] {
            assert(a@.skip(i as int)[0] == a@[i as int]);
            assert(b@.skip(i as int)[0] == b@[i as int]);
            return a[i] < b[i];
        }
        assert(a@.skip(i as int).drop_first() =~= a@.skip(i + 1));
        assert(b@.skip(i as int).drop_first() =~= b@.skip(i + 1));
        i += 1;
    }
    i < b.len()
}

fn expired_line_exec(l: &[char], today: &[char]) -> (r: bool)
    ensures
        r == expired_line(l@, today@),
{
    match expiry_exec(l) {
        Some(e) => {
            let s = crate::text::string_of(e.as_slice());
            s.as_str().len() == 10 && text_less_exec(e.as_slice(), today)
        },
        None => false,
    }
}

fn line_hit_exec(r: Review, today: &[char], p: &[char], ls: &Vec<Vec<char>>, i: usize) -> (res: bool)
    requires
        i < ls.len(),
    ensures
        res == line_hit(r, today@, p@, deep(ls@), i as int),
{
    assert(deep(ls@)[i as int] == ls@[i as int]@);
    let lv = crate::text::to_lower(ls[i].as_slice());
    let l = lv.as_slice();
    match r {
        Review::Determinism => determinism_line_exec(l),
        Review::Construction => construction_line_exec(l),
        Review::Endpoints | Review::ControlledEndpoints | Review::UncontrolledEndpoints => endpoint_line_exec(p, l),
        Review::Logging => logging_line_exec(l),
        Review::Accessibility => accessibility_line_exec(l),
        Review::Responsive => responsive_line_exec(l),
        Review::Boundary => boundary_line_exec(ls, i),
        Review::Justification => {
            let marker = contains_str(l, "todo") || contains_str(l, "fixme") || contains_str(l, "temporary")
                || contains_str(l, "disable");
            let complete = contains_str(l, "reason=") && contains_str(l, "owner=") && contains_str(l, "expires=")
                && contains_str(l, "delete=");
            marker && (!complete || expired_line_exec(l, today))
        },
        Review::Expired => {
            let marker = contains_str(l, "todo") || contains_str(l, "fixme") || contains_str(l, "temporary")
                || contains_str(l, "disable");
            let complete = contains_str(l, "reason=") && contains_str(l, "owner=") && contains_str(l, "expires=")
                && contains_str(l, "delete=");
            marker && complete && expired_line_exec(l, today)
        },
    }
}

/// The flagged lines of one admitted file as locations.
fn file_locations(r: Review, today: &[char], file: &String, source: &String) -> (res: Vec<Location>)
    ensures
        loc_views(res@) == found_views(file_hits(r, today@, file@, source@).map_values(|j: nat| (file@, j))),
{
    let mut out: Vec<Location> = Vec::new();
    if !admitted_exec(r, file.as_str(), source.as_str()) {
        assert(loc_views(out@) =~= found_views(file_hits(r, today@, file@, source@).map_values(|j: nat| (file@, j))));
        return out;
    }
    let fc = crate::text::chars_of(file.as_str());
    let p = crate::text::to_lower(fc.as_slice());
    let c = crate::text::chars_of(source.as_str());
    let ls = crate::text::lines_exec(c.as_slice());
    let ghost lv = deep(ls@);
    let mut k: usize = 0;
    assert(loc_views(out@) =~= Seq::empty());
    assert(found_views(line_hits(r, today@, p@, lv, 0).map_values(|j: nat| (file@, j))) =~= Seq::empty());
    while k < ls.len()
        invariant
            lv == deep(ls@),
            lv == lines(source@),
            p@ == lower(file@),
            k <= ls.len(),
            loc_views(out@) == found_views(line_hits(r, today@, p@, lv, k as nat).map_values(|j: nat| (file@, j))),
        decreases ls.len() - k,
    {
        let ghost before = out@;
        if line_hit_exec(r, today, p.as_slice(), &ls, k) {
            let n: u64 = (k as u64) + 1;
            out.push(Location { file: file.clone(), line: Some(n) });
            assert(loc_views(out@) =~= loc_views(before).push((file@, Some(n))));
        }
        assert(loc_views(out@) =~= found_views(line_hits(r, today@, p@, lv, (k + 1) as nat).map_values(|j: nat| (file@, j))));
        k += 1;
    }
    out
}

/// The review's findings over the files (each with its source, or `None`
/// when it could not be read). `today` is the current date as
/// `YYYY-MM-DD`; only the expiry reviews read it.
pub fn review_locations(r: Review, today: &str, files: &Vec<(String, Option<String>)>) -> (res: Vec<Location>)
    ensures
        loc_views(res@) == found_views(review_found(r, today@, files@)),
{
    let t = crate::text::chars_of(today);
    let mut out: Vec<Location> = Vec::new();
    let mut i: usize = 0;
    assert(files@.take(0) =~= Seq::<(String, Option<String>)>::empty());
    assert(loc_views(out@) =~= found_views(review_found(r, today@, files@.take(0))));
    while i < files.len()
        invariant
            i <= files.len(),
            t@ == today@,
            loc_views(out@) == found_views(review_found(r, today@, files@.take(i as int))),
        decreases files.len() - i,
    {
        assert(files@.take(i + 1).drop_last() =~= files@.take(i as int));
        assert(files@.take(i + 1).last() == files@[i as int]);
        match &files[i].1 {
            Some(source) => {
                let found = file_locations(r, t.as_slice(), &files[i].0, source);
                let ghost before = out@;
                let mut m: usize = 0;
                while m < found.len()
                    invariant
                        m <= found.len(),
                        loc_views(out@) == loc_views(before) + loc_views(found@).take(m as int),
                    decreases found.len() - m,
                {
                    let ghost b = out@;
                    out.push(found[m].clone_location());
                    assert(loc_views(out@) =~= loc_views(b).push((found@[m as int].file@, found@[m as int].line)));
                    assert(loc_views(found@).take(m + 1) =~= loc_views(found@).take(m as int).push(
                        (found@[m as int].file@, found@[m as int].line),
                    ));
                    m += 1;
                }
                assert(loc_views(found@).take(found.len() as int) =~= loc_views(found@));
                let ghost fh = file_hits(r, today@, files@[i as int].0@, source@).map_values(
                    |j: nat| (files@[i as int].0@, j),
                );
                assert(found_views(review_found(r, today@, files@.take(i as int)) + fh) =~= found_views(
                    review_found(r, today@, files@.take(i as int)),
                ) + found_views(fh));
            },
            None => {},
        }
        i += 1;
    }
    assert(files@.take(files.len() as int) =~= files@);
    out
}

// ---------------------------------------------------------------------------
// Results.

/// The status of a review that needs files: not applicable without any,
/// passed without findings, otherwise a warning.
pub open spec fn review_status(no_files: bool, found: nat) -> Status {
    if no_files {
        Status::NotApplicable
    } else if found == 0 {
        Status::Passed
    } else {
        Status::Warning
    }
}

/// A native review result with the given fields, no tool version and no
/// finding descriptions.
pub open spec fn is_review_result(
    res: EnforcementResult,
    rule_id: Seq<char>,
    status: Status,
    severity: Severity,
    message: Seq<char>,
    found: Seq<(Seq<char>, nat)>,
    remediation: Option<Seq<char>>,
    check: Seq<char>,
) -> bool {
    &&& res.rule_id@ == rule_id
    &&& res.status == status
    &&& res.severity == severity
    &&& res.message@ == message
    &&& loc_views(res.locations@) == found_views(found)
    &&& match (res.remediation, remediation) {
        (Some(a), Some(b)) => a@ == b,
        (None, None) => true,
        _ => false,
    }
    &&& res.evidence.check@ == check
    &&& res.evidence.tool_version is None
    &&& res.evidence.finding_descriptions@.len() == 0
}

/// Builds a native review result.
pub fn review_result(
    rule_id: &str,
    status: Status,
    severity: Severity,
    message: String,
    locations: Vec<Location>,
    remediation: Option<&str>,
    check: &str,
) -> (res: EnforcementResult)
    ensures
        res.rule_id@ == rule_id@,
        res.status == status,
        res.severity == severity,
        res.message@ == message@,
        res.locations@ == locations@,
        match (res.remediation, remediation) {
            (Some(a), Some(b)) => a@ == b@,
            (None, None) => true,
            _ => false,
        },
        res.evidence.check@ == check@,
        res.evidence.tool_version is None,
        res.evidence.finding_descriptions@.len() == 0,
{
    EnforcementResult {
        rule_id: String::from_str(rule_id),
        status,
        severity,
        message,
        locations,
        remediation: match remediation {
            Some(m) => Some(String::from_str(m)),
            None => None,
        },
        evidence: ResultEvidence {
            check: String::from_str(check),
            tool_version: None,
            finding_descriptions: Vec::new(),
        },
    }
}

/// The status of a simple review, computed.
pub fn review_status_exec(no_files: bool, found: usize) -> (r: Status)
    ensures
        r == review_status(no_files, found as nat),
{
    if no_files {
        Status::NotApplicable
    } else if found == 0 {
        Status::Passed
    } else {
        Status::Warning
    }
}

/// `Review <n><rest>`, the message of a review with findings.
pub fn count_message(prefix: &str, n: usize, rest: &str) -> (r: String)
    ensures
        r@ == prefix@ + crate::checks::commands::supervisor::decimal(n as nat) + rest@,
{
    let d = crate::checks::commands::supervisor::decimal_string(n as u64);
    crate::text::concat3(prefix, d.as_str(), rest)
}

} // verus!
