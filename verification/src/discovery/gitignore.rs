//! The bounded gitignore subset discovery honors: literal, `*`, `?`,
//! character-class and `**` patterns, with every step charged to a shared
//! matching budget so that hostile rules fail closed instead of running long.

use vstd::prelude::*;

verus! {

/// The most matching work one discovery may spend.
pub const MAX_GITIGNORE_MATCHING_WORK: usize = 4194304;

/// The longest pattern, in bytes, that is matched at all.
pub const MAX_GITIGNORE_PATTERN_BYTES: usize = 4096;

/// The outcome of matching a pattern.
#[derive(Debug, Clone, Copy, PartialEq, Eq, Structural)]
pub enum GlobMatch {
    NoMatch,
    Matched,
    Unsupported,
    BudgetExceeded,
}

// ---------------------------------------------------------------------------
// The budget.

/// Charges `amount` to the budget when it fits, leaving it unchanged otherwise.
pub fn consume_matching_work(matching_work: &mut usize, amount: usize) -> (r: bool)
    ensures
        r == (old(matching_work) + amount <= MAX_GITIGNORE_MATCHING_WORK),
        r ==> *final(matching_work) == old(matching_work) + amount,
        !r ==> *final(matching_work) == *old(matching_work),
{
    let next = match matching_work.checked_add(amount) {
        Some(n) => n,
        None => return false,
    };
    if next > MAX_GITIGNORE_MATCHING_WORK {
        return false;
    }
    *matching_work = next;
    true
}

// ---------------------------------------------------------------------------
// Character classes.

/// Reads a class body from `idx`: items are single bytes or `a-z` ranges
/// (a reversed range is malformed); the first `]` after an item closes it.
pub open spec fn class_scan(p: Seq<u8>, idx: int, negated: bool, matched: bool, has_item: bool, b: u8) -> Option<(int, bool)>
    decreases p.len() - idx,
{
    if idx < 0 || idx >= p.len() {
        None
    } else if p[idx] == 93u8 && has_item {
        Some((idx + 1, if negated { !matched } else { matched }))
    } else {
        let first = p[idx];
        if idx + 2 < p.len() && p[idx + 1] == 45u8 {
            let last = p[idx + 2];
            if first > last {
                None
            } else {
                class_scan(p, idx + 3, negated, matched || (first <= b && b <= last), true, b)
            }
        } else {
            class_scan(p, idx + 1, negated, matched || first == b, true, b)
        }
    }
}

/// The class opening at `start` (a `[`): where it ends and whether it admits
/// `b`, or `None` when it is malformed; `!` or `^` first negates it.
pub open spec fn class_at(p: Seq<u8>, start: int, b: u8) -> Option<(int, bool)> {
    let i = start + 1;
    let negated = i < p.len() && (p[i] == 33u8 || p[i] == 94u8);
    class_scan(p, if negated { i + 1 } else { i }, negated, false, false, b)
}

proof fn lemma_class_scan_end(p: Seq<u8>, idx: int, negated: bool, matched: bool, has_item: bool, b: u8)
    ensures
        class_scan(p, idx, negated, matched, has_item, b) matches Some((e, _)) ==> idx + 1 <= e <= p.len(),
    decreases p.len() - idx,
{
    if 0 <= idx < p.len() && !(p[idx] == 93u8 && has_item) {
        let first = p[idx];
        if idx + 2 < p.len() && p[idx + 1] == 45u8 {
            if first <= p[idx + 2] {
                lemma_class_scan_end(p, idx + 3, negated, matched || (first <= b && b <= p[idx + 2]), true, b);
            }
        } else {
            lemma_class_scan_end(p, idx + 1, negated, matched || first == b, true, b);
        }
    }
}

/// A class ends past its opening bracket and within the pattern.
pub proof fn lemma_class_end(p: Seq<u8>, start: int, b: u8)
    requires
        0 <= start,
    ensures
        class_at(p, start, b) matches Some((e, _)) ==> start + 2 <= e <= p.len(),
{
    let i = start + 1;
    let negated = i < p.len() && (p[i] == 33u8 || p[i] == 94u8);
    lemma_class_scan_end(p, if negated { i + 1 } else { i }, negated, false, false, b);
}

/// Whether the class at `start` is malformed does not depend on the byte.
proof fn lemma_class_scan_shape(p: Seq<u8>, idx: int, negated: bool, m1: bool, m2: bool, has_item: bool, b1: u8, b2: u8)
    ensures
        (class_scan(p, idx, negated, m1, has_item, b1) is None) == (class_scan(p, idx, negated, m2, has_item, b2) is None),
        class_scan(p, idx, negated, m1, has_item, b1) matches Some((e, _)) ==> class_scan(p, idx, negated, m2, has_item, b2) matches Some((e2, _)) && e2 == e,
    decreases p.len() - idx,
{
    if 0 <= idx < p.len() && !(p[idx] == 93u8 && has_item) {
        let first = p[idx];
        if idx + 2 < p.len() && p[idx + 1] == 45u8 {
            if first <= p[idx + 2] {
                lemma_class_scan_shape(p, idx + 3, negated, m1 || (first <= b1 && b1 <= p[idx + 2]),
                    m2 || (first <= b2 && b2 <= p[idx + 2]), true, b1, b2);
            }
        } else {
            lemma_class_scan_shape(p, idx + 1, negated, m1 || first == b1, m2 || first == b2, true, b1, b2);
        }
    }
}

pub fn character_class(pattern: &[u8], start: usize, byte: u8) -> (r: Option<(usize, bool)>)
    requires
        start < pattern@.len(),
    ensures
        match r {
            Some((e, m)) => class_at(pattern@, start as int, byte) == Some((e as int, m)),
            None => class_at(pattern@, start as int, byte) is None,
        },
{
    let ghost p = pattern@;
    let len = pattern.len();
    let mut index = start + 1;
    let negated = index < pattern.len() && (pattern[index] == 33u8 || pattern[index] == 94u8);
    if negated {
        index += 1;
    }
    let mut matched = false;
    let mut has_item = false;
    while index < pattern.len()
        invariant
            p == pattern@,
            start < index <= pattern.len() + 1,
            class_scan(p, index as int, negated, matched, has_item, byte) == class_at(p, start as int, byte),
        decreases pattern.len() - index,
    {
        if pattern[index] == 93u8 && has_item {
            return Some((index + 1, if negated { !matched } else { matched }));
        }
        let first = pattern[index];
        has_item = true;
        index += 1;
        if index < pattern.len() && pattern[index] == 45u8 && index + 1 < pattern.len() {
            let last = pattern[index + 1];
            if first > last {
                return None;
            }
            matched = matched || (first <= byte && byte <= last);
            index += 2;
        } else {
            matched = matched || first == byte;
        }
    }
    None
}

// ---------------------------------------------------------------------------
// Segment patterns.

/// The UTF-8 bytes of a text.
pub open spec fn bytes_of(s: Seq<char>) -> Seq<u8> {
    vstd::utf8::encode_utf8(s)
}

/// The pattern bytes that make a segment a wildcard.
pub open spec fn has_wildcard(p: Seq<u8>) -> bool {
    exists|k: int| 0 <= k < p.len() && (p[k] == 42u8 || p[k] == 63u8 || p[k] == 91u8)
}

/// Walks a pattern's classes from `idx`: a malformed class is unsupported.
pub open spec fn classes_malformed(p: Seq<u8>, idx: int) -> bool
    decreases p.len() - idx,
{
    if idx < 0 || idx >= p.len() {
        false
    } else if p[idx] == 91u8 {
        match class_at(p, idx, 0u8) {
            None => true,
            Some((end, _)) => {
                proof {
                    lemma_class_end(p, idx, 0u8);
                }
                classes_malformed(p, end)
            },
        }
    } else {
        classes_malformed(p, idx + 1)
    }
}

/// Syntax this matcher does not take: an overlong pattern, an escape, a
/// brace, or a malformed class.
pub open spec fn unsupported_pattern(p: Seq<u8>) -> bool {
    p.len() > MAX_GITIGNORE_PATTERN_BYTES || (exists|k: int|
        0 <= k < p.len() && (p[k] == 92u8 || p[k] == 123u8 || p[k] == 125u8)) || classes_malformed(p, 0)
}

pub fn pattern_is_unsupported(pattern: &str) -> (r: bool)
    ensures
        r == unsupported_pattern(bytes_of(pattern@)),
{
    let bytes = pattern.as_bytes();
    let ghost p = bytes@;
    assert(p == bytes_of(pattern@));
    if bytes.len() > MAX_GITIGNORE_PATTERN_BYTES {
        return true;
    }
    let mut k: usize = 0;
    while k < bytes.len()
        invariant
            p == bytes@,
            p == bytes_of(pattern@),
            k <= bytes.len(),
            forall|q: int| 0 <= q < k ==> !(p[q] == 92u8 || p[q] == 123u8 || p[q] == 125u8),
        decreases bytes.len() - k,
    {
        if bytes[k] == 92u8 || bytes[k] == 123u8 || bytes[k] == 125u8 {
            return true;
        }
        k += 1;
    }
    let mut index: usize = 0;
    while index < bytes.len()
        invariant
            p == bytes@,
            p == bytes_of(pattern@),
            index <= bytes.len(),
            classes_malformed(p, index as int) == classes_malformed(p, 0),
        decreases bytes.len() - index,
    {
        if bytes[index] == 91u8 {
            match character_class(bytes, index, 0u8) {
                None => return true,
                Some((end, _)) => {
                    proof {
                        lemma_class_end(p, index as int, 0u8);
                    }
                    index = end;
                },
            }
        } else {
            index += 1;
        }
    }
    false
}

/// The segment pattern matches the text from pattern byte `i` and text byte
/// `j` on: `*` takes any run of bytes, `?` one byte, a class one byte it
/// admits, and any other byte itself.
pub open spec fn glob_from(p: Seq<u8>, t: Seq<u8>, i: int, j: int) -> bool
    decreases p.len() - i, t.len() - j,
{
    if i < 0 || j < 0 || i >= p.len() {
        i == p.len() && j == t.len()
    } else if p[i] == 42u8 {
        glob_from(p, t, i + 1, j) || (j < t.len() && glob_from(p, t, i, j + 1))
    } else if j >= t.len() {
        false
    } else if p[i] == 63u8 {
        glob_from(p, t, i + 1, j + 1)
    } else if p[i] == 91u8 {
        match class_at(p, i, t[j]) {
            Some((end, true)) => {
                proof {
                    lemma_class_end(p, i, t[j]);
                }
                glob_from(p, t, end, j + 1)
            },
            _ => false,
        }
    } else {
        p[i] == t[j] && glob_from(p, t, i + 1, j + 1)
    }
}

pub open spec fn glob_matches(p: Seq<u8>, t: Seq<u8>) -> bool {
    glob_from(p, t, 0, 0)
}

/// Matching one path segment: the pattern's length plus one is charged
/// first; unsupported syntax, or a wildcard against non-ASCII text, is
/// unsupported; then the match table's cells are charged and the pattern is
/// matched. A charge that does not fit exceeds the budget.
pub open spec fn segment_outcome(p: Seq<char>, t: Seq<char>, w: nat) -> (GlobMatch, nat) {
    let pb = bytes_of(p);
    let tb = bytes_of(t);
    let w1 = w + pb.len() + 1;
    if w1 > MAX_GITIGNORE_MATCHING_WORK {
        (GlobMatch::BudgetExceeded, w)
    } else if unsupported_pattern(pb) {
        (GlobMatch::Unsupported, w1)
    } else if !vstd::utf8::is_ascii_chars(t) && has_wildcard(pb) {
        (GlobMatch::Unsupported, w1)
    } else if w1 + (pb.len() + 1) * (tb.len() + 1) > MAX_GITIGNORE_MATCHING_WORK {
        (GlobMatch::BudgetExceeded, w1)
    } else {
        (if glob_matches(pb, tb) { GlobMatch::Matched } else { GlobMatch::NoMatch }, w1 + (pb.len() + 1) * (tb.len() + 1))
    }
}

/// Fills the match table from the end: row `i` (stored at `P - i`) holds,
/// at `L - j`, whether pattern bytes from `i` match text bytes from `j`.
fn glob_bytes(p: &[u8], t: &[u8]) -> (r: bool)
    requires
        p@.len() < usize::MAX,
        t@.len() < usize::MAX,
    ensures
        r == glob_matches(p@, t@),
{
    let plen = p.len();
    let tlen = t.len();
    let mut rows: Vec<Vec<bool>> = Vec::new();
    let mut k: usize = 0;
    while k <= plen
        invariant
            plen == p@.len(),
            tlen == t@.len(),
            plen < usize::MAX,
            tlen < usize::MAX,
            k <= plen + 1,
            rows@.len() == k,
            forall|kk: int| 0 <= kk < k ==> #[trigger] rows@[kk]@.len() == tlen + 1,
            forall|kk: int, m: int| 0 <= kk < k && 0 <= m <= tlen ==> #[trigger] rows@[kk]@[m] == glob_from(p@, t@, plen - kk, tlen - m),
        decreases plen + 1 - k,
    {
        let i = plen - k;
        let mut row: Vec<bool> = Vec::new();
        let mut m: usize = 0;
        while m <= tlen
            invariant
                plen == p@.len(),
                tlen == t@.len(),
                plen < usize::MAX,
                tlen < usize::MAX,
                k <= plen,
                i == plen - k,
                rows@.len() == k,
                forall|kk: int| 0 <= kk < k ==> #[trigger] rows@[kk]@.len() == tlen + 1,
                forall|kk: int, mm: int| 0 <= kk < k && 0 <= mm <= tlen ==> #[trigger] rows@[kk]@[mm] == glob_from(p@, t@, plen - kk, tlen - mm),
                m <= tlen + 1,
                row@.len() == m,
                forall|mm: int| 0 <= mm < m ==> #[trigger] row@[mm] == glob_from(p@, t@, i as int, tlen - mm),
            decreases tlen + 1 - m,
        {
            let j = tlen - m;
            let cell = if k == 0 {
                m == 0
            } else if p[i] == 42u8 {
                rows[k - 1][m] || (m > 0 && row[m - 1])
            } else if m == 0 {
                false
            } else if p[i] == 63u8 {
                rows[k - 1][m - 1]
            } else if p[i] == 91u8 {
                match character_class(p, i, t[j]) {
                    Some((end, true)) => {
                        proof {
                            lemma_class_end(p@, i as int, t@[j as int]);
                        }
                        rows[plen - end][m - 1]
                    },
                    _ => false,
                }
            } else {
                p[i] == t[j] && rows[k - 1][m - 1]
            };
            row.push(cell);
            m += 1;
        }
        rows.push(row);
        k += 1;
    }
    rows[plen][tlen]
}

/// Matches one path segment against a segment pattern, charging the budget
/// (see `segment_outcome`).
#[verifier::loop_isolation(false)]
pub fn glob_match_segment(pattern: &str, text: &str, matching_work: &mut usize) -> (r: GlobMatch)
    ensures
        (r, *final(matching_work) as nat) == segment_outcome(pattern@, text@, *old(matching_work) as nat),
{
    let pb = pattern.as_bytes();
    let tb = text.as_bytes();
    assert(pb@ == bytes_of(pattern@));
    assert(tb@ == bytes_of(text@));
    let classification_cost = pb.len().saturating_add(1);
    if !consume_matching_work(matching_work, classification_cost) {
        return GlobMatch::BudgetExceeded;
    }
    if pattern_is_unsupported(pattern) {
        return GlobMatch::Unsupported;
    }
    if !text.is_ascii() {
        let mut k: usize = 0;
        while k < pb.len()
            invariant
                k <= pb.len(),
                forall|q: int| 0 <= q < k ==> !(pb@[q] == 42u8 || pb@[q] == 63u8 || pb@[q] == 91u8),
            decreases pb.len() - k,
        {
            if pb[k] == 42u8 || pb[k] == 63u8 || pb[k] == 91u8 {
                return GlobMatch::Unsupported;
            }
            k += 1;
        }
    }
    let p1 = pb.len() + 1;
    let t1 = match tb.len().checked_add(1) {
        Some(x) => x,
        None => {
            assert((pb@.len() + 1) * (tb@.len() + 1) >= tb@.len() + 1) by (nonlinear_arith);
            return GlobMatch::BudgetExceeded;
        },
    };
    let cells = match p1.checked_mul(t1) {
        Some(c) => c,
        None => return GlobMatch::BudgetExceeded,
    };
    if !consume_matching_work(matching_work, cells) {
        return GlobMatch::BudgetExceeded;
    }
    if glob_bytes(pb, tb) {
        GlobMatch::Matched
    } else {
        GlobMatch::NoMatch
    }
}

// ---------------------------------------------------------------------------
// Path patterns.

pub open spec fn is_globstar(s: Seq<char>) -> bool {
    s == "**"@
}

/// Pattern segment `i` matches path segment `j`.
pub open spec fn segment_matches(pat: Seq<Seq<char>>, path: Seq<Seq<char>>, i: int, j: int) -> bool {
    glob_matches(bytes_of(pat[i]), bytes_of(path[j]))
}

/// How the match table is entered at pattern index `i`, path index `j` from
/// the row above: the start, a `**` that matches nothing more, or a segment
/// that matched.
pub open spec fn from_above(pat: Seq<Seq<char>>, path: Seq<Seq<char>>, i: int, j: int) -> bool
    decreases i, 0int,
{
    if i < 0 || j < 0 || i > pat.len() || j > path.len() {
        false
    } else if i == 0 {
        j == 0
    } else {
        (is_globstar(pat[i - 1]) && path_reach(pat, path, i - 1, j)) || (j > 0 && !is_globstar(pat[i - 1])
            && segment_matches(pat, path, i - 1, j - 1) && path_reach(pat, path, i - 1, j - 1))
    }
}

/// The first `i` pattern segments can match the first `j` path segments:
/// `**` matches any number of path segments, every other pattern segment
/// exactly one.
pub open spec fn path_reach(pat: Seq<Seq<char>>, path: Seq<Seq<char>>, i: int, j: int) -> bool
    decreases i, 1int + j,
{
    if i < 0 || j < 0 || i > pat.len() || j > path.len() {
        false
    } else {
        from_above(pat, path, i, j) || (j > 0 && i < pat.len() && is_globstar(pat[i]) && path_reach(pat, path, i, j - 1))
    }
}

/// The matcher at one table cell: a reachable cell whose pattern segment is
/// not `**` runs the segment matcher, and a budget or syntax failure there
/// stops the matcher.
pub open spec fn cell_run(pat: Seq<Seq<char>>, path: Seq<Seq<char>>, i: int, j: int, w: nat) -> (Option<GlobMatch>, nat) {
    if path_reach(pat, path, i, j) && i < pat.len() && !is_globstar(pat[i]) && j < path.len() {
        let (m, w2) = segment_outcome(pat[i], path[j], w);
        if m == GlobMatch::BudgetExceeded || m == GlobMatch::Unsupported {
            (Some(m), w2)
        } else {
            (None, w2)
        }
    } else {
        (None, w)
    }
}

/// The first `j` cells of row `i`, in order.
pub open spec fn row_run(pat: Seq<Seq<char>>, path: Seq<Seq<char>>, i: int, j: nat, w: nat) -> (Option<GlobMatch>, nat)
    decreases j,
{
    if j == 0 {
        (None, w)
    } else {
        let (o, w1) = row_run(pat, path, i, (j - 1) as nat, w);
        if o is Some {
            (o, w1)
        } else {
            cell_run(pat, path, i, j - 1, w1)
        }
    }
}

/// The first `i` rows, in order.
pub open spec fn rows_run(pat: Seq<Seq<char>>, path: Seq<Seq<char>>, i: nat, w: nat) -> (Option<GlobMatch>, nat)
    decreases i,
{
    if i == 0 {
        (None, w)
    } else {
        let (o, w1) = rows_run(pat, path, (i - 1) as nat, w);
        if o is Some {
            (o, w1)
        } else {
            row_run(pat, path, i - 1, path.len() + 1, w1)
        }
    }
}

/// Matching a path: the table's cells are charged first, then each reachable
/// cell is matched in row order (see `cell_run`); the path matches when the
/// whole pattern can match the whole path.
pub open spec fn path_outcome(pat: Seq<Seq<char>>, path: Seq<Seq<char>>, w: nat) -> (GlobMatch, nat) {
    let cells = (pat.len() + 1) * (path.len() + 1);
    if w + cells > MAX_GITIGNORE_MATCHING_WORK {
        (GlobMatch::BudgetExceeded, w)
    } else {
        let (o, w1) = rows_run(pat, path, pat.len(), w + cells);
        match o {
            Some(m) => (m, w1),
            None => (if path_reach(pat, path, pat.len() as int, path.len() as int) {
                GlobMatch::Matched
            } else {
                GlobMatch::NoMatch
            }, w1),
        }
    }
}

proof fn lemma_row_run_stops(pat: Seq<Seq<char>>, path: Seq<Seq<char>>, i: int, j: nat, k: nat, w: nat)
    requires
        j <= k,
        row_run(pat, path, i, j, w).0 is Some,
    ensures
        row_run(pat, path, i, k, w) == row_run(pat, path, i, j, w),
    decreases k - j,
{
    if j < k {
        lemma_row_run_stops(pat, path, i, j, (k - 1) as nat, w);
    }
}

proof fn lemma_rows_run_stops(pat: Seq<Seq<char>>, path: Seq<Seq<char>>, i: nat, k: nat, w: nat)
    requires
        i <= k,
        rows_run(pat, path, i, w).0 is Some,
    ensures
        rows_run(pat, path, k, w) == rows_run(pat, path, i, w),
    decreases k - i,
{
    if i < k {
        lemma_rows_run_stops(pat, path, i, (k - 1) as nat, w);
    }
}

pub open spec fn texts(v: Seq<String>) -> Seq<Seq<char>> {
    v.map_values(|s: String| s@)
}

/// Matches a path (its segments) against a path pattern (its segments),
/// charging the budget (see `path_outcome`).
pub fn glob_match_path(pattern: &[String], path: &[String], matching_work: &mut usize) -> (r: GlobMatch)
    ensures
        (r, *final(matching_work) as nat) == path_outcome(texts(pattern@), texts(path@), *old(matching_work) as nat),
{
    let ghost pat = texts(pattern@);
    let ghost pth = texts(path@);
    let ghost w0 = *old(matching_work) as nat;
    let plen = pattern.len();
    let tlen = path.len();
    let p1 = match plen.checked_add(1) {
        Some(x) => x,
        None => {
            assert((pat.len() + 1) * (pth.len() + 1) >= pat.len() + 1) by (nonlinear_arith);
            return GlobMatch::BudgetExceeded;
        },
    };
    let t1 = match tlen.checked_add(1) {
        Some(x) => x,
        None => {
            assert((pat.len() + 1) * (pth.len() + 1) >= pth.len() + 1) by (nonlinear_arith);
            return GlobMatch::BudgetExceeded;
        },
    };
    let cells = match p1.checked_mul(t1) {
        Some(c) => c,
        None => return GlobMatch::BudgetExceeded,
    };
    if !consume_matching_work(matching_work, cells) {
        return GlobMatch::BudgetExceeded;
    }
    let ghost wc = *matching_work as nat;
    let mut cur: Vec<bool> = Vec::new();
    let mut y: usize = 0;
    while y < t1
        invariant
            t1 == tlen + 1,
            tlen == pth.len(),
            plen == pat.len(),
            pat == texts(pattern@),
            pth == texts(path@),
            y <= t1,
            cur@.len() == y,
            forall|q: int| 0 <= q < y ==> #[trigger] cur@[q] == from_above(pat, pth, 0, q),
        decreases t1 - y,
    {
        cur.push(y == 0);
        y += 1;
    }
    let mut pi: usize = 0;
    while pi < plen
        invariant
            t1 == tlen + 1,
            tlen == pth.len(),
            plen == pat.len(),
            pat == texts(pattern@),
            pth == texts(path@),
            pi <= plen,
            cur@.len() == t1,
            forall|q: int| 0 <= q < t1 ==> #[trigger] cur@[q] == from_above(pat, pth, pi as int, q),
            rows_run(pat, pth, pi as nat, wc) == (None::<GlobMatch>, *matching_work as nat),
            w0 == *old(matching_work) as nat,
            wc == w0 + (pat.len() + 1) * (pth.len() + 1),
            wc <= MAX_GITIGNORE_MATCHING_WORK,
        decreases plen - pi,
    {
        let star = crate::text::same_text(pattern[pi].as_str(), "**");
        assert(pat[pi as int] == pattern@[pi as int]@);
        let mut next: Vec<bool> = Vec::new();
        let mut q: usize = 0;
        while q < t1
            invariant
                t1 == tlen + 1,
                q <= t1,
                next@.len() == q,
                forall|z: int| 0 <= z < q ==> !(#[trigger] next@[z]),
            decreases t1 - q,
        {
            next.push(false);
            q += 1;
        }
        let ghost wr = *matching_work as nat;
        let mut ti: usize = 0;
        while ti < t1
            invariant
                t1 == tlen + 1,
                tlen == pth.len(),
                plen == pat.len(),
                pat == texts(pattern@),
                pth == texts(path@),
                pi < plen,
                star == is_globstar(pat[pi as int]),
                ti <= t1,
                cur@.len() == t1,
                next@.len() == t1,
                forall|z: int| 0 <= z < ti ==> #[trigger] cur@[z] == path_reach(pat, pth, pi as int, z),
                forall|z: int| ti <= z < t1 ==> #[trigger] cur@[z] == (from_above(pat, pth, pi as int, z) || (z == ti
                    && ti > 0 && star && path_reach(pat, pth, pi as int, ti - 1))),
                forall|z: int| 0 <= z < t1 ==> #[trigger] next@[z] == ((z < ti && star && path_reach(pat, pth, pi as int, z))
                    || (z > 0 && z - 1 < ti && !star && segment_matches(pat, pth, pi as int, z - 1)
                        && path_reach(pat, pth, pi as int, z - 1))),
                rows_run(pat, pth, pi as nat, wc) == (None::<GlobMatch>, wr),
                row_run(pat, pth, pi as int, ti as nat, wr) == (None::<GlobMatch>, *matching_work as nat),
                w0 == *old(matching_work) as nat,
                wc == w0 + (pat.len() + 1) * (pth.len() + 1),
                wc <= MAX_GITIGNORE_MATCHING_WORK,
            decreases t1 - ti,
        {
            assert(cur@[ti as int] == path_reach(pat, pth, pi as int, ti as int));
            if cur[ti] {
                if star {
                    next.set(ti, true);
                    if ti < tlen {
                        cur.set(ti + 1, true);
                    }
                } else if ti < tlen {
                    assert(pth[ti as int] == path@[ti as int]@);
                    assert(pat[pi as int] == pattern@[pi as int]@);
                    let ghost wb = *matching_work as nat;
                    let m = glob_match_segment(pattern[pi].as_str(), path[ti].as_str(), matching_work);
                    match m {
                        GlobMatch::Matched => {
                            next.set(ti + 1, true);
                        },
                        GlobMatch::NoMatch => {},
                        _ => {
                            proof {
                                assert(cell_run(pat, pth, pi as int, ti as int, wb) == (Some(m), *matching_work as nat));
                                assert(row_run(pat, pth, pi as int, (ti + 1) as nat, wr) == (Some(m), *matching_work as nat));
                                lemma_row_run_stops(pat, pth, pi as int, (ti + 1) as nat, (tlen + 1) as nat, wr);
                                assert(rows_run(pat, pth, (pi + 1) as nat, wc) == (Some(m), *matching_work as nat));
                                lemma_rows_run_stops(pat, pth, (pi + 1) as nat, plen as nat, wc);
                            }
                            return m;
                        },
                    }
                }
            }
            ti += 1;
        }
        proof {
            assert forall|z: int| 0 <= z < t1 implies #[trigger] next@[z] == from_above(pat, pth, pi + 1, z) by {}
        }
        cur = next;
        pi += 1;
    }
    proof {
        assert(cur@[tlen as int] == from_above(pat, pth, plen as int, tlen as int));
    }
    if cur[tlen] {
        GlobMatch::Matched
    } else {
        GlobMatch::NoMatch
    }
}

// ---------------------------------------------------------------------------
// Gitignore rules.

/// One rule: its path segments, and whether it is negated (`!`), anchored
/// (`/` first), for directories only (`/` last), or unsupported (a rule set
/// that could not be read is a single unsupported rule).
#[derive(Debug, Clone, PartialEq, Eq)]
pub struct GitignorePattern {
    pub segments: Vec<String>,
    pub negated: bool,
    pub anchored: bool,
    pub directory_only: bool,
    pub unsupported: bool,
}

impl GitignorePattern {
    /// The rule that ignores everything: what an unreadable rule set becomes.
    pub fn fail_closed() -> (r: Self)
        ensures
            r.segments@.len() == 0,
            !r.negated && !r.anchored && !r.directory_only && r.unsupported,
    {
        GitignorePattern {
            segments: Vec::new(),
            negated: false,
            anchored: false,
            directory_only: false,
            unsupported: true,
        }
    }
}

fn take_texts(v: &[String], n: usize) -> (r: Vec<String>)
    requires
        n <= v@.len(),
    ensures
        texts(r@) == texts(v@).take(n as int),
{
    let mut out: Vec<String> = Vec::new();
    let mut i: usize = 0;
    while i < n
        invariant
            n <= v@.len(),
            i <= n,
            texts(out@) == texts(v@).take(i as int),
        decreases n - i,
    {
        let ghost before = out@;
        out.push(v[i].clone());
        assert(texts(out@) =~= texts(before).push(v@[i as int]@));
        i += 1;
        assert(texts(out@) =~= texts(v@).take(i as int));
    }
    out
}

/// A rule whose last segment is `**` after others: it matches what lies
/// below the prefix, not the prefix itself.
pub open spec fn trailing_globstar(p: GitignorePattern) -> bool {
    !p.negated && texts(p.segments@).len() > 1 && is_globstar(texts(p.segments@).last())
}

/// The ends `0..k` of the path tried against the prefix of a trailing-`**`
/// rule: a budget failure stops; a match of the whole path marks the parent,
/// of a shorter part a descendant.
pub open spec fn prefix_scan(prefix: Seq<Seq<char>>, rel: Seq<Seq<char>>, k: nat, w: nat) -> (bool, bool, bool, nat)
    decreases k,
{
    if k == 0 {
        (false, false, false, w)
    } else {
        let (st, par, des, w1) = prefix_scan(prefix, rel, (k - 1) as nat, w);
        if st {
            (st, par, des, w1)
        } else {
            let end = k - 1;
            let (m, w2) = path_outcome(prefix, rel.take(end), w1);
            if m == GlobMatch::BudgetExceeded {
                (true, par, des, w2)
            } else if m == GlobMatch::Matched {
                if end == rel.len() {
                    (false, true, des, w2)
                } else {
                    (false, par, true, w2)
                }
            } else {
                (false, par, des, w2)
            }
        }
    }
}

/// The first `k` path segments tried against a single-segment rule: a match
/// or a budget failure stops; an unsupported segment is remembered.
pub open spec fn any_scan(seg: Seq<char>, rel: Seq<Seq<char>>, k: nat, w: nat) -> (Option<GlobMatch>, bool, nat)
    decreases k,
{
    if k == 0 {
        (None, false, w)
    } else {
        let (o, u, w1) = any_scan(seg, rel, (k - 1) as nat, w);
        if o is Some {
            (o, u, w1)
        } else {
            let (m, w2) = segment_outcome(seg, rel[k - 1], w1);
            if m == GlobMatch::Matched || m == GlobMatch::BudgetExceeded {
                (Some(m), u, w2)
            } else {
                (None, u || m == GlobMatch::Unsupported, w2)
            }
        }
    }
}

/// Matching a rule against a path: a trailing-`**` rule that matches only
/// the path itself does not match it; an anchored or multi-segment rule
/// matches the whole path; a single-segment rule matches any segment.
pub open spec fn pattern_outcome(p: GitignorePattern, rel: Seq<Seq<char>>, w: nat) -> (GlobMatch, nat) {
    let segs = texts(p.segments@);
    if segs.len() == 0 {
        (GlobMatch::NoMatch, w)
    } else {
        let (st, par, des, w1) = if trailing_globstar(p) {
            prefix_scan(segs.drop_last(), rel, rel.len() + 1, w)
        } else {
            (false, false, false, w)
        };
        if st {
            (GlobMatch::BudgetExceeded, w1)
        } else if trailing_globstar(p) && par && !des {
            (GlobMatch::NoMatch, w1)
        } else if p.anchored || segs.len() > 1 {
            path_outcome(segs, rel, w1)
        } else {
            let (o, u, w2) = any_scan(segs[0], rel, rel.len(), w1);
            match o {
                Some(m) => (m, w2),
                None => (if u { GlobMatch::Unsupported } else { GlobMatch::NoMatch }, w2),
            }
        }
    }
}

#[verifier::loop_isolation(false)]
pub fn gitignore_pattern_matches(pattern: &GitignorePattern, relative: &[String], matching_work: &mut usize) -> (r: GlobMatch)
    ensures
        (r, *final(matching_work) as nat) == pattern_outcome(*pattern, texts(relative@), *old(matching_work) as nat),
{
    let ghost segs = texts(pattern.segments@);
    let ghost rel = texts(relative@);
    let n = pattern.segments.len();
    if n == 0 {
        return GlobMatch::NoMatch;
    }
    let trailing = !pattern.negated && n > 1 && crate::text::same_text(pattern.segments[n - 1].as_str(), "**");
    assert(segs.last() == pattern.segments@[n - 1]@);
    if trailing {
        let prefix = take_texts(pattern.segments.as_slice(), n - 1);
        assert(texts(prefix@) =~= segs.drop_last());
        let ghost w0 = *matching_work as nat;
        let mut matches_parent = false;
        let mut matches_descendant = false;
        let mut end: usize = 0;
        loop
            invariant
                rel == texts(relative@),
                texts(prefix@) == segs.drop_last(),
                end <= relative.len(),
                prefix_scan(segs.drop_last(), rel, end as nat, w0) == (false, matches_parent, matches_descendant,
                    *matching_work as nat),
            decreases relative.len() - end,
        {
            let part = take_texts(relative, end);
            let m = glob_match_path(prefix.as_slice(), part.as_slice(), matching_work);
            match m {
                GlobMatch::Matched => {
                    if end == relative.len() {
                        matches_parent = true;
                    } else {
                        matches_descendant = true;
                    }
                },
                GlobMatch::BudgetExceeded => {
                    proof {
                        lemma_prefix_scan_stops(segs.drop_last(), rel, (end + 1) as nat, (rel.len() + 1) as nat, w0);
                    }
                    return GlobMatch::BudgetExceeded;
                },
                _ => {},
            }
            if end == relative.len() {
                break;
            }
            end += 1;
        }
        if matches_parent && !matches_descendant {
            return GlobMatch::NoMatch;
        }
    }
    if pattern.anchored || n > 1 {
        return glob_match_path(pattern.segments.as_slice(), relative, matching_work);
    }
    let ghost w1 = *matching_work as nat;
    assert(segs[0] == pattern.segments@[0]@);
    let mut unsupported = false;
    let mut k: usize = 0;
    while k < relative.len()
        invariant
            rel == texts(relative@),
            segs == texts(pattern.segments@),
            n == segs.len(),
            n == 1,
            k <= relative.len(),
            any_scan(segs[0], rel, k as nat, w1) == (None::<GlobMatch>, unsupported, *matching_work as nat),
        decreases relative.len() - k,
    {
        assert(rel[k as int] == relative@[k as int]@);
        let m = glob_match_segment(pattern.segments[0].as_str(), relative[k].as_str(), matching_work);
        match m {
            GlobMatch::Matched => {
                proof {
                    lemma_any_scan_stops(segs[0], rel, (k + 1) as nat, rel.len(), w1);
                }
                return GlobMatch::Matched;
            },
            GlobMatch::BudgetExceeded => {
                proof {
                    lemma_any_scan_stops(segs[0], rel, (k + 1) as nat, rel.len(), w1);
                }
                return GlobMatch::BudgetExceeded;
            },
            GlobMatch::Unsupported => {
                unsupported = true;
            },
            GlobMatch::NoMatch => {},
        }
        k += 1;
    }
    if unsupported {
        GlobMatch::Unsupported
    } else {
        GlobMatch::NoMatch
    }
}

proof fn lemma_prefix_scan_stops(prefix: Seq<Seq<char>>, rel: Seq<Seq<char>>, j: nat, k: nat, w: nat)
    requires
        j <= k,
        prefix_scan(prefix, rel, j, w).0,
    ensures
        prefix_scan(prefix, rel, k, w) == prefix_scan(prefix, rel, j, w),
    decreases k - j,
{
    if j < k {
        lemma_prefix_scan_stops(prefix, rel, j, (k - 1) as nat, w);
    }
}

proof fn lemma_any_scan_stops(seg: Seq<char>, rel: Seq<Seq<char>>, j: nat, k: nat, w: nat)
    requires
        j <= k,
        any_scan(seg, rel, j, w).0 is Some,
    ensures
        any_scan(seg, rel, k, w) == any_scan(seg, rel, j, w),
    decreases k - j,
{
    if j < k {
        lemma_any_scan_stops(seg, rel, j, (k - 1) as nat, w);
    }
}

/// Ends `1..k` of the path, each tried against the prefix of a
/// trailing-`**` rule (`prefix` true) or against the whole rule; the first
/// outcome other than no match decides.
pub open spec fn ancestor_scan(p: GitignorePattern, rel: Seq<Seq<char>>, prefix: bool, k: nat, w: nat) -> (Option<GlobMatch>, nat)
    decreases k,
{
    if k <= 1 {
        (None, w)
    } else {
        let (o, w1) = ancestor_scan(p, rel, prefix, (k - 1) as nat, w);
        if o is Some {
            (o, w1)
        } else {
            let end = k - 1;
            let (m, w2) = if prefix {
                path_outcome(texts(p.segments@).drop_last(), rel.take(end), w1)
            } else {
                pattern_outcome(p, rel.take(end), w1)
            };
            if m == GlobMatch::NoMatch {
                (None, w2)
            } else {
                (Some(m), w2)
            }
        }
    }
}

/// A rule matches a proper ancestor directory of the path.
pub open spec fn ancestor_outcome(p: GitignorePattern, rel: Seq<Seq<char>>, w: nat) -> (GlobMatch, nat) {
    if p.unsupported {
        (GlobMatch::Unsupported, w)
    } else if rel.len() == 0 {
        (GlobMatch::NoMatch, w)
    } else {
        let (o, w1) = if trailing_globstar(p) {
            ancestor_scan(p, rel, true, rel.len(), w)
        } else {
            (None, w)
        };
        match o {
            Some(m) => (m, w1),
            None => {
                let (o2, w2) = ancestor_scan(p, rel, false, rel.len(), w1);
                match o2 {
                    Some(m) => (m, w2),
                    None => (GlobMatch::NoMatch, w2),
                }
            },
        }
    }
}

proof fn lemma_ancestor_scan_stops(p: GitignorePattern, rel: Seq<Seq<char>>, prefix: bool, j: nat, k: nat, w: nat)
    requires
        j <= k,
        ancestor_scan(p, rel, prefix, j, w).0 is Some,
    ensures
        ancestor_scan(p, rel, prefix, k, w) == ancestor_scan(p, rel, prefix, j, w),
    decreases k - j,
{
    if j < k {
        lemma_ancestor_scan_stops(p, rel, prefix, j, (k - 1) as nat, w);
    }
}

fn ancestor_scan_exec(pattern: &GitignorePattern, relative: &[String], prefix: bool, matching_work: &mut usize) -> (r: Option<GlobMatch>)
    requires
        prefix ==> trailing_globstar(*pattern),
    ensures
        (r, *final(matching_work) as nat) == ancestor_scan(*pattern, texts(relative@), prefix, relative@.len(), *old(matching_work) as nat),
{
    let ghost rel = texts(relative@);
    let ghost segs = texts(pattern.segments@);
    let ghost w0 = *old(matching_work) as nat;
    if relative.len() <= 1 {
        return None;
    }
    let n = pattern.segments.len();
    let prefix_segments = if prefix { take_texts(pattern.segments.as_slice(), n - 1) } else { Vec::new() };
    assert(prefix ==> texts(prefix_segments@) =~= segs.drop_last());
    let mut end: usize = 1;
    while end < relative.len()
        invariant
            rel == texts(relative@),
            segs == texts(pattern.segments@),
            prefix ==> texts(prefix_segments@) == segs.drop_last(),
            w0 == *old(matching_work) as nat,
            1 <= end <= relative.len(),
            ancestor_scan(*pattern, rel, prefix, end as nat, w0) == (None::<GlobMatch>, *matching_work as nat),
        decreases relative.len() - end,
    {
        let part = take_texts(relative, end);
        let m = if prefix {
            glob_match_path(prefix_segments.as_slice(), part.as_slice(), matching_work)
        } else {
            gitignore_pattern_matches(pattern, part.as_slice(), matching_work)
        };
        if m != GlobMatch::NoMatch {
            proof {
                lemma_ancestor_scan_stops(*pattern, rel, prefix, (end + 1) as nat, rel.len(), w0);
            }
            return Some(m);
        }
        end += 1;
    }
    None
}

pub fn gitignore_directory_ancestor_matches(pattern: &GitignorePattern, relative: &[String], matching_work: &mut usize) -> (r: GlobMatch)
    ensures
        (r, *final(matching_work) as nat) == ancestor_outcome(*pattern, texts(relative@), *old(matching_work) as nat),
{
    let ghost segs = texts(pattern.segments@);
    if pattern.unsupported {
        return GlobMatch::Unsupported;
    }
    if relative.len() == 0 {
        return GlobMatch::NoMatch;
    }
    let n = pattern.segments.len();
    if !pattern.negated && n > 1 && crate::text::same_text(pattern.segments[n - 1].as_str(), "**") {
        assert(segs.last() == pattern.segments@[n - 1]@);
        if let Some(m) = ancestor_scan_exec(pattern, relative, true, matching_work) {
            return m;
        }
    }
    match ancestor_scan_exec(pattern, relative, false, matching_work) {
        Some(m) => m,
        None => GlobMatch::NoMatch,
    }
}

// ---------------------------------------------------------------------------
// Whether a path is ignored.

/// The components that name something: `..` climbs and is not one.
pub open spec fn named(cs: Seq<Seq<char>>) -> Seq<Seq<char>>
    decreases cs.len(),
{
    if cs.len() == 0 {
        seq![]
    } else if cs.last() == seq!['.', '.'] {
        named(cs.drop_last())
    } else {
        named(cs.drop_last()).push(cs.last())
    }
}

/// The path's named components below the root (all of them when the path is
/// not under the root); components are compared with `.` dropped.
pub open spec fn relative_segments(root: Seq<char>, path: Seq<char>) -> Seq<Seq<char>> {
    let rc = crate::paths::path_components(root);
    let pc = crate::paths::path_components(path);
    if crate::paths::is_absolute(root) == crate::paths::is_absolute(path) && crate::paths::components_start_with(pc, rc) {
        named(pc.skip(rc.len() as int))
    } else {
        named(pc)
    }
}

/// The work of splitting a path: one, plus each segment's bytes and one.
pub open spec fn split_cost(segs: Seq<Seq<char>>) -> nat
    decreases segs.len(),
{
    if segs.len() == 0 {
        1
    } else {
        split_cost(segs.drop_last()) + crate::text::byte_len(segs.last()) + 1
    }
}

/// The relative segments when their splitting cost fits the budget.
pub open spec fn segments_outcome(root: Seq<char>, path: Seq<char>, w: nat) -> (Option<Seq<Seq<char>>>, nat) {
    let segs = relative_segments(root, path);
    if split_cost(segs) > usize::MAX || w + split_cost(segs) > MAX_GITIGNORE_MATCHING_WORK {
        (None, w)
    } else {
        (Some(segs), w + split_cost(segs))
    }
}

#[verifier::loop_isolation(false)]
pub fn relative_path_segments(root: &str, path: &str, matching_work: &mut usize) -> (r: Option<Vec<String>>)
    ensures
        (match r { Some(v) => Some(texts(v@)), None => None }, *final(matching_work) as nat) == segments_outcome(
            root@,
            path@,
            *old(matching_work) as nat,
        ),
{
    let rchars = crate::text::chars_of(root);
    let pchars = crate::text::chars_of(path);
    let rc = crate::paths::path_components_exec(rchars.as_slice());
    let pc = crate::paths::path_components_exec(pchars.as_slice());
    let ghost rcv = crate::text::deep(rc@);
    let ghost pcv = crate::text::deep(pc@);
    let same_kind = (rchars.len() > 0 && rchars[0] == '/') == (pchars.len() > 0 && pchars[0] == '/');
    let start: usize = if same_kind && crate::paths::components_start_with_exec(&pc, &rc) {
        rc.len()
    } else {
        0
    };
    let ghost rest = pcv.skip(start as int);
    assert(rest == (if crate::paths::is_absolute(root@) == crate::paths::is_absolute(path@)
        && crate::paths::components_start_with(pcv, rcv) { pcv.skip(rcv.len() as int) } else { pcv.skip(0) }));
    assert(pcv.skip(0) =~= pcv);
    let mut segments: Vec<String> = Vec::new();
    let mut cost: usize = 1;
    let mut k: usize = start;
    assert(rest.take(0) =~= Seq::<Seq<char>>::empty());
    assert(texts(segments@) =~= Seq::<Seq<char>>::empty());
    while k < pc.len()
        invariant
            pcv == crate::text::deep(pc@),
            rest == pcv.skip(start as int),
            start <= k <= pc.len(),
            texts(segments@) == named(rest.take(k - start)),
            cost as nat == split_cost(named(rest.take(k - start))),
        decreases pc.len() - k,
    {
        assert(rest.take(k + 1 - start).drop_last() =~= rest.take(k - start));
        assert(rest.take(k + 1 - start).last() == pc@[k as int]@);
        let is_parent = pc[k].len() == 2 && pc[k][0] == '.' && pc[k][1] == '.';
        if is_parent {
            assert(pc@[k as int]@ =~= seq!['.', '.']);
        } else {
            assert(pc@[k as int]@ != seq!['.', '.']);
            let seg = crate::text::string_of(pc[k].as_slice());
            proof {
                let a = named(rest.take(k - start));
                assert(named(rest.take(k + 1 - start)) == a.push(seg@));
                assert(a.push(seg@).drop_last() =~= a);
                assert(split_cost(named(rest.take(k + 1 - start))) == cost + crate::text::byte_len(seg@) + 1);
            }
            let step = match seg.as_str().len().checked_add(1) {
                Some(x) => x,
                None => {
                    proof { lemma_split_cost_grows(rest, (k + 1 - start) as int); }
                    return None;
                },
            };
            cost = match cost.checked_add(step) {
                Some(x) => x,
                None => {
                    proof { lemma_split_cost_grows(rest, (k + 1 - start) as int); }
                    return None;
                },
            };
            let ghost before = segments@;
            segments.push(seg);
            assert(texts(segments@) =~= texts(before).push(pc@[k as int]@));
        }
        k += 1;
    }
    assert(rest.take(pc.len() - start) =~= rest);
    if !consume_matching_work(matching_work, cost) {
        return None;
    }
    Some(segments)
}

/// The splitting cost of a prefix never exceeds that of the whole.
proof fn lemma_split_cost_grows(cs: Seq<Seq<char>>, n: int)
    requires
        0 <= n <= cs.len(),
    ensures
        split_cost(named(cs.take(n))) <= split_cost(named(cs)),
    decreases cs.len() - n,
{
    if n < cs.len() {
        lemma_split_cost_grows(cs, n + 1);
        assert(cs.take(n + 1).drop_last() =~= cs.take(n));
        let a = named(cs.take(n));
        assert(a.push(cs[n]).drop_last() =~= a);
        assert(split_cost(named(cs.take(n))) <= split_cost(named(cs.take(n + 1))));
    } else {
        assert(cs.take(n) =~= cs);
    }
}

/// A matched negation re-includes the path: wholly for a directory or a
/// rule for files too, else only what an inherited directory rule alone
/// ignored.
pub open spec fn negated_state(p: GitignorePattern, is_dir: bool, st: (bool, bool, bool)) -> (bool, bool, bool) {
    if is_dir || !p.directory_only {
        (false, false, false)
    } else if st.1 && !st.2 {
        (false, false, st.2)
    } else {
        st
    }
}

/// One rule applied to the path, with state (ignored, ignored through a
/// directory-scoped rule, ignored directly): one unit of work per rule; a
/// directory rule is checked against a file's ancestors; any unsupported or
/// over-budget outcome ignores the path (`Some(true)`).
pub open spec fn ignore_step(p: GitignorePattern, segs: Seq<Seq<char>>, is_dir: bool, st: (bool, bool, bool), w: nat) -> (Option<bool>, (bool, bool, bool), nat) {
    if w + 1 > MAX_GITIGNORE_MATCHING_WORK {
        (Some(true), st, w)
    } else if !is_dir && p.directory_only && !p.negated {
        (None, st, w + 1)
    } else {
        let (res, w2) = if !is_dir && p.directory_only {
            ancestor_outcome(p, segs, w + 1)
        } else if p.unsupported {
            (GlobMatch::Unsupported, w + 1)
        } else {
            pattern_outcome(p, segs, w + 1)
        };
        if res == GlobMatch::Matched {
            if p.negated {
                (None, negated_state(p, is_dir, st), w2)
            } else if !is_dir && !p.directory_only {
                let (a, w3) = ancestor_outcome(p, segs, w2);
                if a == GlobMatch::Matched || a == GlobMatch::NoMatch {
                    if (p.anchored || texts(p.segments@).len() > 1) && a == GlobMatch::Matched {
                        (None, (true, true, st.2), w3)
                    } else {
                        (None, (true, st.1, true), w3)
                    }
                } else {
                    (Some(true), st, w3)
                }
            } else {
                (None, (true, false, false), w2)
            }
        } else if res == GlobMatch::NoMatch {
            (None, st, w2)
        } else {
            (Some(true), st, w2)
        }
    }
}

/// The first `k` rules applied in order; a decided outcome stops.
pub open spec fn ignore_fold(pats: Seq<GitignorePattern>, segs: Seq<Seq<char>>, is_dir: bool, k: nat, w: nat) -> (Option<bool>, (bool, bool, bool), nat)
    decreases k,
{
    if k == 0 {
        (None, (false, false, false), w)
    } else {
        let (o, st, w1) = ignore_fold(pats, segs, is_dir, (k - 1) as nat, w);
        if o is Some {
            (o, st, w1)
        } else {
            ignore_step(pats[k - 1], segs, is_dir, st, w1)
        }
    }
}

/// Whether rules ignore a path below the root: no rules ignore nothing; a
/// budget that runs out, a path that cannot be split, or an unsupported
/// rule ignores it; otherwise the last matching rule decides.
pub open spec fn ignored_outcome(root: Seq<char>, path: Seq<char>, pats: Seq<GitignorePattern>, is_dir: bool, w: nat) -> (bool, nat) {
    if pats.len() == 0 {
        (false, w)
    } else if w + 1 > MAX_GITIGNORE_MATCHING_WORK {
        (true, w)
    } else {
        let (segs, w2) = segments_outcome(root, path, w + 1);
        match segs {
            None => (true, w2),
            Some(sg) => {
                let (o, st, w3) = ignore_fold(pats, sg, is_dir, pats.len(), w2);
                (match o {
                    Some(b) => b,
                    None => st.0,
                }, w3)
            },
        }
    }
}

proof fn lemma_ignore_fold_stops(pats: Seq<GitignorePattern>, segs: Seq<Seq<char>>, is_dir: bool, j: nat, k: nat, w: nat)
    requires
        j <= k,
        ignore_fold(pats, segs, is_dir, j, w).0 is Some,
    ensures
        ignore_fold(pats, segs, is_dir, k, w) == ignore_fold(pats, segs, is_dir, j, w),
    decreases k - j,
{
    if j < k {
        lemma_ignore_fold_stops(pats, segs, is_dir, j, (k - 1) as nat, w);
    }
}

fn ignore_step_exec(
    pattern: &GitignorePattern,
    segments: &[String],
    is_directory: bool,
    state: (bool, bool, bool),
    matching_work: &mut usize,
) -> (r: (Option<bool>, (bool, bool, bool)))
    ensures
        (r.0, r.1, *final(matching_work) as nat) == ignore_step(*pattern, texts(segments@), is_directory, state, *old(matching_work) as nat),
{
    if !consume_matching_work(matching_work, 1) {
        return (Some(true), state);
    }
    let (ignored, scoped, direct) = state;
    if !is_directory && pattern.directory_only && !pattern.negated {
        return (None, state);
    }
    let result = if !is_directory && pattern.directory_only {
        gitignore_directory_ancestor_matches(pattern, segments, matching_work)
    } else if pattern.unsupported {
        GlobMatch::Unsupported
    } else {
        gitignore_pattern_matches(pattern, segments, matching_work)
    };
    match result {
        GlobMatch::Matched => {
            if pattern.negated {
                if is_directory || !pattern.directory_only {
                    (None, (false, false, false))
                } else if scoped && !direct {
                    (None, (false, false, direct))
                } else {
                    (None, state)
                }
            } else if !is_directory && !pattern.directory_only {
                let a = gitignore_directory_ancestor_matches(pattern, segments, matching_work);
                match a {
                    GlobMatch::Matched | GlobMatch::NoMatch => {
                        if (pattern.anchored || pattern.segments.len() > 1) && a == GlobMatch::Matched {
                            (None, (true, true, direct))
                        } else {
                            (None, (true, scoped, true))
                        }
                    },
                    _ => (Some(true), state),
                }
            } else {
                (None, (true, false, false))
            }
        },
        GlobMatch::NoMatch => (None, state),
        _ => (Some(true), state),
    }
}

/// Whether the gitignore rules ignore `path` (below `root`), charging the
/// budget (see `ignored_outcome`).
#[verifier::loop_isolation(false)]
pub fn gitignored(
    root: &str,
    path: &str,
    patterns: &[GitignorePattern],
    is_directory: bool,
    matching_work: &mut usize,
) -> (r: bool)
    ensures
        (r, *final(matching_work) as nat) == ignored_outcome(root@, path@, patterns@, is_directory, *old(matching_work) as nat),
{
    if patterns.len() == 0 {
        return false;
    }
    if !consume_matching_work(matching_work, 1) {
        return true;
    }
    let segments = match relative_path_segments(root, path, matching_work) {
        Some(v) => v,
        None => return true,
    };
    let ghost segs = texts(segments@);
    let ghost w2 = *matching_work as nat;
    let mut state: (bool, bool, bool) = (false, false, false);
    let mut k: usize = 0;
    while k < patterns.len()
        invariant
            segs == texts(segments@),
            k <= patterns.len(),
            ignore_fold(patterns@, segs, is_directory, k as nat, w2) == (None::<bool>, state, *matching_work as nat),
        decreases patterns.len() - k,
    {
        let (o, st) = ignore_step_exec(&patterns[k], segments.as_slice(), is_directory, state, matching_work);
        match o {
            Some(b) => {
                proof {
                    lemma_ignore_fold_stops(patterns@, segs, is_directory, (k + 1) as nat, patterns@.len(), w2);
                }
                return b;
            },
            None => {
                state = st;
            },
        }
        k += 1;
    }
    state.0
}

// ---------------------------------------------------------------------------
// Reading the rules.

/// What the repository root's `.gitignore` held: nothing, something that
/// could not be read as bounded text, or its text.
#[derive(Debug, Clone, PartialEq, Eq)]
pub enum GitignoreContents {
    Missing,
    Invalid,
    Valid(String),
}

/// A line ending `\r\n` becomes `\n`.
pub open spec fn crlf_to_lf(s: Seq<char>) -> Seq<char>
    decreases s.len(),
{
    if s.len() == 0 {
        s
    } else if s.len() >= 2 && s[0] == '\r' && s[1] == '\n' {
        seq!['\n'] + crlf_to_lf(s.skip(2))
    } else {
        seq![s[0]] + crlf_to_lf(s.skip(1))
    }
}

fn crlf_to_lf_exec(s: &[char]) -> (r: Vec<char>)
    ensures
        r@ == crlf_to_lf(s@),
{
    let mut out: Vec<char> = Vec::new();
    let mut i: usize = 0;
    assert(s@.skip(0) =~= s@);
    while i < s.len()
        invariant
            i <= s.len(),
            out@ + crlf_to_lf(s@.skip(i as int)) == crlf_to_lf(s@),
        decreases s.len() - i,
    {
        let ghost rest = s@.skip(i as int);
        if i + 1 < s.len() && s[i] == '\r' && s[i + 1] == '\n' {
            assert(rest.skip(2) =~= s@.skip(i + 2));
            assert(crlf_to_lf(rest) == seq!['\n'] + crlf_to_lf(s@.skip(i + 2)));
            out.push('\n');
            i += 2;
        } else {
            assert(rest.skip(1) =~= s@.skip(i + 1));
            assert(crlf_to_lf(rest) == seq![s@[i as int]] + crlf_to_lf(s@.skip(i + 1)));
            out.push(s[i]);
            i += 1;
        }
        assert(out@ + crlf_to_lf(s@.skip(i as int)) =~= crlf_to_lf(s@));
    }
    assert(s@.skip(i as int) =~= Seq::<char>::empty());
    assert(out@ + crlf_to_lf(s@.skip(i as int)) =~= out@);
    out
}

/// A byte below space, or DEL.
pub open spec fn ascii_control(c: char) -> bool {
    c <= '\u{1f}' || c == '\u{7f}'
}

pub open spec fn trim_end_slashes(s: Seq<char>) -> Seq<char>
    decreases s.len(),
{
    if s.len() > 0 && s.last() == '/' {
        trim_end_slashes(s.drop_last())
    } else {
        s
    }
}

pub open spec fn trim_start_slashes(s: Seq<char>) -> Seq<char>
    decreases s.len(),
{
    if s.len() > 0 && s[0] == '/' {
        trim_start_slashes(s.drop_first())
    } else {
        s
    }
}

/// The non-empty pieces, in order.
pub open spec fn nonempty(cs: Seq<Seq<char>>) -> Seq<Seq<char>>
    decreases cs.len(),
{
    if cs.len() == 0 {
        seq![]
    } else if cs.last().len() == 0 {
        nonempty(cs.drop_last())
    } else {
        nonempty(cs.drop_last()).push(cs.last())
    }
}

/// A rule as values: segments, negated, anchored, directory only.
pub type RuleView = (Seq<Seq<char>>, bool, bool, bool);

pub open spec fn rule_view(p: GitignorePattern) -> RuleView {
    (texts(p.segments@), p.negated, p.anchored, p.directory_only)
}

/// A rule without its leading `!`.
pub open spec fn rule_rest(pat: Seq<char>) -> Seq<char> {
    if pat[0] == '!' {
        pat.skip(1)
    } else {
        pat
    }
}

/// A rule's segments: its text between slashes, without empty pieces.
pub open spec fn rule_segments(pat: Seq<char>) -> Seq<Seq<char>> {
    nonempty(crate::text::split_char(trim_start_slashes(trim_end_slashes(rule_rest(pat))), '/'))
}

pub open spec fn some_unsupported(segs: Seq<Seq<char>>) -> bool {
    exists|k: int| 0 <= k < segs.len() && unsupported_pattern(bytes_of(#[trigger] segs[k]))
}

pub open spec fn has_ascii_control(line: Seq<char>) -> bool {
    exists|k: int| 0 <= k < line.len() && ascii_control(#[trigger] line[k])
}

/// What one line of a rule file gives: `Ok(None)` for a blank or comment
/// line, `Ok(Some(rule))` for a rule, `Err(())` when the rule set must fail
/// closed (a control character, a budget overrun, a rule with no segment, an
/// overlong rule or unsupported syntax); and the work then spent.
pub open spec fn line_rule(line: Seq<char>, w: nat) -> (Result<Option<RuleView>, ()>, nat) {
    let pat = crate::text::trim_end(line);
    if has_ascii_control(line) {
        (Err(()), w)
    } else if pat.len() == 0 || pat[0] == '#' {
        (Ok(None), w)
    } else if w + crate::text::byte_len(pat) + 1 > MAX_GITIGNORE_MATCHING_WORK {
        (Err(()), w)
    } else {
        let w1 = w + crate::text::byte_len(pat) + 1;
        let rest = rule_rest(pat);
        let dp = trim_end_slashes(rest);
        let segs = rule_segments(pat);
        if segs.len() == 0 {
            (Err(()), w1)
        } else if crate::text::byte_len(pat) > MAX_GITIGNORE_PATTERN_BYTES || some_unsupported(segs) {
            (Err(()), w1)
        } else {
            (Ok(Some((segs, pat[0] == '!', dp.len() > 0 && dp[0] == '/', rest.len() > 0 && rest.last() == '/'))), w1)
        }
    }
}

/// The rules of the first `k` lines, or a failure.
pub open spec fn rules_of(ls: Seq<Seq<char>>, k: nat, w: nat) -> (Option<Seq<RuleView>>, nat)
    decreases k,
{
    if k == 0 {
        (Some(seq![]), w)
    } else {
        let (acc, w1) = rules_of(ls, (k - 1) as nat, w);
        match acc {
            None => (None, w1),
            Some(rs) => {
                let (r, w2) = line_rule(ls[k - 1], w1);
                match r {
                    Err(_) => (None, w2),
                    Ok(None) => (Some(rs), w2),
                    Ok(Some(rule)) => (Some(rs.push(rule)), w2),
                }
            },
        }
    }
}

/// The rules a rule file gives: none for a missing file, the fail-closed
/// rule for an unreadable one or for a line that fails, else one rule per
/// rule line.
pub open spec fn rules_outcome(contents: GitignoreContents, w: nat) -> (Option<Seq<RuleView>>, nat) {
    match contents {
        GitignoreContents::Missing => (Some(seq![]), w),
        GitignoreContents::Invalid => (None, w),
        GitignoreContents::Valid(c) => {
            let ls = crate::text::lines(crlf_to_lf(c@));
            rules_of(ls, ls.len(), w)
        },
    }
}

proof fn lemma_rules_of_stops(ls: Seq<Seq<char>>, j: nat, k: nat, w: nat)
    requires
        j <= k,
        rules_of(ls, j, w).0 is None,
    ensures
        rules_of(ls, k, w) == rules_of(ls, j, w),
    decreases k - j,
{
    if j < k {
        lemma_rules_of_stops(ls, j, (k - 1) as nat, w);
    }
}

fn trim_slashes(s: &[char]) -> (r: (bool, Vec<char>))
    ensures
        r.0 == (trim_end_slashes(s@).len() > 0 && trim_end_slashes(s@)[0] == '/'),
        r.1@ == trim_start_slashes(trim_end_slashes(s@)),
{
    let mut end = s.len();
    assert(s@.take(s.len() as int) =~= s@);
    while end > 0 && s[end - 1] == '/'
        invariant
            end <= s.len(),
            trim_end_slashes(s@.take(end as int)) == trim_end_slashes(s@),
        decreases end,
    {
        assert(s@.take(end as int).drop_last() =~= s@.take(end - 1));
        end -= 1;
    }
    let ghost t = s@.take(end as int);
    assert(trim_end_slashes(t) == t);
    let anchored = end > 0 && s[0] == '/';
    let mut start: usize = 0;
    assert(t.skip(0) =~= t);
    while start < end && s[start] == '/'
        invariant
            start <= end,
            end <= s.len(),
            t == s@.take(end as int),
            trim_start_slashes(t.skip(start as int)) == trim_start_slashes(t),
        decreases end - start,
    {
        assert(t.skip(start as int)[0] == s@[start as int]);
        assert(t.skip(start as int).drop_first() =~= t.skip(start + 1));
        start += 1;
    }
    let mut out: Vec<char> = Vec::new();
    let mut k: usize = start;
    while k < end
        invariant
            start <= k <= end,
            end <= s.len(),
            out@ == s@.subrange(start as int, k as int),
        decreases end - k,
    {
        out.push(s[k]);
        k += 1;
        assert(out@ =~= s@.subrange(start as int, k as int));
    }
    assert(t.skip(start as int) =~= s@.subrange(start as int, end as int));
    assert(trim_start_slashes(t.skip(start as int)) == t.skip(start as int));
    (anchored, out)
}

fn nonempty_texts(parts: &Vec<Vec<char>>) -> (r: Vec<String>)
    ensures
        texts(r@) == nonempty(crate::text::deep(parts@)),
{
    let ghost d = crate::text::deep(parts@);
    let mut out: Vec<String> = Vec::new();
    let mut i: usize = 0;
    assert(d.take(0) =~= Seq::<Seq<char>>::empty());
    assert(texts(out@) =~= Seq::<Seq<char>>::empty());
    while i < parts.len()
        invariant
            d == crate::text::deep(parts@),
            i <= parts.len(),
            texts(out@) == nonempty(d.take(i as int)),
        decreases parts.len() - i,
    {
        assert(d.take(i + 1).drop_last() =~= d.take(i as int));
        assert(d.take(i + 1).last() == parts@[i as int]@);
        if parts[i].len() > 0 {
            let ghost before = out@;
            out.push(crate::text::string_of(parts[i].as_slice()));
            assert(texts(out@) =~= texts(before).push(parts@[i as int]@));
        }
        i += 1;
    }
    assert(d.take(parts.len() as int) =~= d);
    out
}

#[verifier::loop_isolation(false)]
fn line_rule_exec(line: &[char], matching_work: &mut usize) -> (r: Result<Option<GitignorePattern>, ()>)
    ensures
        (match r {
            Err(_) => Err(()),
            Ok(None) => Ok(None),
            Ok(Some(p)) => Ok(Some(rule_view(p))),
        }, *final(matching_work) as nat) == line_rule(line@, *old(matching_work) as nat),
        r matches Ok(Some(p)) ==> !p.unsupported,
{
    let ghost w_start = *matching_work as nat;
    let mut k: usize = 0;
    while k < line.len()
        invariant
            k <= line.len(),
            forall|q: int| 0 <= q < k ==> !ascii_control(#[trigger] line@[q]),
        decreases line.len() - k,
    {
        if line[k] <= '\u{1f}' || line[k] == '\u{7f}' {
            return Err(());
        }
        k += 1;
    }
    let pat = crate::text::trim_end_exec(line);
    if pat.len() == 0 || pat[0] == '#' {
        return Ok(None);
    }
    let text = crate::text::string_of(pat.as_slice());
    let blen = text.as_str().len();
    let cost = blen.saturating_add(1);
    if !consume_matching_work(matching_work, cost) {
        return Err(());
    }
    let negated = pat[0] == '!';
    let mut rest: Vec<char> = Vec::new();
    let mut q: usize = if negated { 1 } else { 0 };
    let first: usize = q;
    while q < pat.len()
        invariant
            first <= q <= pat.len(),
            rest@ == pat@.subrange(first as int, q as int),
        decreases pat.len() - q,
    {
        rest.push(pat[q]);
        q += 1;
        assert(rest@ =~= pat@.subrange(first as int, q as int));
    }
    assert(rest@ == (if negated { pat@.skip(1) } else { pat@ }));
    let directory_only = rest.len() > 0 && rest[rest.len() - 1] == '/';
    let (anchored, inner) = trim_slashes(rest.as_slice());
    let pieces = crate::text::split_char_exec(inner.as_slice(), '/');
    let segments = nonempty_texts(&pieces);
    let ghost segs = texts(segments@);
    proof {
        let pv = crate::text::trim_end(line@);
        assert(pat@ == pv);
        assert(rest@ == rule_rest(pv));
        assert(segs == rule_segments(pv));
    }
    if segments.len() == 0 {
        return Err(());
    }
    if blen > MAX_GITIGNORE_PATTERN_BYTES {
        return Err(());
    }
    let mut j: usize = 0;
    while j < segments.len()
        invariant
            segs == texts(segments@),
            j <= segments.len(),
            forall|q: int| 0 <= q < j ==> !unsupported_pattern(bytes_of(#[trigger] segs[q])),
        decreases segments.len() - j,
    {
        assert(segs[j as int] == segments@[j as int]@);
        if pattern_is_unsupported(segments[j].as_str()) {
            proof {
                assert(unsupported_pattern(bytes_of(segs[j as int])));
                assert(exists|k: int| 0 <= k < segs.len() && unsupported_pattern(bytes_of(#[trigger] segs[k])));
            }
            return Err(());
        }
        j += 1;
    }
    Ok(Some(GitignorePattern { segments, negated, anchored, directory_only, unsupported: false }))
}

/// Reads the rules of a rule file, charging each rule's length plus one to
/// the budget (see `rules_outcome`).
#[verifier::loop_isolation(false)]
pub fn read_gitignore_patterns(contents: &GitignoreContents, matching_work: &mut usize) -> (r: Vec<GitignorePattern>)
    ensures
        ({
            let (o, w) = rules_outcome(*contents, *old(matching_work) as nat);
            &&& *final(matching_work) as nat == w
            &&& match o {
                Some(rs) => r@.map_values(|p: GitignorePattern| rule_view(p)) == rs && forall|k: int| 0 <= k < r@.len() ==> !(#[trigger] r@[k]).unsupported,
                None => r@.len() == 1 && r@[0].segments@.len() == 0 && !r@[0].negated && !r@[0].anchored
                    && !r@[0].directory_only && r@[0].unsupported,
            }
        }),
{
    let text = match contents {
        GitignoreContents::Missing => return Vec::new(),
        GitignoreContents::Invalid => {
            let mut closed: Vec<GitignorePattern> = Vec::new();
            closed.push(GitignorePattern::fail_closed());
            return closed;
        },
        GitignoreContents::Valid(c) => c,
    };
    let chars = crate::text::chars_of(text.as_str());
    let normalized = crlf_to_lf_exec(chars.as_slice());
    let ls = crate::text::lines_exec(normalized.as_slice());
    let ghost lv = crate::text::deep(ls@);
    let ghost w0 = *matching_work as nat;
    let mut patterns: Vec<GitignorePattern> = Vec::new();
    let mut i: usize = 0;
    assert(patterns@.map_values(|p: GitignorePattern| rule_view(p)) =~= Seq::<RuleView>::empty());
    while i < ls.len()
        invariant
            lv == crate::text::deep(ls@),
            lv == crate::text::lines(crlf_to_lf(text@)),
            i <= ls.len(),
            rules_of(lv, i as nat, w0) == (Some(patterns@.map_values(|p: GitignorePattern| rule_view(p))), *matching_work as nat),
            forall|k: int| 0 <= k < patterns@.len() ==> !(#[trigger] patterns@[k]).unsupported,
        decreases ls.len() - i,
    {
        assert(lv[i as int] == ls@[i as int]@);
        let ghost before = patterns@;
        let ghost wb = *matching_work as nat;
        match line_rule_exec(ls[i].as_slice(), matching_work) {
            Err(_) => {
                proof {
                    assert(line_rule(lv[i as int], wb).0 is Err);
                    assert(rules_of(lv, (i + 1) as nat, w0) == (None::<Seq<RuleView>>, *matching_work as nat));
                    lemma_rules_of_stops(lv, (i + 1) as nat, lv.len(), w0);
                }
                let mut closed: Vec<GitignorePattern> = Vec::new();
                closed.push(GitignorePattern::fail_closed());
                return closed;
            },
            Ok(None) => {},
            Ok(Some(p)) => {
                patterns.push(p);
                assert(patterns@.map_values(|p: GitignorePattern| rule_view(p)) =~= before.map_values(
                    |p: GitignorePattern| rule_view(p),
                ).push(rule_view(p)));
            },
        }
        i += 1;
    }
    patterns
}

} // verus!
