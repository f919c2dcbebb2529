//! Character-sequence helpers shared by every check.
//!
//! Strings are processed as `Vec<char>` so that each predicate can be stated
//! over `Seq<char>` and proved by a plain loop.

use vstd::prelude::*;

verus! {

/// ASCII lower-casing of one character; every other character is unchanged.
pub open spec fn lower_char(c: char) -> char {
    if 'A' <= c && c <= 'Z' {
        ((c as u32) + 32) as char
    } else {
        c
    }
}

/// ASCII lower-casing of a whole sequence.
pub open spec fn lower(s: Seq<char>) -> Seq<char> {
    s.map_values(|c: char| lower_char(c))
}

/// `needle` occurs in `hay` at position `i`.
pub open spec fn occurs_at(hay: Seq<char>, needle: Seq<char>, i: int) -> bool {
    0 <= i && i + needle.len() <= hay.len() && hay.subrange(i, i + needle.len()) == needle
}

/// `needle` occurs somewhere in `hay`.
pub open spec fn contains(hay: Seq<char>, needle: Seq<char>) -> bool {
    exists|i: int| occurs_at(hay, needle, i)
}

pub open spec fn starts_with(hay: Seq<char>, prefix: Seq<char>) -> bool {
    prefix.len() <= hay.len() && hay.subrange(0, prefix.len() as int) == prefix
}

pub open spec fn ends_with(hay: Seq<char>, suffix: Seq<char>) -> bool {
    suffix.len() <= hay.len() && hay.subrange(hay.len() - suffix.len(), hay.len() as int)
        == suffix
}

/// The UTF-8 length of a text, as `str::len` reports it.
pub open spec fn byte_len(s: Seq<char>) -> nat {
    (vstd::utf8::encode_utf8(s).len() as usize) as nat
}

/// The characters of a string slice, in order.
pub fn chars_of(s: &str) -> (r: Vec<char>)
    ensures
        r@ == s@,
{
    broadcast use vstd::string::axiom_spec_iter;
    let mut out: Vec<char> = Vec::new();
    for c in it: s.chars()
        invariant
            it.seq() == s@,
            out@ == it.seq().take(it.index() as int),
    {
        out.push(c);
        assert(out@ =~= it.seq().take(it.index() + 1));
    }
    assert(out@ =~= s@);
    out
}

/// Appends one character to a string.
#[verifier::external_body]
pub fn push_char(s: &mut String, c: char)
    ensures
        final(s)@ == old(s)@.push(c),
{
    s.push(c)
}

/// Builds a string from its characters.
pub fn string_of(chars: &[char]) -> (r: String)
    ensures
        r@ == chars@,
{
    let mut r = String::new();
    let mut i: usize = 0;
    while i < chars.len()
        invariant
            i <= chars.len(),
            r@ == chars@.subrange(0, i as int),
        decreases chars.len() - i,
    {
        push_char(&mut r, chars[i]);
        i += 1;
        assert(r@ =~= chars@.subrange(0, i as int));
    }
    assert(r@ =~= chars@);
    r
}

pub fn lower_char_exec(c: char) -> (r: char)
    ensures
        r == lower_char(c),
{
    if 'A' <= c && c <= 'Z' {
        ((c as u8) + 32) as char
    } else {
        c
    }
}

pub fn to_lower(s: &[char]) -> (r: Vec<char>)
    ensures
        r@ == lower(s@),
{
    let mut r: Vec<char> = Vec::new();
    let mut i: usize = 0;
    while i < s.len()
        invariant
            i <= s.len(),
            r@ == lower(s@.subrange(0, i as int)),
        decreases s.len() - i,
    {
        r.push(lower_char_exec(s[i]));
        i += 1;
        assert(lower(s@.subrange(0, i as int)) =~= lower(s@.subrange(0, i - 1 as int)).push(
            lower_char(s@[i - 1]),
        ));
    }
    assert(s@.subrange(0, s.len() as int) =~= s@);
    r
}

/// Whether `needle` occurs in `hay` at `i`.
pub fn occurs_at_exec(hay: &[char], needle: &[char], i: usize) -> (r: bool)
    ensures
        r == occurs_at(hay@, needle@, i as int),
{
    if i > hay.len() || needle.len() > hay.len() - i {
        return false;
    }
    let mut k: usize = 0;
    while k < needle.len()
        invariant
            i + needle.len() <= hay.len(),
            k <= needle.len(),
            forall|j: int| 0 <= j < k ==> hay@[i + j] == needle@[j],
        decreases needle.len() - k,
    {
        if hay[i + k] != needle[k] {
            assert(hay@.subrange(i as int, i + needle.len())[k as int] != needle@[k as int]);
            return false;
        }
        k += 1;
    }
    assert(hay@.subrange(i as int, i + needle.len()) =~= needle@);
    true
}

pub fn contains_exec(hay: &[char], needle: &[char]) -> (r: bool)
    ensures
        r == contains(hay@, needle@),
{
    if needle.len() > hay.len() {
        return false;
    }
    let last = hay.len() - needle.len();
    let mut i: usize = 0;
    loop
        invariant
            needle.len() <= hay.len(),
            last == hay.len() - needle.len(),
            i <= last,
            forall|j: int| 0 <= j < i ==> !occurs_at(hay@, needle@, j),
        decreases last - i,
    {
        if occurs_at_exec(hay, needle, i) {
            return true;
        }
        if i == last {
            return false;
        }
        i += 1;
    }
}

/// Whether the characters of `needle` (a string) occur in `hay`.
pub fn contains_str(hay: &[char], needle: &str) -> (r: bool)
    ensures
        r == contains(hay@, needle@),
{
    let n = chars_of(needle);
    contains_exec(hay, n.as_slice())
}

pub fn starts_with_exec(hay: &[char], prefix: &[char]) -> (r: bool)
    ensures
        r == starts_with(hay@, prefix@),
{
    occurs_at_exec(hay, prefix, 0)
}

pub fn ends_with_exec(hay: &[char], suffix: &[char]) -> (r: bool)
    ensures
        r == ends_with(hay@, suffix@),
{
    if suffix.len() > hay.len() {
        return false;
    }
    occurs_at_exec(hay, suffix, hay.len() - suffix.len())
}

pub fn starts_with_str(hay: &[char], prefix: &str) -> (r: bool)
    ensures
        r == starts_with(hay@, prefix@),
{
    let p = chars_of(prefix);
    starts_with_exec(hay, p.as_slice())
}

pub fn ends_with_str(hay: &[char], suffix: &str) -> (r: bool)
    ensures
        r == ends_with(hay@, suffix@),
{
    let p = chars_of(suffix);
    ends_with_exec(hay, p.as_slice())
}


/// Unicode `White_Space`, as `char::is_whitespace` documents it.
pub open spec fn is_ws(c: char) -> bool {
    ('\t' <= c && c <= '\r') || c == ' ' || c == '\u{85}' || c == '\u{a0}' || c == '\u{1680}'
        || ('\u{2000}' <= c && c <= '\u{200a}') || c == '\u{2028}' || c == '\u{2029}'
        || c == '\u{202f}' || c == '\u{205f}' || c == '\u{3000}'
}

pub fn is_ws_exec(c: char) -> (r: bool)
    ensures
        r == is_ws(c),
{
    ('\t' <= c && c <= '\r') || c == ' ' || c == '\u{85}' || c == '\u{a0}' || c == '\u{1680}'
        || ('\u{2000}' <= c && c <= '\u{200a}') || c == '\u{2028}' || c == '\u{2029}'
        || c == '\u{202f}' || c == '\u{205f}' || c == '\u{3000}'
}

/// Leading whitespace removed.
pub open spec fn trim_start(s: Seq<char>) -> Seq<char>
    decreases s.len(),
{
    if s.len() > 0 && is_ws(s[0]) {
        trim_start(s.subrange(1, s.len() as int))
    } else {
        s
    }
}

/// Trailing whitespace removed.
pub open spec fn trim_end(s: Seq<char>) -> Seq<char>
    decreases s.len(),
{
    if s.len() > 0 && is_ws(s.last()) {
        trim_end(s.drop_last())
    } else {
        s
    }
}

/// Leading and trailing whitespace removed, as `str::trim` does.
pub open spec fn trim(s: Seq<char>) -> Seq<char> {
    trim_end(trim_start(s))
}

pub fn trim_start_exec(s: &[char]) -> (r: Vec<char>)
    ensures
        r@ == trim_start(s@),
{
    let mut i: usize = 0;
    assert(s@.subrange(0, s.len() as int) =~= s@);
    while i < s.len() && is_ws_exec(s[i])
        invariant
            i <= s.len(),
            trim_start(s@) == trim_start(s@.subrange(i as int, s.len() as int)),
        decreases s.len() - i,
    {
        assert(s@.subrange(i as int, s.len() as int).subrange(1, s.len() - i) =~= s@.subrange(
            i + 1,
            s.len() as int,
        ));
        i += 1;
    }
    let mut r: Vec<char> = Vec::new();
    let mut k: usize = i;
    while k < s.len()
        invariant
            i <= k <= s.len(),
            r@ == s@.subrange(i as int, k as int),
        decreases s.len() - k,
    {
        r.push(s[k]);
        k += 1;
        assert(r@ =~= s@.subrange(i as int, k as int));
    }
    r
}

pub fn trim_end_exec(s: &[char]) -> (r: Vec<char>)
    ensures
        r@ == trim_end(s@),
{
    let mut j: usize = s.len();
    assert(s@.subrange(0, s.len() as int) =~= s@);
    while j > 0 && is_ws_exec(s[j - 1])
        invariant
            j <= s.len(),
            trim_end(s@) == trim_end(s@.subrange(0, j as int)),
        decreases j,
    {
        assert(s@.subrange(0, j as int).drop_last() =~= s@.subrange(0, j - 1));
        j -= 1;
    }
    let mut r: Vec<char> = Vec::new();
    let mut k: usize = 0;
    while k < j
        invariant
            k <= j <= s.len(),
            r@ == s@.subrange(0, k as int),
        decreases j - k,
    {
        r.push(s[k]);
        k += 1;
        assert(r@ =~= s@.subrange(0, k as int));
    }
    r
}

pub fn trim_exec(s: &[char]) -> (r: Vec<char>)
    ensures
        r@ == trim(s@),
{
    let a = trim_start_exec(s);
    trim_end_exec(a.as_slice())
}

/// Splits `s` at every character satisfying `sep`; separators are dropped and
/// empty pieces kept, as `str::split` does with a character predicate.
pub open spec fn split_when(s: Seq<char>, sep: spec_fn(char) -> bool) -> Seq<Seq<char>>
    decreases s.len(),
{
    if s.len() == 0 {
        seq![Seq::<char>::empty()]
    } else {
        let init = split_when(s.drop_last(), sep);
        if sep(s.last()) {
            init.push(Seq::<char>::empty())
        } else {
            init.update(init.len() - 1, init.last().push(s.last()))
        }
    }
}

pub proof fn lemma_split_when_nonempty(s: Seq<char>, sep: spec_fn(char) -> bool)
    ensures
        split_when(s, sep).len() >= 1,
    decreases s.len(),
{
    if s.len() > 0 {
        lemma_split_when_nonempty(s.drop_last(), sep);
    }
}

pub open spec fn is_char(c: char) -> spec_fn(char) -> bool {
    |x: char| x == c
}

/// `str::split(c)` for one character `c`.
pub open spec fn split_char(s: Seq<char>, c: char) -> Seq<Seq<char>> {
    split_when(s, is_char(c))
}

/// `str::split_whitespace`: the non-empty pieces between whitespace.
pub open spec fn words(s: Seq<char>) -> Seq<Seq<char>> {
    split_when(s, |x: char| is_ws(x)).filter(|p: Seq<char>| p.len() > 0)
}

pub open spec fn strip_cr(p: Seq<char>) -> Seq<char> {
    if p.len() > 0 && p.last() == '\r' {
        p.drop_last()
    } else {
        p
    }
}

/// `str::lines`: pieces ended by a newline lose a trailing carriage return;
/// a final empty piece (after the last newline, or of an empty text) is not a line.
pub open spec fn lines(s: Seq<char>) -> Seq<Seq<char>> {
    let parts = split_char(s, '\n');
    let body = parts.take(parts.len() - 1).map_values(|p: Seq<char>| strip_cr(p));
    if parts.last().len() == 0 {
        body
    } else {
        body.push(parts.last())
    }
}

pub open spec fn deep(v: Seq<Vec<char>>) -> Seq<Seq<char>> {
    v.map_values(|x: Vec<char>| x@)
}

/// The pieces of `s` between occurrences of `c`.
pub fn split_char_exec(s: &[char], c: char) -> (r: Vec<Vec<char>>)
    ensures
        deep(r@) == split_char(s@, c),
{
    let mut done: Vec<Vec<char>> = Vec::new();
    let mut current: Vec<char> = Vec::new();
    let mut i: usize = 0;
    proof {
        assert(s@.subrange(0, 0) =~= Seq::<char>::empty());
    }
    while i < s.len()
        invariant
            i <= s.len(),
            deep(done@).push(current@) == split_char(s@.subrange(0, i as int), c),
        decreases s.len() - i,
    {
        let ghost prev = s@.subrange(0, i as int);
        assert(s@.subrange(0, i + 1).drop_last() =~= prev);
        if s[i] == c {
            let finished = current;
            done.push(finished);
            current = Vec::new();
            assert(deep(done@) =~= deep(done@.drop_last()).push(finished@));
            assert(deep(done@).push(current@) =~= split_char(prev, c).push(Seq::<char>::empty()));
        } else {
            current.push(s[i]);
            proof {
                lemma_split_when_nonempty(prev, is_char(c));
            }
            assert(deep(done@).push(current@) =~= split_char(prev, c).update(
                split_char(prev, c).len() - 1,
                split_char(prev, c).last().push(s@[i as int]),
            ));
        }
        i += 1;
    }
    done.push(current);
    assert(s@.subrange(0, s.len() as int) =~= s@);
    assert(deep(done@) =~= deep(done@.drop_last()).push(done@.last()@));
    done
}


/// A fresh copy of a character slice.
pub fn copy_chars(v: &[char]) -> (r: Vec<char>)
    ensures
        r@ == v@,
{
    let mut r: Vec<char> = Vec::new();
    let mut j: usize = 0;
    while j < v.len()
        invariant
            j <= v.len(),
            r@ == v@.subrange(0, j as int),
        decreases v.len() - j,
    {
        r.push(v[j]);
        j += 1;
        assert(r@ =~= v@.subrange(0, j as int));
    }
    assert(r@ =~= v@);
    r
}

/// The lines of `s`, as `str::lines` yields them.
pub fn lines_exec(s: &[char]) -> (r: Vec<Vec<char>>)
    ensures
        deep(r@) == lines(s@),
{
    let parts = split_char_exec(s, '\n');
    proof {
        lemma_split_when_nonempty(s@, is_char('\n'));
    }
    let n = parts.len();
    let mut r: Vec<Vec<char>> = Vec::new();
    let mut k: usize = 0;
    while k + 1 < n
        invariant
            n == parts@.len(),
            n >= 1,
            k + 1 <= n,
            deep(parts@) == split_char(s@, '\n'),
            deep(r@) == split_char(s@, '\n').take(k as int).map_values(
                |p: Seq<char>| strip_cr(p),
            ),
        decreases n - k,
    {
        let part = &parts[k];
        let mut line: Vec<char> = Vec::new();
        let mut j: usize = 0;
        let end = if part.len() > 0 && part[part.len() - 1] == '\r' {
            part.len() - 1
        } else {
            part.len()
        };
        while j < end
            invariant
                j <= end <= part.len(),
                line@ == part@.subrange(0, j as int),
            decreases end - j,
        {
            line.push(part[j]);
            j += 1;
            assert(line@ =~= part@.subrange(0, j as int));
        }
        assert(deep(parts@)[k as int] == part@);
        assert(line@ =~= strip_cr(part@));
        let ghost old_r = deep(r@);
        r.push(line);
        assert(deep(r@) =~= old_r.push(line@));
        k += 1;
        assert(deep(r@) =~= split_char(s@, '\n').take(k as int).map_values(
            |p: Seq<char>| strip_cr(p),
        ));
    }
    let last = &parts[n - 1];
    assert(deep(parts@)[n - 1] == last@);
    if last.len() > 0 {
        let copy = copy_chars(last.as_slice());
        r.push(copy);
        assert(deep(r@) =~= deep(r@.drop_last()).push(copy@));
    }
    r
}

/// The pieces of `s` between whitespace characters (empty pieces kept).
pub fn split_ws_exec(s: &[char]) -> (r: Vec<Vec<char>>)
    ensures
        deep(r@) == split_when(s@, |x: char| is_ws(x)),
{
    let ghost sep = |x: char| is_ws(x);
    let mut done: Vec<Vec<char>> = Vec::new();
    let mut current: Vec<char> = Vec::new();
    let mut i: usize = 0;
    proof {
        assert(s@.subrange(0, 0) =~= Seq::<char>::empty());
    }
    while i < s.len()
        invariant
            i <= s.len(),
            sep == (|x: char| is_ws(x)),
            deep(done@).push(current@) == split_when(s@.subrange(0, i as int), sep),
        decreases s.len() - i,
    {
        let ghost prev = s@.subrange(0, i as int);
        assert(s@.subrange(0, i + 1).drop_last() =~= prev);
        if is_ws_exec(s[i]) {
            let finished = current;
            done.push(finished);
            current = Vec::new();
            assert(deep(done@) =~= deep(done@.drop_last()).push(finished@));
            assert(deep(done@).push(current@) =~= split_when(prev, sep).push(Seq::<char>::empty()));
        } else {
            current.push(s[i]);
            proof {
                lemma_split_when_nonempty(prev, sep);
            }
            assert(deep(done@).push(current@) =~= split_when(prev, sep).update(
                split_when(prev, sep).len() - 1,
                split_when(prev, sep).last().push(s@[i as int]),
            ));
        }
        i += 1;
    }
    done.push(current);
    assert(s@.subrange(0, s.len() as int) =~= s@);
    assert(deep(done@) =~= deep(done@.drop_last()).push(done@.last()@));
    done
}

/// The whitespace-separated words of `s`, as `str::split_whitespace` yields them.
pub fn words_exec(s: &[char]) -> (r: Vec<Vec<char>>)
    ensures
        deep(r@) == words(s@),
{
    let parts = split_ws_exec(s);
    let ghost all = deep(parts@);
    let ghost nonempty = |p: Seq<char>| p.len() > 0;
    let mut r: Vec<Vec<char>> = Vec::new();
    let mut k: usize = 0;
    while k < parts.len()
        invariant
            k <= parts.len(),
            all == deep(parts@),
            nonempty == (|p: Seq<char>| p.len() > 0),
            deep(r@) == all.take(k as int).filter(nonempty),
        decreases parts.len() - k,
    {
        proof {
            reveal(Seq::filter);
            assert(all.take(k + 1).drop_last() =~= all.take(k as int));
        }
        if parts[k].len() > 0 {
            let copy = copy_chars(parts[k].as_slice());
            r.push(copy);
            assert(deep(r@) =~= deep(r@.drop_last()).push(copy@));
        }
        k += 1;
    }
    assert(all.take(parts.len() as int) =~= all);
    r
}


/// The first error a run of items reports, items checked in order.
pub open spec fn first_some<A>(s: Seq<A>, f: spec_fn(A) -> Option<Seq<char>>) -> Option<
    Seq<char>,
>
    decreases s.len(),
{
    if s.len() == 0 {
        None
    } else {
        match first_some(s.drop_last(), f) {
            Some(e) => Some(e),
            None => f(s.last()),
        }
    }
}

pub proof fn lemma_first_some_step<A>(s: Seq<A>, f: spec_fn(A) -> Option<Seq<char>>, i: int)
    requires
        0 <= i < s.len(),
    ensures
        first_some(s.take(i + 1), f) == (match first_some(s.take(i), f) {
            Some(e) => Some(e),
            None => f(s[i]),
        }),
{
    assert(s.take(i + 1).drop_last() =~= s.take(i));
}

pub proof fn lemma_first_some_prefix<A>(s: Seq<A>, f: spec_fn(A) -> Option<Seq<char>>, i: int)
    requires
        0 <= i <= s.len(),
        first_some(s.take(i), f) is Some,
    ensures
        first_some(s, f) == first_some(s.take(i), f),
    decreases s.len(),
{
    if i < s.len() {
        assert(s.drop_last().take(i) =~= s.take(i));
        lemma_first_some_prefix(s.drop_last(), f, i);
    } else {
        assert(s.take(i) =~= s);
    }
}

pub proof fn lemma_first_some_all<A>(s: Seq<A>, f: spec_fn(A) -> Option<Seq<char>>)
    ensures
        first_some(s.take(s.len() as int), f) == first_some(s, f),
{
    assert(s.take(s.len() as int) =~= s);
}

/// `char::is_control`: the Unicode `Cc` category.
pub open spec fn is_control(c: char) -> bool {
    c <= '\u{1f}' || ('\u{7f}' <= c && c <= '\u{9f}')
}

pub fn is_control_exec(c: char) -> (r: bool)
    ensures
        r == is_control(c),
{
    c <= '\u{1f}' || ('\u{7f}' <= c && c <= '\u{9f}')
}

pub open spec fn has_control(s: Seq<char>) -> bool {
    exists|i: int| 0 <= i < s.len() && is_control(#[trigger] s[i])
}

pub fn has_control_exec(s: &[char]) -> (r: bool)
    ensures
        r == has_control(s@),
{
    let mut i: usize = 0;
    while i < s.len()
        invariant
            i <= s.len(),
            forall|j: int| 0 <= j < i ==> !is_control(#[trigger] s@[j]),
        decreases s.len() - i,
    {
        if is_control_exec(s[i]) {
            return true;
        }
        i += 1;
    }
    false
}

pub fn has_char_exec(s: &[char], c: char) -> (r: bool)
    ensures
        r == s@.contains(c),
{
    let mut i: usize = 0;
    while i < s.len()
        invariant
            i <= s.len(),
            forall|j: int| 0 <= j < i ==> s@[j] != c,
        decreases s.len() - i,
    {
        if s[i] == c {
            assert(s@[i as int] == c);
            return true;
        }
        i += 1;
    }
    false
}

/// Two texts joined.
pub fn concat2(a: &str, b: &str) -> (r: String)
    ensures
        r@ == a@ + b@,
{
    let mut r = String::from_str(a);
    r.append(b);
    r
}

/// Three texts joined.
pub fn concat3(a: &str, b: &str, c: &str) -> (r: String)
    ensures
        r@ == a@ + b@ + c@,
{
    let mut r = String::from_str(a);
    r.append(b);
    r.append(c);
    r
}


/// Whether two texts are the same.
/// The characters spell the text.
pub fn chars_are(a: &[char], b: &str) -> (r: bool)
    ensures
        r == (a@ == b@),
{
    let s = string_of(a);
    same_text(s.as_str(), b)
}

pub fn same_text(a: &str, b: &str) -> (r: bool)
    ensures
        r == (a@ == b@),
{
    let x = chars_of(a);
    let y = chars_of(b);
    if x.len() != y.len() {
        return false;
    }
    let mut i: usize = 0;
    while i < x.len()
        invariant
            x@ == a@,
            y@ == b@,
            x.len() == y.len(),
            i <= x.len(),
            forall|j: int| 0 <= j < i ==> x@[j] == y@[j],
        decreases x.len() - i,
    {
        if x[i] != y[i] {
            return false;
        }
        i += 1;
    }
    assert(x@ =~= y@);
    true
}


/// The characters of a text that are not control characters.
pub open spec fn visible(s: Seq<char>) -> Seq<char> {
    s.filter(|c: char| !is_control(c))
}

/// A text with its control characters removed.
pub fn strip_controls(s: &str) -> (r: String)
    ensures
        r@ == visible(s@),
{
    let c = chars_of(s);
    let ghost keep = |x: char| !is_control(x);
    let mut out = String::new();
    let mut i: usize = 0;
    proof {
        reveal(Seq::filter);
        assert(c@.take(0).filter(keep) =~= Seq::<char>::empty());
    }
    while i < c.len()
        invariant
            c@ == s@,
            i <= c.len(),
            keep == (|x: char| !is_control(x)),
            out@ == c@.take(i as int).filter(keep),
        decreases c.len() - i,
    {
        proof {
            reveal(Seq::filter);
            assert(c@.take(i + 1).drop_last() =~= c@.take(i as int));
        }
        if !is_control_exec(c[i]) {
            push_char(&mut out, c[i]);
        }
        i += 1;
    }
    assert(c@.take(c.len() as int) =~= c@);
    out
}

/// Texts joined by single spaces, as `join(" ")` joins them.
pub open spec fn join_spaced(parts: Seq<Seq<char>>) -> Seq<char>
    decreases parts.len(),
{
    if parts.len() == 0 {
        seq![]
    } else if parts.len() == 1 {
        parts[0]
    } else {
        join_spaced(parts.drop_last()) + seq![' '] + parts.last()
    }
}

pub open spec fn views(parts: Seq<String>) -> Seq<Seq<char>> {
    parts.map_values(|p: String| p@)
}

pub fn join_with_spaces(parts: &[String]) -> (r: String)
    ensures
        r@ == join_spaced(views(parts@)),
{
    let mut out = String::new();
    let mut i: usize = 0;
    while i < parts.len()
        invariant
            i <= parts.len(),
            out@ == join_spaced(views(parts@.take(i as int))),
        decreases parts.len() - i,
    {
        if i > 0 {
            push_char(&mut out, ' ');
        }
        out.append(parts[i].as_str());
        proof {
            assert(views(parts@.take(i + 1)).drop_last() =~= views(parts@.take(i as int)));
            if i == 0 {
                assert(views(parts@.take(1)) =~= seq![parts@[0]@]);
            }
        }
        i += 1;
    }
    assert(parts@.take(parts.len() as int) =~= parts@);
    out
}


/// `std::str::from_utf8`: the text the bytes encode, or `None` (its error
/// dropped) when they are not valid UTF-8.
#[verifier::external_body]
fn utf8_str(bytes: &[u8]) -> (r: Option<&str>)
    ensures
        match r {
            Some(s) => vstd::utf8::valid_utf8(bytes@) && s@ == vstd::utf8::decode_utf8(bytes@),
            None => !vstd::utf8::valid_utf8(bytes@),
        },
{
    std::str::from_utf8(bytes).ok()
}

/// The text the bytes encode, owned, or `None` when they are not valid
/// UTF-8.
pub fn utf8_text(bytes: &[u8]) -> (r: Option<String>)
    ensures
        match r {
            Some(s) => vstd::utf8::valid_utf8(bytes@) && s@ == vstd::utf8::decode_utf8(bytes@),
            None => !vstd::utf8::valid_utf8(bytes@),
        },
{
    match utf8_str(bytes) {
        Some(s) => Some(s.to_owned()),
        None => None,
    }
}

/// The text `String::from_utf8_lossy` decodes from a byte string.
pub uninterp spec fn lossy_decoded(bytes: Seq<u8>) -> Seq<char>;

/// `String::from_utf8_lossy`: decodes bytes as UTF-8, replacing each invalid
/// sequence with U+FFFD; valid UTF-8 decodes to exactly its text.
#[verifier::external_body]
pub(crate) fn lossy_text(bytes: &[u8]) -> (r: String)
    ensures
        r@ == lossy_decoded(bytes@),
        vstd::utf8::valid_utf8(bytes@) ==> r@ == vstd::utf8::decode_utf8(bytes@),
{
    String::from_utf8_lossy(bytes).into_owned()
}

/// Split state: the finished non-empty pieces and the piece in progress.
pub open spec fn nul_split(b: Seq<u8>) -> (Seq<Seq<u8>>, Seq<u8>)
    decreases b.len(),
{
    if b.len() == 0 {
        (seq![], seq![])
    } else {
        let (done, cur) = nul_split(b.drop_last());
        if b.last() == 0 {
            (if cur.len() > 0 {
                done.push(cur)
            } else {
                done
            }, seq![])
        } else {
            (done, cur.push(b.last()))
        }
    }
}

pub open spec fn nul_fields_of(b: Seq<u8>) -> Seq<Seq<u8>> {
    let (done, cur) = nul_split(b);
    if cur.len() > 0 {
        done.push(cur)
    } else {
        done
    }
}

pub open spec fn byte_views(v: Seq<Vec<u8>>) -> Seq<Seq<u8>> {
    v.map_values(|x: Vec<u8>| x@)
}

/// The non-empty pieces of a byte string between zero bytes.
pub fn split_nul_fields(b: &[u8]) -> (r: Vec<Vec<u8>>)
    ensures
        byte_views(r@) == nul_fields_of(b@),
{
    let mut done: Vec<Vec<u8>> = Vec::new();
    let mut cur: Vec<u8> = Vec::new();
    let mut i: usize = 0;
    assert(b@.take(0) =~= Seq::<u8>::empty());
    while i < b.len()
        invariant
            i <= b.len(),
            (byte_views(done@), cur@) == nul_split(b@.take(i as int)),
        decreases b.len() - i,
    {
        assert(b@.take(i + 1).drop_last() =~= b@.take(i as int));
        if b[i] == 0 {
            if cur.len() > 0 {
                let ghost before = byte_views(done@);
                let finished = cur;
                done.push(finished);
                assert(byte_views(done@) =~= before.push(finished@));
                cur = Vec::new();
            } else {
                cur = Vec::new();
            }
            assert(cur@ =~= Seq::<u8>::empty());
        } else {
            cur.push(b[i]);
        }
        i += 1;
    }
    assert(b@.take(b.len() as int) =~= b@);
    if cur.len() > 0 {
        let ghost before = byte_views(done@);
        let finished = cur;
        done.push(finished);
        assert(byte_views(done@) =~= before.push(finished@));
    }
    done
}


/// Texts joined by a separator, as `join(sep)` joins them.
pub open spec fn join_sep(parts: Seq<Seq<char>>, sep: Seq<char>) -> Seq<char>
    decreases parts.len(),
{
    if parts.len() == 0 {
        seq![]
    } else if parts.len() == 1 {
        parts[0]
    } else {
        join_sep(parts.drop_last(), sep) + sep + parts.last()
    }
}

pub fn join_strings(parts: &[String], sep: &str) -> (r: String)
    ensures
        r@ == join_sep(views(parts@), sep@),
{
    let mut out = String::new();
    let mut i: usize = 0;
    while i < parts.len()
        invariant
            i <= parts.len(),
            out@ == join_sep(views(parts@.take(i as int)), sep@),
        decreases parts.len() - i,
    {
        if i > 0 {
            out.append(sep);
        }
        out.append(parts[i].as_str());
        proof {
            assert(views(parts@.take(i + 1)).drop_last() =~= views(parts@.take(i as int)));
            if i == 0 {
                assert(views(parts@.take(1)) =~= seq![parts@[0]@]);
            }
        }
        i += 1;
    }
    assert(parts@.take(parts.len() as int) =~= parts@);
    out
}

} // verus!
