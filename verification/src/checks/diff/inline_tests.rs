//! Inline Rust test modules: which source lines sit inside a `#[cfg(test)]`
//! module, found on code with comments, strings and character literals
//! blanked out, and whether a patch added any of them.

use vstd::prelude::*;

use crate::text::lines;

verus! {

/// The literal a lexer is inside of.
#[derive(Clone, Copy, Debug, PartialEq, Eq, Structural)]
pub enum Quote {
    String { escaped: bool },
    RawString { hashes: usize },
}

/// What carries over from one source line to the next.
#[derive(Clone, Copy, Debug, PartialEq, Eq, Structural)]
pub struct LexState {
    pub block_comment_depth: usize,
    pub quote: Option<Quote>,
}

impl LexState {
    pub fn new() -> (r: Self)
        ensures
            r.block_comment_depth == 0,
            r.quote is None,
    {
        LexState { block_comment_depth: 0, quote: None }
    }
}

pub open spec fn at(code: Seq<u8>, k: int) -> Option<u8> {
    if 0 <= k < code.len() {
        Some(code[k])
    } else {
        None
    }
}

pub open spec fn pair_at(code: Seq<u8>, k: int, a: u8, b: u8) -> bool {
    at(code, k) == Some(a) && at(code, k + 1) == Some(b)
}

/// `code` with the bytes of `[start, start + len)` replaced by spaces.
pub open spec fn blanked(code: Seq<u8>, start: int, len: int) -> Seq<u8> {
    Seq::new(code.len(), |k: int| if start <= k < start + len { 32u8 } else { code[k] })
}

pub open spec fn is_word_byte(b: u8) -> bool {
    (48 <= b && b <= 57) || (65 <= b && b <= 90) || (97 <= b && b <= 122) || b == 95 || b >= 128
}

/// The number of `#` bytes from `k` on.
pub open spec fn hashes_from(code: Seq<u8>, k: int) -> nat
    decreases code.len() - k,
{
    if 0 <= k < code.len() && code[k] == 35u8 {
        1 + hashes_from(code, k + 1)
    } else {
        0
    }
}

/// A raw string opening (`r"`, `r#"`, `br##"`, ...) at `i` that does not
/// continue a word: its length and its number of hashes.
pub open spec fn raw_start(code: Seq<u8>, i: int) -> Option<(nat, nat)> {
    let prefix: int = if at(code, i) == Some(114u8) {
        1
    } else if pair_at(code, i, 98u8, 114u8) {
        2
    } else {
        0
    };
    if i > 0 && is_word_byte(code[i - 1]) {
        None
    } else if prefix == 0 {
        None
    } else {
        let h = hashes_from(code, i + prefix);
        if at(code, i + prefix + h) == Some(34u8) {
            Some(((prefix + h + 1) as nat, h))
        } else {
            None
        }
    }
}

/// A raw string with `hashes` hashes closes at `i`.
pub open spec fn raw_end(code: Seq<u8>, i: int, hashes: nat) -> bool {
    at(code, i) == Some(34u8) && i + 1 + hashes <= code.len() && forall|k: int|
        i + 1 <= k < i + 1 + hashes ==> code[k] == 35u8
}

/// A character literal at `i` (`'x'` or `'\x'`): its length.
pub open spec fn char_literal(code: Seq<u8>, i: int) -> Option<nat> {
    if at(code, i) != Some(39u8) {
        None
    } else {
        let cursor = if at(code, i + 1) == Some(92u8) {
            i + 3
        } else {
            i + 2
        };
        if at(code, cursor) == Some(39u8) {
            Some((cursor + 1 - i) as nat)
        } else {
            None
        }
    }
}

/// One more, saturating at the integer limit (which no real source reaches).
pub open spec fn sat_inc(n: usize) -> usize {
    if n == usize::MAX {
        n
    } else {
        (n + 1) as usize
    }
}

/// Lexes a line from byte `i` on, blanking comments, string contents and
/// character literals; the result is the blanked line and the state the
/// next line starts in.
pub open spec fn sanitize_from(code: Seq<u8>, st: LexState, i: nat) -> (Seq<u8>, LexState)
    decreases code.len() - i,
{
    if i >= code.len() {
        (code, st)
    } else if st.block_comment_depth > 0 {
        if pair_at(code, i as int, 47u8, 42u8) {
            sanitize_from(
                blanked(code, i as int, 2),
                LexState { block_comment_depth: sat_inc(st.block_comment_depth), ..st },
                i + 2,
            )
        } else if pair_at(code, i as int, 42u8, 47u8) {
            sanitize_from(
                blanked(code, i as int, 2),
                LexState { block_comment_depth: (st.block_comment_depth - 1) as usize, ..st },
                i + 2,
            )
        } else {
            sanitize_from(blanked(code, i as int, 1), st, i + 1)
        }
    } else {
        match st.quote {
            Some(Quote::String { escaped }) => {
                let b = code[i as int];
                let q = if escaped {
                    Some(Quote::String { escaped: false })
                } else if b == 92u8 {
                    Some(Quote::String { escaped: true })
                } else if b == 34u8 {
                    None
                } else {
                    st.quote
                };
                sanitize_from(blanked(code, i as int, 1), LexState { quote: q, ..st }, i + 1)
            },
            Some(Quote::RawString { hashes }) => if raw_end(code, i as int, hashes as nat) {
                sanitize_from(
                    blanked(code, i as int, hashes + 1),
                    LexState { quote: None, ..st },
                    i + hashes as nat + 1,
                )
            } else {
                sanitize_from(blanked(code, i as int, 1), st, i + 1)
            },
            None => if pair_at(code, i as int, 47u8, 47u8) {
                (blanked(code, i as int, code.len() - i), st)
            } else if pair_at(code, i as int, 47u8, 42u8) {
                sanitize_from(
                    blanked(code, i as int, 2),
                    LexState { block_comment_depth: 1, ..st },
                    i + 2,
                )
            } else if raw_start(code, i as int) is Some {
                let (len, h) = raw_start(code, i as int)->0;
                sanitize_from(
                    blanked(code, i as int, len as int),
                    LexState { quote: Some(Quote::RawString { hashes: h as usize }), ..st },
                    i + len,
                )
            } else if code[i as int] == 34u8 {
                sanitize_from(
                    blanked(code, i as int, 1),
                    LexState { quote: Some(Quote::String { escaped: false }), ..st },
                    i + 1,
                )
            } else if char_literal(code, i as int) is Some {
                let len = char_literal(code, i as int)->0;
                sanitize_from(blanked(code, i as int, len as int), st, i + len)
            } else {
                sanitize_from(code, st, i + 1)
            },
        }
    }
}

/// Sanitizing keeps a line's length, leaves the bytes before `i` alone, and
/// only ever replaces a byte by a space.
pub proof fn lemma_sanitize_shape(code: Seq<u8>, st: LexState, i: nat)
    ensures
        sanitize_from(code, st, i).0.len() == code.len(),
        forall|k: int|
            0 <= k < code.len() ==> (#[trigger] sanitize_from(code, st, i).0[k] == code[k]
                || sanitize_from(code, st, i).0[k] == 32u8),
        forall|k: int| 0 <= k < i && k < code.len() ==> #[trigger] sanitize_from(code, st, i).0[k] == code[k],
    decreases code.len() - i,
{
    if i >= code.len() {
    } else if st.block_comment_depth > 0 {
        if pair_at(code, i as int, 47u8, 42u8) {
            lemma_sanitize_shape(
                blanked(code, i as int, 2),
                LexState { block_comment_depth: sat_inc(st.block_comment_depth), ..st },
                i + 2,
            );
        } else if pair_at(code, i as int, 42u8, 47u8) {
            lemma_sanitize_shape(
                blanked(code, i as int, 2),
                LexState { block_comment_depth: (st.block_comment_depth - 1) as usize, ..st },
                i + 2,
            );
        } else {
            lemma_sanitize_shape(blanked(code, i as int, 1), st, i + 1);
        }
    } else {
        match st.quote {
            Some(Quote::String { escaped }) => {
                let b = code[i as int];
                let q = if escaped {
                    Some(Quote::String { escaped: false })
                } else if b == 92u8 {
                    Some(Quote::String { escaped: true })
                } else if b == 34u8 {
                    None
                } else {
                    st.quote
                };
                lemma_sanitize_shape(blanked(code, i as int, 1), LexState { quote: q, ..st }, i + 1);
            },
            Some(Quote::RawString { hashes }) => if raw_end(code, i as int, hashes as nat) {
                lemma_sanitize_shape(
                    blanked(code, i as int, hashes + 1),
                    LexState { quote: None, ..st },
                    i + hashes as nat + 1,
                );
            } else {
                lemma_sanitize_shape(blanked(code, i as int, 1), st, i + 1);
            },
            None => if pair_at(code, i as int, 47u8, 47u8) {
            } else if pair_at(code, i as int, 47u8, 42u8) {
                lemma_sanitize_shape(
                    blanked(code, i as int, 2),
                    LexState { block_comment_depth: 1, ..st },
                    i + 2,
                );
            } else if raw_start(code, i as int) is Some {
                let (len, h) = raw_start(code, i as int)->0;
                lemma_sanitize_shape(
                    blanked(code, i as int, len as int),
                    LexState { quote: Some(Quote::RawString { hashes: h as usize }), ..st },
                    i + len,
                );
            } else if code[i as int] == 34u8 {
                lemma_sanitize_shape(
                    blanked(code, i as int, 1),
                    LexState { quote: Some(Quote::String { escaped: false }), ..st },
                    i + 1,
                );
            } else if char_literal(code, i as int) is Some {
                let len = char_literal(code, i as int)->0;
                lemma_sanitize_shape(blanked(code, i as int, len as int), st, i + len);
            } else {
                lemma_sanitize_shape(code, st, i + 1);
            },
        }
    }
}

fn byte_at(code: &Vec<u8>, k: usize) -> (r: Option<u8>)
    ensures
        r == at(code@, k as int),
{
    if k < code.len() {
        Some(code[k])
    } else {
        None
    }
}

fn pair_at_exec(code: &Vec<u8>, k: usize, a: u8, b: u8) -> (r: bool)
    ensures
        r == pair_at(code@, k as int, a, b),
{
    k < code.len() && k + 1 < code.len() && code[k] == a && code[k + 1] == b
}

fn blank(code: &mut Vec<u8>, start: usize, length: usize)
    requires
        start <= old(code).len(),
    ensures
        final(code)@ == blanked(old(code)@, start as int, length as int),
{
    let end = if length > code.len() - start {
        code.len()
    } else {
        start + length
    };
    let mut k = start;
    while k < end
        invariant
            start <= k <= end <= code.len(),
            end == (if length > old(code).len() - start { old(code).len() as int } else { start + length }),
            code.len() == old(code).len(),
            forall|j: int|
                0 <= j < code.len() ==> #[trigger] code@[j] == (if start <= j < k {
                    32u8
                } else {
                    old(code)@[j]
                }),
        decreases end - k,
    {
        code.set(k, 32);
        k += 1;
    }
    assert(code@ =~= blanked(old(code)@, start as int, length as int));
}

pub fn is_word_byte_exec(b: u8) -> (r: bool)
    ensures
        r == is_word_byte(b),
{
    (48 <= b && b <= 57) || (65 <= b && b <= 90) || (97 <= b && b <= 122) || b == 95 || b >= 128
}

fn count_hashes(code: &Vec<u8>, start: usize) -> (r: usize)
    ensures
        r == hashes_from(code@, start as int),
        start + r <= code.len() || r == 0,
{
    let mut k = start;
    while k < code.len() && code[k] == 35
        invariant
            start <= k,
            k <= code.len() || k == start,
            hashes_from(code@, start as int) == (k - start) + hashes_from(code@, k as int),
        decreases code.len() - k,
    {
        k += 1;
    }
    k - start
}

fn raw_string_start(code: &Vec<u8>, index: usize) -> (r: Option<(usize, usize)>)
    requires
        index < code.len(),
    ensures
        match (r, raw_start(code@, index as int)) {
            (Some((l, h)), Some((sl, sh))) => l == sl && h == sh && index + l <= code.len(),
            (None, None) => true,
            _ => false,
        },
{
    if index > 0 && is_word_byte_exec(code[index - 1]) {
        return None;
    }
    let prefix: usize = if code[index] == 114 {
        1
    } else if pair_at_exec(code, index, 98u8, 114u8) {
        2
    } else {
        return None;
    };
    let cursor = index + prefix;
    let h = count_hashes(code, cursor);
    if h > 0 && cursor + h < code.len() && code[cursor + h] == 34 {
        Some((prefix + h + 1, h))
    } else if h == 0 && cursor < code.len() && code[cursor] == 34 {
        Some((prefix + 1, 0))
    } else {
        None
    }
}

fn raw_string_end(code: &Vec<u8>, index: usize, hashes: usize) -> (r: bool)
    ensures
        r == raw_end(code@, index as int, hashes as nat),
{
    if index >= code.len() || code[index] != 34 {
        return false;
    }
    if hashes > code.len() - index - 1 {
        return false;
    }
    let mut k: usize = index + 1;
    while k < index + 1 + hashes
        invariant
            index + 1 <= k <= index + 1 + hashes <= code.len(),
            forall|j: int| index + 1 <= j < k ==> code@[j] == 35u8,
        decreases index + 1 + hashes - k,
    {
        if code[k] != 35 {
            return false;
        }
        k += 1;
    }
    true
}

fn char_literal_length(code: &Vec<u8>, index: usize) -> (r: Option<usize>)
    requires
        index < code.len(),
    ensures
        match (r, char_literal(code@, index as int)) {
            (Some(l), Some(sl)) => l == sl && index + l <= code.len(),
            (None, None) => true,
            _ => false,
        },
{
    if code[index] != 39 {
        return None;
    }
    let escaped = index + 1 < code.len() && code[index + 1] == 92;
    let offset: usize = if escaped {
        3
    } else {
        2
    };
    if offset < code.len() - index && code[index + offset] == 39 {
        Some(offset + 1)
    } else {
        None
    }
}

/// Blanks one source line's comments, string contents and character
/// literals, carrying the lexer state across lines.
pub fn sanitize_line(line: &[u8], state: &mut LexState) -> (r: Vec<u8>)
    ensures
        (r@, *final(state)) == sanitize_from(line@, *old(state), 0),
{
    let mut code: Vec<u8> = Vec::new();
    let mut k: usize = 0;
    while k < line.len()
        invariant
            k <= line.len(),
            code@ == line@.take(k as int),
        decreases line.len() - k,
    {
        code.push(line[k]);
        k += 1;
        assert(code@ =~= line@.take(k as int));
    }
    assert(line@.take(line.len() as int) =~= line@);
    let ghost goal = sanitize_from(line@, *state, 0);
    let mut index: usize = 0;
    while index < code.len()
        invariant
            code.len() == line.len(),
            index <= code.len() + 1,
            goal == sanitize_from(code@, *state, index as nat),
            goal == sanitize_from(line@, *old(state), 0),
        decreases code.len() - index,
    {
        if state.block_comment_depth > 0 {
            if pair_at_exec(&code, index, 47u8, 42u8) {
                state.block_comment_depth = state.block_comment_depth.saturating_add(1);
                blank(&mut code, index, 2);
                index += 2;
            } else if pair_at_exec(&code, index, 42u8, 47u8) {
                state.block_comment_depth = state.block_comment_depth - 1;
                blank(&mut code, index, 2);
                index += 2;
            } else {
                blank(&mut code, index, 1);
                index += 1;
            }
            continue;
        }
        match state.quote {
            Some(Quote::String { escaped }) => {
                let byte = code[index];
                blank(&mut code, index, 1);
                if escaped {
                    state.quote = Some(Quote::String { escaped: false });
                } else if byte == 92 {
                    state.quote = Some(Quote::String { escaped: true });
                } else if byte == 34 {
                    state.quote = None;
                }
                index += 1;
                continue;
            },
            Some(Quote::RawString { hashes }) => {
                if raw_string_end(&code, index, hashes) {
                    blank(&mut code, index, hashes + 1);
                    state.quote = None;
                    index += hashes + 1;
                } else {
                    blank(&mut code, index, 1);
                    index += 1;
                }
                continue;
            },
            None => {},
        }
        if pair_at_exec(&code, index, 47u8, 47u8) {
            let remaining = code.len() - index;
            blank(&mut code, index, remaining);
            return code;
        }
        if pair_at_exec(&code, index, 47u8, 42u8) {
            state.block_comment_depth = 1;
            blank(&mut code, index, 2);
            index += 2;
            continue;
        }
        match raw_string_start(&code, index) {
            Some((length, hashes)) => {
                blank(&mut code, index, length);
                state.quote = Some(Quote::RawString { hashes });
                index += length;
                continue;
            },
            None => {},
        }
        if code[index] == 34 {
            state.quote = Some(Quote::String { escaped: false });
            blank(&mut code, index, 1);
            index += 1;
            continue;
        }
        match char_literal_length(&code, index) {
            Some(length) => {
                blank(&mut code, index, length);
                index += length;
                continue;
            },
            None => {},
        }
        index += 1;
    }
    code
}


// ---------------------------------------------------------------------------
// Tokens of blanked code.

/// A token: a word (a run of word bytes) or one punctuation byte, with its
/// zero-based line and column.
#[derive(Clone, Debug, PartialEq, Eq)]
pub struct Token {
    pub word: bool,
    pub bytes: Vec<u8>,
    pub line: usize,
    pub column: usize,
}

pub open spec fn token_view(t: Token) -> (bool, Seq<u8>, nat, nat) {
    (t.word, t.bytes@, t.line as nat, t.column as nat)
}

pub open spec fn token_views(ts: Seq<Token>) -> Seq<(bool, Seq<u8>, nat, nat)> {
    ts.map_values(|t: Token| token_view(t))
}

/// `u8::is_ascii_whitespace`.
pub open spec fn is_ascii_ws(b: u8) -> bool {
    b == 32u8 || b == 9u8 || b == 10u8 || b == 12u8 || b == 13u8
}

/// The end of the word that starts at `c`.
pub open spec fn word_end(line: Seq<u8>, c: int) -> int
    decreases line.len() - c,
{
    if 0 <= c < line.len() && is_word_byte(line[c]) {
        word_end(line, c + 1)
    } else {
        c
    }
}

/// The tokens of lines from line `l`, column `c` on.
pub open spec fn tokens_from(lines: Seq<Seq<u8>>, l: nat, c: nat) -> Seq<(bool, Seq<u8>, nat, nat)>
    decreases lines.len() - l, lines[l as int].len() - c,
{
    if l >= lines.len() {
        seq![]
    } else if c >= lines[l as int].len() {
        tokens_from(lines, l + 1, 0)
    } else {
        let b = lines[l as int][c as int];
        if is_ascii_ws(b) {
            tokens_from(lines, l, c + 1)
        } else if is_word_byte(b) {
            let e = word_end(lines[l as int], c + 1int);
            proof {
                lemma_word_end(lines[l as int], c + 1int);
            }
            if e <= c {
                seq![]
            } else {
                seq![(true, lines[l as int].subrange(c as int, e), l, c)] + tokens_from(
                    lines,
                    l,
                    e as nat,
                )
            }
        } else {
            seq![(false, seq![b], l, c)] + tokens_from(lines, l, c + 1)
        }
    }
}

pub proof fn lemma_word_end(line: Seq<u8>, c: int)
    requires
        0 <= c <= line.len(),
    ensures
        c <= word_end(line, c) <= line.len(),
        forall|k: int| c <= k < word_end(line, c) ==> is_word_byte(line[k]),
        word_end(line, c) < line.len() ==> !is_word_byte(line[word_end(line, c)]),
    decreases line.len() - c,
{
    if c < line.len() && is_word_byte(line[c]) {
        lemma_word_end(line, c + 1);
    }
}

pub open spec fn byte_lines(v: Seq<Vec<u8>>) -> Seq<Seq<u8>> {
    v.map_values(|x: Vec<u8>| x@)
}

/// The tokens of blanked lines.
pub fn tokenize(lines: &Vec<Vec<u8>>) -> (r: Vec<Token>)
    ensures
        token_views(r@) == tokens_from(byte_lines(lines@), 0, 0),
{
    let ghost ls = byte_lines(lines@);
    let mut tokens: Vec<Token> = Vec::new();
    let mut line: usize = 0;
    assert(token_views(tokens@) =~= Seq::<(bool, Seq<u8>, nat, nat)>::empty());
    while line < lines.len()
        invariant
            ls == byte_lines(lines@),
            line <= lines.len(),
            tokens_from(ls, 0, 0) == token_views(tokens@) + tokens_from(ls, line as nat, 0),
        decreases lines.len() - line,
    {
        let bytes = &lines[line];
        assert(ls[line as int] == bytes@);
        let mut column: usize = 0;
        while column < bytes.len()
            invariant
                ls == byte_lines(lines@),
                line < lines.len(),
                ls[line as int] == bytes@,
                column <= bytes.len(),
                tokens_from(ls, 0, 0) == token_views(tokens@) + tokens_from(
                    ls,
                    line as nat,
                    column as nat,
                ),
            decreases bytes.len() - column,
        {
            let ghost before = token_views(tokens@);
            if bytes[column] == 32 || bytes[column] == 9 || bytes[column] == 10 || bytes[column]
                == 12 || bytes[column] == 13 {
                column += 1;
                continue;
            }
            if is_word_byte_exec(bytes[column]) {
                let start = column;
                column += 1;
                while column < bytes.len() && is_word_byte_exec(bytes[column])
                    invariant
                        start < column <= bytes.len(),
                        word_end(bytes@, start as int + 1) == word_end(bytes@, column as int),
                    decreases bytes.len() - column,
                {
                    column += 1;
                }
                proof {
                    lemma_word_end(bytes@, start as int + 1);
                }
                let mut word: Vec<u8> = Vec::new();
                let mut k = start;
                while k < column
                    invariant
                        start <= k <= column <= bytes.len(),
                        word@ == bytes@.subrange(start as int, k as int),
                    decreases column - k,
                {
                    word.push(bytes[k]);
                    k += 1;
                    assert(word@ =~= bytes@.subrange(start as int, k as int));
                }
                tokens.push(Token { word: true, bytes: word, line, column: start });
                assert(token_views(tokens@) =~= before.push(
                    (true, bytes@.subrange(start as int, column as int), line as nat, start as nat),
                ));
            } else {
                let mut punct: Vec<u8> = Vec::new();
                punct.push(bytes[column]);
                tokens.push(Token { word: false, bytes: punct, line, column });
                assert(token_views(tokens@) =~= before.push(
                    (false, seq![bytes@[column as int]], line as nat, column as nat),
                ));
                column += 1;
            }
        }
        line += 1;
    }
    tokens
}

// ---------------------------------------------------------------------------
// The module a `#[cfg(test)]` attribute introduces.

pub open spec fn is_word_token(t: (bool, Seq<u8>, nat, nat), w: Seq<u8>) -> bool {
    t.0 && t.1 == w
}

pub open spec fn is_punct_token(t: (bool, Seq<u8>, nat, nat), b: u8) -> bool {
    !t.0 && t.1 == seq![b]
}

/// The first `)` token at or after `k`.
pub open spec fn close_paren_from(ts: Seq<(bool, Seq<u8>, nat, nat)>, k: int) -> Option<int>
    decreases ts.len() - k,
{
    if k < 0 || k >= ts.len() {
        None
    } else if is_punct_token(ts[k], 41u8) {
        Some(k)
    } else {
        close_paren_from(ts, k + 1)
    }
}

/// After an optional `pub` (bytes `p u b`) or `pub(...)`: `mod name {` opens a module body,
/// whose brace position is returned; `mod name;` or anything else is not one.
pub open spec fn module_body(ts: Seq<(bool, Seq<u8>, nat, nat)>, first: int) -> Option<(nat, nat)> {
    let after_pub: Option<int> = if 0 <= first < ts.len() && is_word_token(ts[first], seq![112u8, 117u8, 98u8]) {
        if first + 1 < ts.len() && is_punct_token(ts[first + 1], 40u8) {
            match close_paren_from(ts, first + 2) {
                Some(k) => Some(k + 1),
                None => None,
            }
        } else {
            Some(first + 1)
        }
    } else {
        Some(first)
    };
    match after_pub {
        None => None,
        Some(i) => if !(0 <= i < ts.len()) || !is_word_token(ts[i], seq![109u8, 111u8, 100u8]) {
            None
        } else if !(i + 1 < ts.len()) || !ts[i + 1].0 {
            None
        } else if !(i + 2 < ts.len()) || is_punct_token(ts[i + 2], 59u8) {
            None
        } else if is_punct_token(ts[i + 2], 123u8) {
            Some((ts[i + 2].2, ts[i + 2].3))
        } else {
            None
        },
    }
}


fn is_word3(t: &Token, a: u8, b: u8, c: u8) -> (r: bool)
    ensures
        r == is_word_token(token_view(*t), seq![a, b, c]),
{
    if t.word && t.bytes.len() == 3 && t.bytes[0] == a && t.bytes[1] == b && t.bytes[2] == c {
        assert(t.bytes@ =~= seq![a, b, c]);
        true
    } else {
        false
    }
}

fn is_punct(t: &Token, b: u8) -> (r: bool)
    ensures
        r == is_punct_token(token_view(*t), b),
{
    if !t.word && t.bytes.len() == 1 && t.bytes[0] == b {
        assert(t.bytes@ =~= seq![b]);
        true
    } else {
        false
    }
}

/// The brace that opens the module a `#[cfg(test)]` attribute applies to.
pub fn parse_module_body(tokens: &Vec<Token>, first: usize) -> (r: Option<(usize, usize)>)
    ensures
        match r {
            Some((l, c)) => module_body(token_views(tokens@), first as int) == Some(
                (l as nat, c as nat),
            ),
            None => module_body(token_views(tokens@), first as int) is None,
        },
{
    let ghost ts = token_views(tokens@);
    let n = tokens.len();
    let mut index = first;
    if index < n && is_word3(&tokens[index], 112, 117, 98) {
        if index + 1 < n && is_punct(&tokens[index + 1], 40) {
            let mut k = index + 2;
            while k < n && !is_punct(&tokens[k], 41)
                invariant
                    ts == token_views(tokens@),
                    n == tokens.len(),
                    index + 2 <= k,
                    close_paren_from(ts, index as int + 2) == close_paren_from(ts, k as int),
                decreases n - k,
            {
                k += 1;
            }
            if k >= n {
                return None;
            }
            index = k + 1;
        } else {
            index = index + 1;
        }
    }
    if index >= n || !is_word3(&tokens[index], 109, 111, 100) {
        return None;
    }
    if index + 1 >= n || !tokens[index + 1].word {
        return None;
    }
    if index + 2 >= n || is_punct(&tokens[index + 2], 59) {
        return None;
    }
    if is_punct(&tokens[index + 2], 123) {
        Some((tokens[index + 2].line, tokens[index + 2].column))
    } else {
        None
    }
}

/// Scans for the brace that closes the one opened at a position: the line
/// where the depth returns to zero.
pub open spec fn brace_scan(lines: Seq<Seq<u8>>, l: nat, c: nat, depth: usize) -> Option<nat>
    decreases lines.len() - l, lines[l as int].len() - c,
{
    if l >= lines.len() {
        None
    } else if c >= lines[l as int].len() {
        brace_scan(lines, l + 1, 0, depth)
    } else {
        let b = lines[l as int][c as int];
        if b == 123u8 {
            brace_scan(lines, l, c + 1, sat_inc(depth))
        } else if b == 125u8 {
            if depth == 0 {
                None
            } else if depth == 1 {
                Some(l)
            } else {
                brace_scan(lines, l, c + 1, (depth - 1) as usize)
            }
        } else {
            brace_scan(lines, l, c + 1, depth)
        }
    }
}

pub fn matching_brace(lines: &Vec<Vec<u8>>, open_line: usize, open_column: usize) -> (r: Option<
    usize,
>)
    ensures
        match r {
            Some(l) => brace_scan(byte_lines(lines@), open_line as nat, open_column as nat, 0)
                == Some(l as nat),
            None => brace_scan(byte_lines(lines@), open_line as nat, open_column as nat, 0) is None,
        },
{
    let ghost ls = byte_lines(lines@);
    let ghost goal = brace_scan(ls, open_line as nat, open_column as nat, 0);
    let mut depth: usize = 0;
    let mut line = open_line;
    let mut start = open_column;
    while line < lines.len()
        invariant
            ls == byte_lines(lines@),
            goal == brace_scan(ls, open_line as nat, open_column as nat, 0),
            goal == brace_scan(ls, line as nat, start as nat, depth),
        decreases lines.len() - line,
    {
        let bytes = &lines[line];
        assert(ls[line as int] == bytes@);
        let mut column = start;
        while column < bytes.len()
            invariant
                ls == byte_lines(lines@),
                line < lines.len(),
                ls[line as int] == bytes@,
                goal == brace_scan(ls, open_line as nat, open_column as nat, 0),
                goal == brace_scan(ls, line as nat, column as nat, depth),
            decreases bytes.len() - column,
        {
            let b = bytes[column];
            if b == 123 {
                depth = depth.saturating_add(1);
            } else if b == 125 {
                if depth == 0 {
                    return None;
                }
                depth = depth - 1;
                if depth == 0 {
                    return Some(line);
                }
            }
            column += 1;
        }
        line += 1;
        start = 0;
    }
    None
}

/// The bytes of `#[cfg(test)]`.
pub open spec fn cfg_test_attribute() -> Seq<u8> {
    seq![35u8, 91u8, 99u8, 102u8, 103u8, 40u8, 116u8, 101u8, 115u8, 116u8, 41u8, 93u8]
}

pub open spec fn attribute_at(line: Seq<u8>, s: int) -> bool {
    0 <= s && s + 12 <= line.len() && line.subrange(s, s + 12) == cfg_test_attribute()
}

/// The first position at or after `s` where the attribute occurs.
pub open spec fn first_attribute_from(line: Seq<u8>, s: int) -> Option<int>
    decreases line.len() - s,
{
    if s < 0 || s + 12 > line.len() {
        None
    } else if attribute_at(line, s) {
        Some(s)
    } else {
        first_attribute_from(line, s + 1)
    }
}

/// Where a line's `#[cfg(test)]` attribute ends, when its first occurrence
/// is preceded only by whitespace.
pub open spec fn attribute_end(line: Seq<u8>) -> Option<nat> {
    match first_attribute_from(line, 0) {
        Some(s) => if forall|k: int| 0 <= k < s ==> is_ascii_ws(#[trigger] line[k]) {
            Some((s + 12) as nat)
        } else {
            None
        },
        None => None,
    }
}

fn attribute_at_exec(line: &Vec<u8>, s: usize) -> (r: bool)
    ensures
        r == attribute_at(line@, s as int),
{
    if s > line.len() || 12 > line.len() - s {
        return false;
    }
    let pattern: [u8; 12] = [35, 91, 99, 102, 103, 40, 116, 101, 115, 116, 41, 93];
    assert(pattern@ =~= cfg_test_attribute());
    let mut k: usize = 0;
    while k < 12
        invariant
            s + 12 <= line.len(),
            pattern@ == cfg_test_attribute(),
            k <= 12,
            forall|j: int| 0 <= j < k ==> line@[s + j] == pattern@[j],
        decreases 12 - k,
    {
        if line[s + k] != pattern[k] {
            assert(line@.subrange(s as int, s + 12)[k as int] != cfg_test_attribute()[k as int]);
            return false;
        }
        k += 1;
    }
    assert(line@.subrange(s as int, s + 12) =~= cfg_test_attribute());
    true
}

pub fn cfg_test_attribute_end(line: &Vec<u8>) -> (r: Option<usize>)
    ensures
        match r {
            Some(e) => attribute_end(line@) == Some(e as nat),
            None => attribute_end(line@) is None,
        },
{
    let mut s: usize = 0;
    while s <= line.len() && 12 <= line.len() - s && !attribute_at_exec(line, s)
        invariant
            first_attribute_from(line@, 0) == first_attribute_from(line@, s as int),
        decreases line.len() + 1 - s,
    {
        s += 1;
    }
    if s > line.len() || 12 > line.len() - s {
        return None;
    }
    let mut k: usize = 0;
    while k < s
        invariant
            s <= line.len(),
            first_attribute_from(line@, 0) == Some(s as int),
            k <= s,
            forall|j: int| 0 <= j < k ==> is_ascii_ws(#[trigger] line@[j]),
        decreases s - k,
    {
        let b = line[k];
        if !(b == 32 || b == 9 || b == 10 || b == 12 || b == 13) {
            assert(!is_ascii_ws(line@[k as int]));
            return None;
        }
        k += 1;
    }
    Some(s + 12)
}


// ---------------------------------------------------------------------------
// Inline test lines of a source file.

/// Blanks every line, carrying the lexer state from each to the next.
pub open spec fn sanitize_all(ls: Seq<Seq<u8>>, i: nat, st: LexState) -> Seq<Seq<u8>>
    decreases ls.len() - i,
{
    if i >= ls.len() {
        seq![]
    } else {
        let (code, next) = sanitize_from(ls[i as int], st, 0);
        seq![code] + sanitize_all(ls, i + 1, next)
    }
}

/// The first token at or after line `marker`, column `end`, from token `k` on.
pub open spec fn first_token_after(ts: Seq<(bool, Seq<u8>, nat, nat)>, marker: nat, end: nat, k: int) -> Option<int>
    decreases ts.len() - k,
{
    if k < 0 || k >= ts.len() {
        None
    } else if ts[k].2 > marker || (ts[k].2 == marker && ts[k].3 >= end) {
        Some(k)
    } else {
        first_token_after(ts, marker, end, k + 1)
    }
}

/// The one-based lines a `#[cfg(test)]` module on line `marker` spans:
/// from the line after the attribute through the line of its closing brace.
pub open spec fn marker_span(code: Seq<Seq<u8>>, ts: Seq<(bool, Seq<u8>, nat, nat)>, marker: nat) -> Option<(nat, nat)> {
    if marker >= code.len() {
        None
    } else {
        match attribute_end(code[marker as int]) {
            None => None,
            Some(e) => match first_token_after(ts, marker, e, 0) {
                None => None,
                Some(first) => match module_body(ts, first) {
                    None => None,
                    Some((ol, oc)) => match brace_scan(code, ol, oc, 0) {
                        None => None,
                        Some(end) => Some((marker + 1, end + 1)),
                    },
                },
            },
        }
    }
}

/// The one-based lines of a source text inside inline test modules.
pub open spec fn inline_lines(source: Seq<char>) -> Set<nat> {
    let code = sanitize_all(lines(source).map_values(|l: Seq<char>| vstd::utf8::encode_utf8(l)), 0, LexState { block_comment_depth: 0, quote: None });
    let ts = tokens_from(code, 0, 0);
    Set::new(|n: nat| exists|m: nat| #[trigger] in_span(code, ts, m, n))
}

/// Line `n` lies in the span of the module marked on line `m`.
pub open spec fn in_span(code: Seq<Seq<u8>>, ts: Seq<(bool, Seq<u8>, nat, nat)>, m: nat, n: nat) -> bool {
    match marker_span(code, ts, m) {
        Some((a, b)) => a <= n <= b,
        None => false,
    }
}

fn first_token_after_exec(tokens: &Vec<Token>, marker: usize, end: usize) -> (r: Option<usize>)
    ensures
        match r {
            Some(k) => first_token_after(token_views(tokens@), marker as nat, end as nat, 0) == Some(k as int),
            None => first_token_after(token_views(tokens@), marker as nat, end as nat, 0) is None,
        },
{
    let ghost ts = token_views(tokens@);
    let mut k: usize = 0;
    while k < tokens.len()
        invariant
            ts == token_views(tokens@),
            first_token_after(ts, marker as nat, end as nat, 0) == first_token_after(ts, marker as nat, end as nat, k as int),
        decreases tokens.len() - k,
    {
        if tokens[k].line > marker || (tokens[k].line == marker && tokens[k].column >= end) {
            return Some(k);
        }
        k += 1;
    }
    None
}

proof fn lemma_brace_scan_bound(lines: Seq<Seq<u8>>, l: nat, c: nat, d: usize)
    ensures
        brace_scan(lines, l, c, d) matches Some(x) ==> x < lines.len(),
    decreases lines.len() - l, lines[l as int].len() - c,
{
    if l < lines.len() {
        if c >= lines[l as int].len() {
            lemma_brace_scan_bound(lines, l + 1, 0, d);
        } else {
            let b = lines[l as int][c as int];
            if b == 123u8 {
                lemma_brace_scan_bound(lines, l, c + 1, sat_inc(d));
            } else if b == 125u8 {
                if d > 1 {
                    lemma_brace_scan_bound(lines, l, c + 1, (d - 1) as usize);
                }
            } else {
                lemma_brace_scan_bound(lines, l, c + 1, d);
            }
        }
    }
}

/// Appends every number from `a` through `b`.
fn push_range(result: &mut Vec<usize>, a: usize, b: usize)
    ensures
        forall|x: usize| #[trigger] final(result)@.contains(x) <==> (old(result)@.contains(x) || (a <= x
            && x <= b)),
{
    if a > b {
        return;
    }
    let mut n = a;
    while n < b
        invariant
            a <= n <= b,
            forall|x: usize| #[trigger] result@.contains(x) <==> (old(result)@.contains(x) || (a <= x
                && x < n)),
        decreases b - n,
    {
        let ghost prev = result@;
        result.push(n);
        assert forall|x: usize| #[trigger] result@.contains(x) <==> (prev.contains(x) || x == n) by {
            if result@.contains(x) {
                let k = choose|k: int| 0 <= k < result@.len() && result@[k] == x;
                if k < prev.len() {
                    assert(prev[k] == x);
                }
            }
            if prev.contains(x) {
                let k = choose|k: int| 0 <= k < prev.len() && prev[k] == x;
                assert(result@[k] == x);
            }
            if x == n {
                assert(result@[prev.len() as int] == x);
            }
        }
        n += 1;
    }
    let ghost prev = result@;
    result.push(b);
    assert forall|x: usize| #[trigger] result@.contains(x) <==> (prev.contains(x) || x == b) by {
        if result@.contains(x) {
            let k = choose|k: int| 0 <= k < result@.len() && result@[k] == x;
            if k < prev.len() {
                assert(prev[k] == x);
            }
        }
        if prev.contains(x) {
            let k = choose|k: int| 0 <= k < prev.len() && prev[k] == x;
            assert(result@[k] == x);
        }
        if x == b {
            assert(result@[prev.len() as int] == x);
        }
    }
}

/// The one-based lines of `source` inside `#[cfg(test)]` modules.
pub fn inline_test_lines(source: &str) -> (r: Vec<usize>)
    ensures
        forall|n: nat| inline_lines(source@).contains(n) <==> (n <= usize::MAX && r@.contains(n as usize)),
{
    let c = crate::text::chars_of(source);
    let ls = crate::text::lines_exec(c.as_slice());
    let ghost encoded = lines(source@).map_values(|l: Seq<char>| vstd::utf8::encode_utf8(l));
    let mut state = LexState::new();
    let mut code_lines: Vec<Vec<u8>> = Vec::new();
    let mut i: usize = 0;
    while i < ls.len()
        invariant
            crate::text::deep(ls@) == lines(source@),
            encoded == lines(source@).map_values(|l: Seq<char>| vstd::utf8::encode_utf8(l)),
            i <= ls.len(),
            sanitize_all(encoded, 0, LexState { block_comment_depth: 0, quote: None }) == byte_lines(code_lines@) + sanitize_all(encoded, i as nat, state),
        decreases ls.len() - i,
    {
        let text = crate::text::string_of(ls[i].as_slice());
        let bytes = text.as_str().as_bytes();
        assert(encoded[i as int] == bytes@);
        let ghost before = byte_lines(code_lines@);
        let ghost st = state;
        let sanitized = sanitize_line(bytes, &mut state);
        code_lines.push(sanitized);
        assert(byte_lines(code_lines@) =~= before.push(sanitized@));
        assert(sanitize_all(encoded, i as nat, st) == seq![sanitized@] + sanitize_all(encoded, i as nat + 1, state));
        assert(before + sanitize_all(encoded, i as nat, st) =~= byte_lines(code_lines@) + sanitize_all(encoded, i as nat + 1, state));
        i += 1;
    }
    assert(sanitize_all(encoded, i as nat, state) =~= Seq::<Seq<u8>>::empty());
    assert(byte_lines(code_lines@) + Seq::<Seq<u8>>::empty() =~= byte_lines(code_lines@));
    let ghost code = byte_lines(code_lines@);
    let tokens = tokenize(&code_lines);
    let ghost ts = token_views(tokens@);
    let mut result: Vec<usize> = Vec::new();
    let mut marker: usize = 0;
    while marker < code_lines.len()
        invariant
            code == byte_lines(code_lines@),
            ts == token_views(tokens@),
            ts == tokens_from(code, 0, 0),
            marker <= code_lines.len(),
            forall|x: usize| result@.contains(x) <==> exists|m: nat| m < marker && #[trigger] in_span(code, ts, m, x as nat),
            forall|m: nat, n: nat| m < marker && #[trigger] in_span(code, ts, m, n) ==> n <= usize::MAX,
        decreases code_lines.len() - marker,
    {
        assert(code[marker as int] == code_lines@[marker as int]@);
        let span: Option<(usize, usize)> = match cfg_test_attribute_end(&code_lines[marker]) {
            None => None,
            Some(e) => match first_token_after_exec(&tokens, marker, e) {
                None => None,
                Some(first) => match parse_module_body(&tokens, first) {
                    None => None,
                    Some((ol, oc)) => match matching_brace(&code_lines, ol, oc) {
                        None => None,
                        Some(end) => {
                            proof {
                                lemma_brace_scan_bound(code, ol as nat, oc as nat, 0);
                            }
                            Some((marker + 1, end))
                        },
                    },
                },
            },
        };
        let ghost before = result@;
        assert(marker_span(code, ts, marker as nat) == match span {
            Some((a, e)) => Some((a as nat, e as nat + 1)),
            None => None::<(nat, nat)>,
        });
        match span {
            Some((a, end)) => {
                push_range(&mut result, a, end + 1);
            },
            None => {},
        }
        proof {
            assert forall|x: usize| result@.contains(x) <==> exists|m: nat|
                m < marker + 1 && #[trigger] in_span(code, ts, m, x as nat) by {
                if result@.contains(x) && !before.contains(x) {
                    assert(span is Some);
                    assert(in_span(code, ts, marker as nat, x as nat));
                }
                if in_span(code, ts, marker as nat, x as nat) {
                    assert(span is Some);
                    assert(result@.contains(x));
                }
                if exists|m: nat| m < marker + 1 && #[trigger] in_span(code, ts, m, x as nat) {
                    let m = choose|m: nat| m < marker + 1 && #[trigger] in_span(code, ts, m, x as nat);
                    if m < marker {
                        assert(before.contains(x));
                    }
                }
            }
        }
        marker += 1;
    }
    proof {
        assert forall|n: nat| inline_lines(source@).contains(n) <==> (n <= usize::MAX && result@.contains(n as usize)) by {
            if inline_lines(source@).contains(n) {
                let m = choose|m: nat| #[trigger] in_span(code, ts, m, n);
                if m >= code.len() {
                    assert(marker_span(code, ts, m) is None);
                }
            }
        }
    }
    result
}



// ---------------------------------------------------------------------------
// The patch.

pub open spec fn escape_byte(e: char) -> Option<u8> {
    if e == 'a' {
        Some(7u8)
    } else if e == 'b' {
        Some(8u8)
    } else if e == 'f' {
        Some(12u8)
    } else if e == 'n' {
        Some(10u8)
    } else if e == 'r' {
        Some(13u8)
    } else if e == 't' {
        Some(9u8)
    } else if e == 'v' {
        Some(11u8)
    } else if e == '\\' {
        Some(92u8)
    } else if e == '"' {
        Some(34u8)
    } else {
        None
    }
}

pub open spec fn is_octal(c: char) -> bool {
    '0' <= c && c <= '7'
}

/// The number of octal digits (at most three) from `i` on.
pub open spec fn octal_count(s: Seq<char>, i: int) -> nat {
    if 0 <= i < s.len() && is_octal(s[i]) {
        if i + 1 < s.len() && is_octal(s[i + 1]) {
            if i + 2 < s.len() && is_octal(s[i + 2]) {
                3
            } else {
                2
            }
        } else {
            1
        }
    } else {
        0
    }
}

pub open spec fn octal_value(s: Seq<char>, i: int, n: nat) -> nat
    decreases n,
{
    if n == 0 {
        0
    } else {
        octal_value(s, i, (n - 1) as nat) * 8 + ((s[i + n - 1] as u32 - 48) as nat)
    }
}

/// A C-quoted git path from `i` on (the opening quote already read): the
/// bytes it denotes and the position after its closing quote.
pub open spec fn quoted_from(s: Seq<char>, i: nat, acc: Seq<u8>) -> Option<(Seq<u8>, nat)>
    decreases s.len() - i,
{
    if i >= s.len() {
        None
    } else if s[i as int] == '"' {
        Some((acc, i + 1))
    } else if s[i as int] == '\\' {
        if i + 1 >= s.len() {
            None
        } else {
            let e = s[i + 1int];
            if escape_byte(e) is Some {
                quoted_from(s, i + 2, acc.push(escape_byte(e)->0))
            } else if is_octal(e) {
                let n = octal_count(s, i + 1int);
                let v = octal_value(s, i + 1int, n);
                if v > 255 {
                    None
                } else {
                    quoted_from(s, i + 1 + n, acc.push(v as u8))
                }
            } else {
                None
            }
        }
    } else {
        quoted_from(s, i + 1, acc + vstd::utf8::encode_utf8(seq![s[i as int]]))
    }
}

/// A header path: quoted, or up to the first whitespace; and what follows.
pub open spec fn header_path(input: Seq<char>) -> Option<(Seq<char>, Seq<char>)> {
    if input.len() > 0 && input[0] == '"' {
        match quoted_from(input, 1, seq![]) {
            Some((bytes, consumed)) => if vstd::utf8::valid_utf8(bytes) {
                Some((vstd::utf8::decode_utf8(bytes), input.skip(consumed as int)))
            } else {
                None
            },
            None => None,
        }
    } else {
        let end = first_ws(input, 0);
        if end == 0 {
            None
        } else {
            Some((input.take(end), input.skip(end)))
        }
    }
}

/// The first whitespace position at or after `k`, or the length.
pub open spec fn first_ws(s: Seq<char>, k: int) -> int
    decreases s.len() - k,
{
    if k < 0 || k >= s.len() {
        s.len() as int
    } else if crate::text::is_ws(s[k]) {
        k
    } else {
        first_ws(s, k + 1)
    }
}

/// The old and new paths of a `diff --git a/... b/...` header.
pub open spec fn diff_header(line: Seq<char>) -> Option<(Seq<char>, Seq<char>)> {
    if !crate::text::starts_with(line, "diff --git "@) {
        None
    } else {
        match header_path(line.skip(11)) {
            None => None,
            Some((old, rest)) => match header_path(crate::text::trim_start(rest)) {
                None => None,
                Some((new, rest2)) => if crate::text::trim(rest2).len() != 0 {
                    None
                } else if !crate::text::starts_with(old, "a/"@) || !crate::text::starts_with(new, "b/"@) {
                    None
                } else {
                    Some((old.skip(2), new.skip(2)))
                },
            },
        }
    }
}


fn escape_byte_exec(e: char) -> (r: Option<u8>)
    ensures
        r == escape_byte(e),
{
    if e == 'a' {
        Some(7)
    } else if e == 'b' {
        Some(8)
    } else if e == 'f' {
        Some(12)
    } else if e == 'n' {
        Some(10)
    } else if e == 'r' {
        Some(13)
    } else if e == 't' {
        Some(9)
    } else if e == 'v' {
        Some(11)
    } else if e == '\\' {
        Some(92)
    } else if e == '"' {
        Some(34)
    } else {
        None
    }
}

/// The bytes a C-quoted path denotes and where it ends (`s[0]` is the
/// opening quote).
/// The bytes a quoted path's escapes spell, and how many characters the
/// quoted form takes, closing quote included.
pub fn quoted_path_bytes(s: &Vec<char>) -> (r: Option<(Vec<u8>, usize)>)
    ensures
        match (r, quoted_from(s@, 1, seq![])) {
            (Some((b, n)), Some((sb, sn))) => b@ == sb && n == sn,
            (None, None) => true,
            _ => false,
        },
{
    let ghost goal = quoted_from(s@, 1, seq![]);
    let mut decoded: Vec<u8> = Vec::new();
    let mut i: usize = 1;
    while i < s.len()
        invariant
            1 <= i,
            goal == quoted_from(s@, 1, seq![]),
            goal == quoted_from(s@, i as nat, decoded@),
        decreases s.len() - i,
    {
        let c = s[i];
        if c == '"' {
            return Some((decoded, i + 1));
        }
        if c == '\\' {
            if i + 1 >= s.len() {
                return None;
            }
            let e = s[i + 1];
            match escape_byte_exec(e) {
                Some(b) => {
                    decoded.push(b);
                    i = i + 2;
                },
                None => {
                    if !('0' <= e && e <= '7') {
                        return None;
                    }
                    let mut count: usize = 1;
                    let mut value: u32 = (e as u32) - 48;
                    if i + 2 < s.len() && '0' <= s[i + 2] && s[i + 2] <= '7' {
                        count = 2;
                        value = value * 8 + ((s[i + 2] as u32) - 48);
                        if i + 3 < s.len() && '0' <= s[i + 3] && s[i + 3] <= '7' {
                            count = 3;
                            value = value * 8 + ((s[i + 3] as u32) - 48);
                        }
                    }
                    proof {
                        assert(count == octal_count(s@, i + 1int));
                        reveal_with_fuel(octal_value, 4);
                        assert(value == octal_value(s@, i + 1int, count as nat));
                    }
                    if value > 255 {
                        return None;
                    }
                    decoded.push(value as u8);
                    i = i + 1 + count;
                },
            }
        } else {
            let mut t = String::new();
            crate::text::push_char(&mut t, c);
            let bytes = t.as_str().as_bytes();
            let mut k: usize = 0;
            let ghost before = decoded@;
            while k < bytes.len()
                invariant
                    k <= bytes.len(),
                    decoded@ == before + bytes@.take(k as int),
                decreases bytes.len() - k,
            {
                decoded.push(bytes[k]);
                k += 1;
                assert(decoded@ =~= before + bytes@.take(k as int));
            }
            assert(bytes@.take(bytes.len() as int) =~= bytes@);
            assert(t@ =~= seq![c]);
            i = i + 1;
        }
    }
    None
}

fn first_ws_exec(s: &Vec<char>) -> (r: usize)
    ensures
        r == first_ws(s@, 0),
{
    let mut k: usize = 0;
    while k < s.len() && !crate::text::is_ws_exec(s[k])
        invariant
            k <= s.len(),
            first_ws(s@, 0) == first_ws(s@, k as int),
        decreases s.len() - k,
    {
        k += 1;
    }
    k
}

fn skip_chars(s: &Vec<char>, n: usize) -> (r: Vec<char>)
    requires
        n <= s.len(),
    ensures
        r@ == s@.skip(n as int),
{
    let mut r: Vec<char> = Vec::new();
    let mut k = n;
    while k < s.len()
        invariant
            n <= k <= s.len(),
            r@ == s@.subrange(n as int, k as int),
        decreases s.len() - k,
    {
        r.push(s[k]);
        k += 1;
        assert(r@ =~= s@.subrange(n as int, k as int));
    }
    assert(s@.skip(n as int) =~= s@.subrange(n as int, s.len() as int));
    r
}

/// A git-quoted path (`s` starts at its opening quote): the text its escapes
/// spell and how many characters the quoted form takes; `None` when it is
/// unterminated, holds a malformed escape, or spells bytes that are not
/// UTF-8.
pub fn parse_quoted_path(s: &Vec<char>) -> (r: Option<(String, usize)>)
    ensures
        match (r, quoted_from(s@, 1, seq![])) {
            (Some((t, n)), Some((sb, sn))) => vstd::utf8::valid_utf8(sb) && t@ == vstd::utf8::decode_utf8(sb)
                && n == sn,
            (None, Some((sb, sn))) => !vstd::utf8::valid_utf8(sb),
            (None, None) => true,
            _ => false,
        },
{
    let (bytes, consumed) = quoted_path_bytes(s)?;
    let text = crate::text::utf8_text(bytes.as_slice())?;
    Some((text, consumed))
}

/// A header path and the text after it.
pub fn parse_header_path(input: &Vec<char>) -> (r: Option<(Vec<char>, Vec<char>)>)
    ensures
        match (r, header_path(input@)) {
            (Some((p, rest)), Some((sp, srest))) => p@ == sp && rest@ == srest,
            (None, None) => true,
            _ => false,
        },
{
    if input.len() > 0 && input[0] == '"' {
        let (text, consumed) = parse_quoted_path(input)?;
        proof {
            if let Some((sb, sn)) = quoted_from(input@, 1, seq![]) {
                lemma_quoted_from_bound(input@, 1, seq![]);
            }
        }
        let path = crate::text::chars_of(text.as_str());
        let rest = skip_chars(input, consumed);
        Some((path, rest))
    } else {
        let end = first_ws_exec(input);
        if end == 0 {
            return None;
        }
        let mut p: Vec<char> = Vec::new();
        let mut k: usize = 0;
        proof {
            lemma_first_ws_bound(input@, 0);
        }
        while k < end
            invariant
                end <= input.len(),
                k <= end,
                p@ == input@.take(k as int),
            decreases end - k,
        {
            p.push(input[k]);
            k += 1;
            assert(p@ =~= input@.take(k as int));
        }
        let rest = skip_chars(input, end);
        Some((p, rest))
    }
}

proof fn lemma_first_ws_bound(s: Seq<char>, k: int)
    requires
        0 <= k,
    ensures
        first_ws(s, k) <= s.len(),
    decreases s.len() - k,
{
    if k < s.len() && !crate::text::is_ws(s[k]) {
        lemma_first_ws_bound(s, k + 1);
    }
}

proof fn lemma_quoted_from_bound(s: Seq<char>, i: nat, acc: Seq<u8>)
    ensures
        quoted_from(s, i, acc) matches Some((b, n)) ==> n <= s.len(),
    decreases s.len() - i,
{
    if i < s.len() {
        if s[i as int] == '"' {
        } else if s[i as int] == '\\' {
            if i + 1 < s.len() {
                let e = s[i + 1int];
                if escape_byte(e) is Some {
                    lemma_quoted_from_bound(s, i + 2, acc.push(escape_byte(e)->0));
                } else if is_octal(e) {
                    let n = octal_count(s, i + 1int);
                    let v = octal_value(s, i + 1int, n);
                    if v <= 255 {
                        lemma_quoted_from_bound(s, i + 1 + n, acc.push(v as u8));
                    }
                }
            }
        } else {
            lemma_quoted_from_bound(s, i + 1, acc + vstd::utf8::encode_utf8(seq![s[i as int]]));
        }
    }
}


/// The old and new paths of a diff header line.
pub fn parse_diff_header(line: &Vec<char>) -> (r: Option<(String, String)>)
    ensures
        match (r, diff_header(line@)) {
            (Some((o, n)), Some((so, sn))) => o@ == so && n@ == sn,
            (None, None) => true,
            _ => false,
        },
{
    if !crate::text::starts_with_str(line.as_slice(), "diff --git ") {
        return None;
    }
    proof {
        reveal_strlit("diff --git ");
    }
    let rest = skip_chars(line, 11);
    let (old, rest) = parse_header_path(&rest)?;
    let rest = crate::text::trim_start_exec(rest.as_slice());
    let (new, rest) = parse_header_path(&rest)?;
    if crate::text::trim_exec(rest.as_slice()).len() != 0 {
        return None;
    }
    if !crate::text::starts_with_str(old.as_slice(), "a/") || !crate::text::starts_with_str(
        new.as_slice(),
        "b/",
    ) {
        return None;
    }
    proof {
        reveal_strlit("a/");
        reveal_strlit("b/");
    }
    let o = skip_chars(&old, 2);
    let n = skip_chars(&new, 2);
    Some((crate::text::string_of(o.as_slice()), crate::text::string_of(n.as_slice())))
}

/// The first word beginning with `+`, from word `k` on.
pub open spec fn first_plus_word(ws: Seq<Seq<char>>, k: int) -> Option<Seq<char>>
    decreases ws.len() - k,
{
    if k < 0 || k >= ws.len() {
        None
    } else if ws[k].len() > 0 && ws[k][0] == '+' {
        Some(ws[k])
    } else {
        first_plus_word(ws, k + 1)
    }
}

/// The text before the first comma, or all of it.
pub open spec fn before_comma(s: Seq<char>) -> Seq<char> {
    if s.contains(',') {
        s.take(choose|k: int| 0 <= k < s.len() && s[k] == ',' && forall|j: int| 0 <= j < k ==> s[j] != ',')
    } else {
        s
    }
}

/// The new-file start line of a hunk header `@@ -a,b +c,d @@`.
pub open spec fn hunk_start(line: Seq<char>) -> Option<nat> {
    match first_plus_word(crate::text::words(line), 0) {
        None => None,
        Some(w) => match crate::checks::commands::supervisor::parsed_u64(before_comma(w.drop_first())) {
            Some(v) => if v <= usize::MAX {
                Some(v as nat)
            } else {
                None
            },
            None => None,
        },
    }
}

pub fn parse_new_hunk_start(line: &Vec<char>) -> (r: Option<usize>)
    ensures
        match r {
            Some(v) => hunk_start(line@) == Some(v as nat),
            None => hunk_start(line@) is None,
        },
{
    let ws = crate::text::words_exec(line.as_slice());
    let ghost wv = crate::text::deep(ws@);
    let mut k: usize = 0;
    while k < ws.len() && !(ws[k].len() > 0 && ws[k][0] == '+')
        invariant
            wv == crate::text::deep(ws@),
            wv == crate::text::words(line@),
            k <= ws.len(),
            first_plus_word(wv, 0) == first_plus_word(wv, k as int),
        decreases ws.len() - k,
    {
        assert(wv[k as int] == ws@[k as int]@);
        k += 1;
    }
    if k >= ws.len() {
        return None;
    }
    assert(wv[k as int] == ws@[k as int]@);
    let w = &ws[k];
    let mut part: Vec<char> = Vec::new();
    let mut j: usize = 1;
    while j < w.len() && w[j] != ','
        invariant
            1 <= j <= w.len(),
            part@ == w@.subrange(1, j as int),
            forall|t: int| 1 <= t < j ==> w@[t] != ',',
        decreases w.len() - j,
    {
        part.push(w[j]);
        j += 1;
        assert(part@ =~= w@.subrange(1, j as int));
    }
    proof {
        let d = w@.drop_first();
        if j < w.len() {
            assert(d[j - 1] == ',');
            assert(d.contains(','));
            let c = choose|c: int| 0 <= c < d.len() && d[c] == ',' && forall|t: int| 0 <= t < c ==> d[t] != ',';
            if c < j - 1 {
                assert(w@[c + 1] == ',');
            }
            if c > j - 1 {
                assert(d[j - 1] != ',');
            }
            assert(part@ =~= d.take(c));
        } else {
            if d.contains(',') {
                let c = choose|c: int| 0 <= c < d.len() && d[c] == ',';
                assert(w@[c + 1] == ',');
            }
            assert(part@ =~= d);
        }
    }
    let text = crate::text::string_of(part.as_slice());
    let v = crate::checks::commands::supervisor::parse_u64(text.as_str())?;
    if v as u128 > usize::MAX as u128 {
        return None;
    }
    Some(v as usize)
}

/// What a patch says about each file: the new-file lines it adds, the files
/// its headers name, and whether it mentions `#[cfg(test)]` anywhere.
#[derive(Debug, Clone, PartialEq, Eq)]
pub struct PatchIndex {
    pub added_lines: Vec<(String, usize)>,
    pub referenced_files: Vec<String>,
    pub contains_cfg_test: bool,
}

/// The reading state of a patch: the current file, the current hunk start,
/// the next new-file line, and what has been gathered.
pub type PatchScan = (Option<Seq<char>>, Option<nat>, usize, Set<(Seq<char>, nat)>, Set<Seq<char>>, bool);

pub open spec fn patch_step(st: PatchScan, line: Seq<char>) -> PatchScan {
    let (cur, hunk, next, added, refs, cfg) = st;
    let cfg2 = cfg || crate::text::contains(line, "#[cfg(test)]"@);
    if crate::text::starts_with(line, "diff --git "@) {
        match diff_header(line) {
            Some((o, n)) => (Some(n), None, next, added, refs.insert(o).insert(n), cfg2),
            None => (None, None, next, added, refs, cfg2),
        }
    } else if cur is None {
        (cur, hunk, next, added, refs, cfg2)
    } else if crate::text::starts_with(line, "@@ "@) {
        let h = hunk_start(line);
        (cur, h, match h {
            Some(v) => v as usize,
            None => 0,
        }, added, refs, cfg2)
    } else if hunk is None {
        (cur, hunk, next, added, refs, cfg2)
    } else if crate::text::starts_with(line, "+"@) && !crate::text::starts_with(line, "+++"@) {
        (cur, hunk, sat_inc(next), added.insert((cur->0, next as nat)), refs, cfg2)
    } else if crate::text::starts_with(line, " "@) {
        (cur, hunk, sat_inc(next), added, refs, cfg2)
    } else {
        (cur, hunk, next, added, refs, cfg2)
    }
}

pub open spec fn patch_scan(ls: Seq<Seq<char>>) -> PatchScan
    decreases ls.len(),
{
    if ls.len() == 0 {
        (None, None, 0, Set::empty(), Set::empty(), false)
    } else {
        patch_step(patch_scan(ls.drop_last()), ls.last())
    }
}

pub open spec fn added_set(v: Seq<(String, usize)>) -> Set<(Seq<char>, nat)> {
    Set::new(|p: (Seq<char>, nat)| exists|k: int| 0 <= k < v.len() && (#[trigger] v[k]).0@ == p.0 && v[k].1 as nat == p.1)
}

/// What a patch index records: the added (file, line) pairs, the files the
/// patch names, and whether an added or context line mentions `#[cfg(test)]`.
pub type PatchFacts = (Set<(Seq<char>, nat)>, Set<Seq<char>>, bool);

pub open spec fn patch_facts(p: PatchIndex) -> PatchFacts {
    (added_set(p.added_lines@), crate::strset::members(p.referenced_files@), p.contains_cfg_test)
}

/// The facts a patch text yields when read line by line.
pub open spec fn scan_facts(patch: Seq<char>) -> PatchFacts {
    let (_, _, _, added, refs, cfg) = patch_scan(lines(patch));
    (added, refs, cfg)
}

impl PatchIndex {
    /// Reads a unified patch line by line (the new-line counter saturates at
    /// the integer limit, which no real patch reaches).
    pub fn from_patch(patch: &str) -> (r: Self)
        ensures
            ({
                let (_, _, _, added, refs, cfg) = patch_scan(lines(patch@));
                &&& added_set(r.added_lines@) == added
                &&& crate::strset::members(r.referenced_files@) == refs
                &&& r.contains_cfg_test == cfg
            }),
            patch_facts(r) == scan_facts(patch@),
    {
        let c = crate::text::chars_of(patch);
        let ls = crate::text::lines_exec(c.as_slice());
        let ghost lv = crate::text::deep(ls@);
        let mut index = PatchIndex { added_lines: Vec::new(), referenced_files: Vec::new(), contains_cfg_test: false };
        let mut current: Option<String> = None;
        let mut hunk: Option<usize> = None;
        let mut new_line: usize = 0;
        let mut i: usize = 0;
        assert(lv.take(0) =~= Seq::<Seq<char>>::empty());
        assert(added_set(index.added_lines@) =~= Set::<(Seq<char>, nat)>::empty());
        assert(crate::strset::members(index.referenced_files@) =~= Set::<Seq<char>>::empty());
        while i < ls.len()
            invariant
                lv == crate::text::deep(ls@),
                lv == lines(patch@),
                i <= ls.len(),
                patch_scan(lv.take(i as int)) == (
                    match current { Some(s) => Some(s@), None => None::<Seq<char>> },
                    match hunk { Some(h) => Some(h as nat), None => None::<nat> },
                    new_line,
                    added_set(index.added_lines@),
                    crate::strset::members(index.referenced_files@),
                    index.contains_cfg_test,
                ),
            decreases ls.len() - i,
        {
            assert(lv.take(i + 1).drop_last() =~= lv.take(i as int));
            assert(lv[i as int] == ls@[i as int]@);
            let line = &ls[i];
            if crate::text::contains_str(line.as_slice(), "#[cfg(test)]") {
                index.contains_cfg_test = true;
            }
            if crate::text::starts_with_str(line.as_slice(), "diff --git ") {
                current = None;
                hunk = None;
                match parse_diff_header(line) {
                    Some((o, n)) => {
                        let ghost before = index.referenced_files@;
                        index.referenced_files.push(o);
                        let ghost mid = index.referenced_files@;
                        index.referenced_files.push(n.clone());
                        proof {
                            crate::strset::lemma_members_push(before, mid.last());
                            crate::strset::lemma_members_push(mid, index.referenced_files@.last());
                            assert(mid =~= before.push(mid.last()));
                            assert(index.referenced_files@ =~= mid.push(index.referenced_files@.last()));
                        }
                        current = Some(n);
                    },
                    None => {},
                }
            } else if current.is_none() {
            } else if crate::text::starts_with_str(line.as_slice(), "@@ ") {
                hunk = parse_new_hunk_start(line);
                new_line = match hunk {
                    Some(v) => v,
                    None => 0,
                };
            } else if hunk.is_none() {
            } else if crate::text::starts_with_str(line.as_slice(), "+") && !crate::text::starts_with_str(line.as_slice(), "+++") {
                let file = match &current {
                    Some(f) => f.clone(),
                    None => String::new(),
                };
                let ghost before = index.added_lines@;
                let ghost fv = file@;
                index.added_lines.push((file, new_line));
                assert(index.added_lines@ =~= before.push(index.added_lines@.last()));
                assert(index.added_lines@.last().0@ == fv);
                assert(added_set(index.added_lines@) =~= added_set(before).insert((fv, new_line as nat))) by {
                    assert forall|p: (Seq<char>, nat)| added_set(index.added_lines@).contains(p) <==> (added_set(before).contains(p) || p == (fv, new_line as nat)) by {
                        if added_set(index.added_lines@).contains(p) {
                            let k = choose|k: int| 0 <= k < index.added_lines@.len() && (#[trigger] index.added_lines@[k]).0@ == p.0 && index.added_lines@[k].1 as nat == p.1;
                            if k < before.len() {
                                assert(before[k] == index.added_lines@[k]);
                            }
                        }
                        if added_set(before).contains(p) {
                            let k = choose|k: int| 0 <= k < before.len() && (#[trigger] before[k]).0@ == p.0 && before[k].1 as nat == p.1;
                            assert(index.added_lines@[k] == before[k]);
                        }
                        if p == (fv, new_line as nat) {
                            assert(index.added_lines@[before.len() as int].0@ == fv);
                        }
                    }
                }
                new_line = new_line.saturating_add(1);
            } else if crate::text::starts_with_str(line.as_slice(), " ") {
                new_line = new_line.saturating_add(1);
            }
            i += 1;
        }
        assert(lv.take(ls.len() as int) =~= lv);
        index
    }
}

/// Whether a change touched an inline test module of a Rust file. An
/// unreadable file counts when the patch mentions `#[cfg(test)]` at all; a
/// file without inline tests never counts; otherwise an added line inside a
/// test module counts, and so does a file the patch does not show.
pub open spec fn inline_test_touched(source: Option<Seq<char>>, file: Seq<char>, added: Set<(Seq<char>, nat)>, refs: Set<Seq<char>>, cfg: bool) -> bool {
    match source {
        None => cfg,
        Some(src) => if inline_lines(src).is_empty() {
            false
        } else {
            (exists|n: nat| inline_lines(src).contains(n) && #[trigger] added.contains((file, n))) || !refs.contains(file)
        },
    }
}

#[verifier::loop_isolation(false)]
pub fn inline_test_hunk_touched(source: Option<&str>, file: &str, patch: &PatchIndex) -> (r: bool)
    ensures
        r == inline_test_touched(
            match source { Some(s) => Some(s@), None => None },
            file@,
            added_set(patch.added_lines@),
            crate::strset::members(patch.referenced_files@),
            patch.contains_cfg_test,
        ),
{
    let src = match source {
        None => return patch.contains_cfg_test,
        Some(s) => s,
    };
    let inline = inline_test_lines(src);
    if inline.len() == 0 {
        proof {
            assert forall|n: nat| !inline_lines(src@).contains(n) by {
                if inline_lines(src@).contains(n) {
                    assert(inline@.contains(n as usize));
                }
            }
            assert(inline_lines(src@) =~= Set::<nat>::empty());
        }
        return false;
    }
    proof {
        assert(inline_lines(src@).contains(inline@[0] as nat));
    }
    let mut k: usize = 0;
    while k < patch.added_lines.len()
        invariant
            forall|n: nat| inline_lines(src@).contains(n) <==> (n <= usize::MAX && inline@.contains(n as usize)),
            k <= patch.added_lines.len(),
            forall|j: int| 0 <= j < k ==> !((#[trigger] patch.added_lines@[j]).0@ == file@ && inline_lines(src@).contains(patch.added_lines@[j].1 as nat)),
        decreases patch.added_lines.len() - k,
    {
        let entry = &patch.added_lines[k];
        if crate::text::same_text(entry.0.as_str(), file) {
            let mut j: usize = 0;
            while j < inline.len()
                invariant
                    j <= inline.len(),
                    forall|t: int| 0 <= t < j ==> inline@[t] != entry.1,
                decreases inline.len() - j,
            {
                if inline[j] == entry.1 {
                    assert(inline@.contains(entry.1));
                    assert(added_set(patch.added_lines@).contains((file@, entry.1 as nat)));
                    return true;
                }
                j += 1;
            }
            assert(!inline@.contains(entry.1));
        }
        k += 1;
    }
    proof {
        assert forall|n: nat| !(inline_lines(src@).contains(n) && #[trigger] added_set(patch.added_lines@).contains((file@, n))) by {
            if inline_lines(src@).contains(n) && added_set(patch.added_lines@).contains((file@, n)) {
                let j = choose|j: int| 0 <= j < patch.added_lines@.len() && (#[trigger] patch.added_lines@[j]).0@ == file@ && patch.added_lines@[j].1 as nat == n;
                assert(!((patch.added_lines@[j]).0@ == file@ && inline_lines(src@).contains(patch.added_lines@[j].1 as nat)));
            }
        }
    }
    !crate::strset::holds_text(&patch.referenced_files, file)
}

} // verus!
