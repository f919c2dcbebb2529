//! The bounded request/response transport of the command supervisor.
//!
//! Paths and environment bytes travel hex-encoded so Unix byte strings stay
//! lossless; every field and the whole JSON envelope stay below fixed limits.

use vstd::prelude::*;

use crate::adapter::{json_text, plain_json_char, quote_json};
use crate::checks::gitleaks::runner;
use crate::text::{byte_len, chars_of, push_char};

verus! {

pub const MAX_CAPTURE_BYTES: u64 = 262144;
pub const MAX_CAPTURE_LIMIT_BYTES: u64 = 1048576;
pub const MAX_RESPONSE_BYTES: usize = 4210688;
pub const MAX_REQUEST_PATH_BYTES: usize = 8192;
pub const MAX_REQUEST_ENV_BYTES: usize = 8192;
pub const MAX_REQUEST_ENVIRONMENT_ENTRIES: usize = 256;
pub const MAX_REQUEST_ENVIRONMENT_BYTES: usize = 65536;
pub const MAX_REQUEST_ENVELOPE_BYTES: usize = 98304;
pub const QUIESCENCE_NS: u64 = 20000000;
pub const REQUEST_TIMEOUT_RESERVE_MS: u64 = 50;

/// Why a contained run produced no trustworthy capture.
#[derive(Clone, Copy, Debug, PartialEq, Eq, Structural)]
pub enum ContainedRunError {
    CouldNotRun,
    ContainmentUnavailable,
    ContainmentViolation,
    ContainmentUnproven,
}

/// What a contained run captured.
#[derive(Debug, Clone, PartialEq, Eq)]
pub struct Captured {
    pub code: Option<i32>,
    pub stdout: Vec<u8>,
    pub stderr: Vec<u8>,
    pub cwd_identity: Option<String>,
}

/// One hex-encoded environment entry.
#[derive(Debug, Clone, PartialEq, Eq)]
pub struct EncodedEnvironment {
    pub name: String,
    pub value: String,
}

/// The request handed to the supervisor process.
#[derive(Debug, Clone, PartialEq, Eq)]
pub struct SupervisorRequest {
    pub argv: Vec<String>,
    pub repository_root: String,
    pub workspace_root: String,
    pub cwd: String,
    pub timeout_ms: Option<String>,
    pub deadline_ns: Option<String>,
    pub environment: Option<Vec<EncodedEnvironment>>,
    pub capture_limit: u64,
    pub path: Option<String>,
    pub home: Option<String>,
    pub ci: Option<String>,
}

/// The supervisor's verdict on a run.
#[derive(Clone, Copy, Debug, PartialEq, Eq, Structural)]
pub enum SupervisorOutcome {
    Completed,
    CouldNotRun,
    ContainmentUnavailable,
    ContainmentViolation,
    ContainmentUnproven,
}

/// The supervisor's reply.
#[derive(Debug, Clone, PartialEq, Eq)]
pub struct SupervisorResponse {
    pub outcome: SupervisorOutcome,
    pub code: Option<i32>,
    pub stdout_hex: String,
    pub stderr_hex: String,
    pub stdout_truncated: bool,
    pub stderr_truncated: bool,
    pub cwd_identity: Option<String>,
}

// ---------------------------------------------------------------------------
// Hex transport.

/// The lowercase hex digit of a value below 16.
pub open spec fn hex_char(n: u8) -> char {
    if n < 10 {
        ((48 + n) as u8) as char
    } else {
        ((87 + n) as u8) as char
    }
}

/// Two lowercase hex digits per byte, high nibble first.
pub open spec fn hex_encode(b: Seq<u8>) -> Seq<char>
    decreases b.len(),
{
    if b.len() == 0 {
        seq![]
    } else {
        hex_encode(b.drop_last()) + seq![hex_char(b.last() / 16), hex_char(b.last() % 16)]
    }
}

/// The value of a lowercase hex digit.
pub open spec fn nibble(c: char) -> Option<u8> {
    if '0' <= c && c <= '9' {
        Some((c as u32 - 48) as u8)
    } else if 'a' <= c && c <= 'f' {
        Some((c as u32 - 87) as u8)
    } else {
        None
    }
}

/// The bytes of an even-length lowercase hex text; `None` for anything else.
pub open spec fn hex_decode(s: Seq<char>) -> Option<Seq<u8>>
    decreases s.len(),
{
    if s.len() % 2 != 0 {
        None
    } else if s.len() == 0 {
        Some(seq![])
    } else {
        match (hex_decode(s.take(s.len() - 2)), nibble(s[s.len() - 2]), nibble(s[s.len() - 1])) {
            (Some(p), Some(h), Some(l)) => Some(p.push((h * 16 + l) as u8)),
            _ => None,
        }
    }
}

pub proof fn lemma_hex_encode_len(b: Seq<u8>)
    ensures
        hex_encode(b).len() == 2 * b.len(),
    decreases b.len(),
{
    if b.len() > 0 {
        lemma_hex_encode_len(b.drop_last());
    }
}

/// Decoding what was encoded gives the bytes back, for every byte string.
pub proof fn lemma_hex_round_trip(b: Seq<u8>)
    ensures
        hex_decode(hex_encode(b)) == Some(b),
    decreases b.len(),
{
    if b.len() > 0 {
        let init = b.drop_last();
        let x = b.last();
        lemma_hex_round_trip(init);
        lemma_hex_encode_len(init);
        let e = hex_encode(b);
        assert(e.take(e.len() - 2) =~= hex_encode(init));
        let h = x / 16;
        let l = x % 16;
        assert(nibble(hex_char(h)) == Some(h));
        assert(nibble(hex_char(l)) == Some(l));
        assert((h * 16 + l) as u8 == x);
        assert(init.push(x) =~= b);
    }
}

/// A successful decode of a text decodes each of its even prefixes too.
pub proof fn lemma_hex_decode_prefix(s: Seq<char>, i: int)
    requires
        0 <= i <= s.len(),
        i % 2 == 0,
        hex_decode(s) is Some,
    ensures
        hex_decode(s.take(i)) is Some,
    decreases s.len(),
{
    if i < s.len() {
        let t = s.take(s.len() - 2);
        lemma_hex_decode_prefix(t, i);
        assert(t.take(i) =~= s.take(i));
    } else {
        assert(s.take(i) =~= s);
    }
}

pub(crate) fn hex_digit(n: u8) -> (r: char)
    requires
        n < 16,
    ensures
        r == hex_char(n),
{
    if n < 10 {
        (48 + n) as char
    } else {
        (87 + n) as char
    }
}

pub fn hex_nibble(c: char) -> (r: Option<u8>)
    ensures
        r == nibble(c),
{
    if '0' <= c && c <= '9' {
        Some(((c as u32) - 48) as u8)
    } else if 'a' <= c && c <= 'f' {
        Some(((c as u32) - 87) as u8)
    } else {
        None
    }
}

pub fn encode_hex(bytes: &[u8]) -> (r: String)
    ensures
        r@ == hex_encode(bytes@),
{
    let mut r = String::new();
    let mut i: usize = 0;
    assert(bytes@.take(0) =~= Seq::<u8>::empty());
    while i < bytes.len()
        invariant
            i <= bytes.len(),
            r@ == hex_encode(bytes@.take(i as int)),
        decreases bytes.len() - i,
    {
        let b = bytes[i];
        push_char(&mut r, hex_digit(b / 16));
        push_char(&mut r, hex_digit(b % 16));
        assert(bytes@.take(i + 1).drop_last() =~= bytes@.take(i as int));
        i += 1;
        assert(r@ =~= hex_encode(bytes@.take(i as int)));
    }
    assert(bytes@.take(bytes.len() as int) =~= bytes@);
    r
}

pub fn decode_hex(value: &str) -> (r: Option<Vec<u8>>)
    ensures
        match r {
            Some(v) => hex_decode(value@) == Some(v@),
            None => hex_decode(value@) is None,
        },
{
    let s = chars_of(value);
    if s.len() % 2 != 0 {
        return None;
    }
    let mut out: Vec<u8> = Vec::new();
    let mut i: usize = 0;
    assert(s@.take(0) =~= Seq::<char>::empty());
    while i < s.len()
        invariant
            s@ == value@,
            s.len() % 2 == 0,
            i <= s.len(),
            i % 2 == 0,
            hex_decode(s@.take(i as int)) == Some(out@),
        decreases s.len() - i,
    {
        let ghost t = s@.take(i + 2);
        assert(t.take(t.len() - 2) =~= s@.take(i as int));
        match (hex_nibble(s[i]), hex_nibble(s[i + 1])) {
            (Some(h), Some(l)) => {
                out.push(h * 16 + l);
            },
            _ => {
                proof {
                    if hex_decode(s@) is Some {
                        lemma_hex_decode_prefix(s@, i + 2);
                    }
                }
                return None;
            },
        }
        i += 2;
    }
    assert(s@.take(s.len() as int) =~= s@);
    Some(out)
}

// ---------------------------------------------------------------------------
// Field validation.

/// The decoded bytes of a hex field, when they fit `max` and hold no NUL.
pub open spec fn decoded_within(value: Seq<char>, max: nat) -> Option<Seq<u8>> {
    match hex_decode(value) {
        Some(b) => if b.len() <= max && !b.contains(0u8) {
            Some(b)
        } else {
            None
        },
        None => None,
    }
}

/// An environment name additionally is non-empty and holds no `=`.
pub open spec fn decoded_name(value: Seq<char>) -> Option<Seq<u8>> {
    match decoded_within(value, MAX_REQUEST_ENV_BYTES as nat) {
        Some(b) => if b.len() > 0 && !b.contains(61u8) {
            Some(b)
        } else {
            None
        },
        None => None,
    }
}

fn contains_byte(b: &[u8], x: u8) -> (r: bool)
    ensures
        r == b@.contains(x),
{
    let mut i: usize = 0;
    while i < b.len()
        invariant
            i <= b.len(),
            forall|j: int| 0 <= j < i ==> b@[j] != x,
        decreases b.len() - i,
    {
        if b[i] == x {
            return true;
        }
        i += 1;
    }
    false
}

fn decode_within(value: &str, max: usize) -> (r: Option<Vec<u8>>)
    ensures
        match r {
            Some(v) => decoded_within(value@, max as nat) == Some(v@),
            None => decoded_within(value@, max as nat) is None,
        },
{
    let bytes = decode_hex(value)?;
    if bytes.len() > max || contains_byte(bytes.as_slice(), 0) {
        return None;
    }
    Some(bytes)
}

/// The path bytes a hex field carries.
pub fn decode_path(value: &str) -> (r: Option<Vec<u8>>)
    ensures
        match r {
            Some(v) => decoded_within(value@, MAX_REQUEST_PATH_BYTES as nat) == Some(v@),
            None => decoded_within(value@, MAX_REQUEST_PATH_BYTES as nat) is None,
        },
{
    decode_within(value, MAX_REQUEST_PATH_BYTES)
}

/// The environment bytes a hex field carries.
pub fn decode_environment(value: &str) -> (r: Option<Vec<u8>>)
    ensures
        match r {
            Some(v) => decoded_within(value@, MAX_REQUEST_ENV_BYTES as nat) == Some(v@),
            None => decoded_within(value@, MAX_REQUEST_ENV_BYTES as nat) is None,
        },
{
    decode_within(value, MAX_REQUEST_ENV_BYTES)
}

pub fn decode_environment_name(value: &str) -> (r: Option<Vec<u8>>)
    ensures
        match r {
            Some(v) => decoded_name(value@) == Some(v@),
            None => decoded_name(value@) is None,
        },
{
    let name = decode_environment(value)?;
    if name.len() == 0 || contains_byte(name.as_slice(), 61) {
        return None;
    }
    Some(name)
}


pub open spec fn path_field_ok(value: Seq<char>) -> bool {
    byte_len(value) <= 2 * MAX_REQUEST_PATH_BYTES && decoded_within(
        value,
        MAX_REQUEST_PATH_BYTES as nat,
    ) is Some
}

pub open spec fn env_value_ok(value: Seq<char>) -> bool {
    byte_len(value) <= 2 * MAX_REQUEST_ENV_BYTES && decoded_within(
        value,
        MAX_REQUEST_ENV_BYTES as nat,
    ) is Some
}

pub open spec fn env_name_ok(value: Seq<char>) -> bool {
    byte_len(value) <= 2 * MAX_REQUEST_ENV_BYTES && decoded_name(value) is Some
}

pub fn encoded_path_is_valid(value: &str) -> (r: bool)
    ensures
        r == path_field_ok(value@),
{
    value.len() <= 2 * MAX_REQUEST_PATH_BYTES && decode_path(value).is_some()
}

pub fn encoded_environment_value_is_valid(value: &str) -> (r: bool)
    ensures
        r == env_value_ok(value@),
{
    value.len() <= 2 * MAX_REQUEST_ENV_BYTES && decode_environment(value).is_some()
}

pub fn encoded_environment_name_is_valid(value: &str) -> (r: bool)
    ensures
        r == env_name_ok(value@),
{
    value.len() <= 2 * MAX_REQUEST_ENV_BYTES && decode_environment_name(value).is_some()
}

/// The encoded bytes of a run of environment entries.
pub open spec fn env_bytes(entries: Seq<EncodedEnvironment>) -> nat
    decreases entries.len(),
{
    if entries.len() == 0 {
        0
    } else {
        env_bytes(entries.drop_last()) + byte_len(entries.last().name@) + byte_len(
            entries.last().value@,
        )
    }
}

/// At most the entry limit, every name and value valid, and the encoded total
/// within the byte budget.
pub open spec fn env_entries_ok(entries: Seq<EncodedEnvironment>) -> bool {
    entries.len() <= MAX_REQUEST_ENVIRONMENT_ENTRIES && (forall|k: int|
        0 <= k < entries.len() ==> env_name_ok(#[trigger] entries[k].name@) && env_value_ok(
            entries[k].value@,
        )) && env_bytes(entries) <= MAX_REQUEST_ENVIRONMENT_BYTES
}

pub proof fn lemma_env_bytes_monotone(entries: Seq<EncodedEnvironment>, i: int)
    requires
        0 <= i <= entries.len(),
    ensures
        env_bytes(entries.take(i)) <= env_bytes(entries),
    decreases entries.len(),
{
    if i < entries.len() {
        lemma_env_bytes_monotone(entries.drop_last(), i);
        assert(entries.drop_last().take(i) =~= entries.take(i));
    } else {
        assert(entries.take(i) =~= entries);
    }
}

pub fn encoded_environment_entries_are_valid(environment: &[EncodedEnvironment]) -> (r: bool)
    ensures
        r == env_entries_ok(environment@),
{
    if environment.len() > MAX_REQUEST_ENVIRONMENT_ENTRIES {
        return false;
    }
    let mut total: usize = 0;
    let mut i: usize = 0;
    assert(environment@.take(0) =~= Seq::<EncodedEnvironment>::empty());
    while i < environment.len()
        invariant
            environment.len() <= MAX_REQUEST_ENVIRONMENT_ENTRIES,
            i <= environment.len(),
            total == env_bytes(environment@.take(i as int)),
            total <= MAX_REQUEST_ENVIRONMENT_BYTES,
            forall|k: int|
                0 <= k < i ==> env_name_ok(#[trigger] environment@[k].name@) && env_value_ok(
                    environment@[k].value@,
                ),
        decreases environment.len() - i,
    {
        let entry = &environment[i];
        if !encoded_environment_name_is_valid(entry.name.as_str())
            || !encoded_environment_value_is_valid(entry.value.as_str()) {
            return false;
        }
        let n = entry.name.as_str().len();
        let v = entry.value.as_str().len();
        assert(environment@.take(i + 1).drop_last() =~= environment@.take(i as int));
        if n > MAX_REQUEST_ENVIRONMENT_BYTES - total || v > MAX_REQUEST_ENVIRONMENT_BYTES - total
            - n {
            proof {
                lemma_env_bytes_monotone(environment@, i + 1);
            }
            return false;
        }
        total = total + n + v;
        i += 1;
    }
    assert(environment@.take(environment.len() as int) =~= environment@);
    true
}

pub open spec fn capture_limit_ok(limit: u64) -> bool {
    0 < limit && limit <= MAX_CAPTURE_LIMIT_BYTES
}

/// A capture limit is usable when it is positive and at most the hard cap.
pub fn valid_capture_limit(limit: u64) -> (r: Option<usize>)
    ensures
        r == (if capture_limit_ok(limit) {
            Some(limit as usize)
        } else {
            None
        }),
{
    if limit > 0 && limit <= MAX_CAPTURE_LIMIT_BYTES {
        Some(limit as usize)
    } else {
        None
    }
}

/// A raw envelope is parsed only when it fits the envelope budget.
pub fn request_payload_is_bounded(raw: &str) -> (r: bool)
    ensures
        r == (byte_len(raw@) <= MAX_REQUEST_ENVELOPE_BYTES),
{
    raw.len() <= MAX_REQUEST_ENVELOPE_BYTES
}


// ---------------------------------------------------------------------------
// Decimal numbers.

pub open spec fn digit_char(d: nat) -> char {
    ((48 + d) as u8) as char
}

/// The shortest decimal form of a number.
pub open spec fn decimal(n: nat) -> Seq<char>
    decreases n,
{
    if n < 10 {
        seq![digit_char(n)]
    } else {
        decimal(n / 10).push(digit_char(n % 10))
    }
}

/// The decimal form left-padded with zeros to twenty characters.
pub open spec fn decimal20(n: nat) -> Seq<char> {
    Seq::new((20 - decimal(n).len()) as nat, |i: int| '0') + decimal(n)
}

pub fn decimal_string(n: u64) -> (r: String)
    ensures
        r@ == decimal(n as nat),
    decreases n,
{
    if n < 10 {
        let mut r = String::new();
        push_char(&mut r, (48 + n as u8) as char);
        r
    } else {
        let mut r = decimal_string(n / 10);
        push_char(&mut r, (48 + (n % 10) as u8) as char);
        r
    }
}

pub open spec fn pow10(k: nat) -> nat
    decreases k,
{
    if k == 0 {
        1
    } else {
        10 * pow10((k - 1) as nat)
    }
}

proof fn lemma_decimal_len_bound(n: nat, k: nat)
    requires
        1 <= k,
        n < pow10(k),
    ensures
        decimal(n).len() <= k,
    decreases k,
{
    if n >= 10 {
        if k == 1 {
            assert(pow10(1) == 10 * pow10(0));
        }
        let p = pow10((k - 1) as nat);
        assert(n < 10 * p);
        assert(n / 10 < p) by (nonlinear_arith)
            requires
                n < 10 * p,
        ;
        lemma_decimal_len_bound(n / 10, (k - 1) as nat);
    }
}

pub proof fn lemma_decimal_len(n: nat)
    ensures
        decimal(n).len() >= 1,
    decreases n,
{
    if n >= 10 {
        lemma_decimal_len(n / 10);
    }
}

fn decimal20_string(n: u64) -> (r: String)
    ensures
        r@ == decimal20(n as nat),
{
    let digits = decimal_string(n);
    let d = chars_of(digits.as_str());
    proof {
        reveal_with_fuel(pow10, 21);
        assert(pow10(20) == 100000000000000000000);
        lemma_decimal_len_bound(n as nat, 20);
    }
    let mut r = String::new();
    let mut k: usize = 0;
    let pad: usize = if d.len() < 20 {
        20 - d.len()
    } else {
        0
    };
    while k < pad
        invariant
            k <= pad,
            pad == (20 - decimal(n as nat).len()) as nat,
            r@ == Seq::new(k as nat, |i: int| '0'),
        decreases pad - k,
    {
        push_char(&mut r, '0');
        k += 1;
        assert(r@ =~= Seq::new(k as nat, |i: int| '0'));
    }
    r.append(digits.as_str());
    r
}

pub open spec fn is_digit(c: char) -> bool {
    '0' <= c && c <= '9'
}

/// The value of a run of decimal digits.
pub open spec fn digits_value(d: Seq<char>) -> nat
    decreases d.len(),
{
    if d.len() == 0 {
        0
    } else {
        digits_value(d.drop_last()) * 10 + ((d.last() as u32 - 48) as nat)
    }
}

/// The digits after an optional leading `+`.
pub open spec fn unsigned_digits(s: Seq<char>) -> Seq<char> {
    if s.len() > 0 && s[0] == '+' {
        s.drop_first()
    } else {
        s
    }
}

pub open spec fn all_digits(d: Seq<char>) -> bool {
    forall|i: int| 0 <= i < d.len() ==> is_digit(#[trigger] d[i])
}

/// What `u64::from_str` accepts: an optional `+`, then at least one decimal
/// digit and nothing else, with a value that fits.
pub open spec fn parsed_u64(s: Seq<char>) -> Option<u64> {
    let d = unsigned_digits(s);
    if d.len() > 0 && all_digits(d) && digits_value(d) <= u64::MAX {
        Some(digits_value(d) as u64)
    } else {
        None
    }
}

pub proof fn lemma_digits_value_prefix(d: Seq<char>, i: int)
    requires
        0 <= i <= d.len(),
        forall|k: int| 0 <= k < d.len() ==> is_digit(#[trigger] d[k]),
    ensures
        digits_value(d.take(i)) <= digits_value(d),
    decreases d.len(),
{
    if i < d.len() {
        let init = d.drop_last();
        lemma_digits_value_prefix(init, i);
        assert(init.take(i) =~= d.take(i));
    } else {
        assert(d.take(i) =~= d);
    }
}

pub fn parse_u64(s: &str) -> (r: Option<u64>)
    ensures
        r == parsed_u64(s@),
{
    let all = chars_of(s);
    let start: usize = if all.len() > 0 && all[0] == '+' {
        1
    } else {
        0
    };
    let ghost d = unsigned_digits(s@);
    assert(d =~= all@.subrange(start as int, all@.len() as int));
    if start == all.len() {
        return None;
    }
    let mut value: u64 = 0;
    let mut i: usize = start;
    assert(d.take(0) =~= Seq::<char>::empty());
    while i < all.len()
        invariant
            all@ == s@,
            d == unsigned_digits(s@),
            start <= i <= all.len(),
            d == all@.subrange(start as int, all@.len() as int),
            forall|k: int| 0 <= k < i - start ==> is_digit(#[trigger] d[k]),
            value as nat == digits_value(d.take(i - start)),
        decreases all.len() - i,
    {
        let c = all[i];
        if !('0' <= c && c <= '9') {
            assert(d[i - start] == c);
            assert(!is_digit(d[i - start]));
            assert(!all_digits(d));
            return None;
        }
        let digit = ((c as u32) - 48) as u64;
        assert(d.take(i - start + 1).drop_last() =~= d.take(i - start));
        if value > (u64::MAX - digit) / 10 {
            proof {
                assert(digits_value(d.take(i - start + 1)) == value * 10 + digit);
                assert(value * 10 + digit > u64::MAX) by (nonlinear_arith)
                    requires
                        value > (u64::MAX - digit) / 10,
                        digit <= 9,
                ;
                if all_digits(d) {
                    lemma_digits_value_prefix(d, i - start + 1);
                    assert(digits_value(d) > u64::MAX);
                }
                assert(parsed_u64(s@).is_none());
            }
            return None;
        }
        value = value * 10 + digit;
        i += 1;
    }
    assert(d.take(d.len() as int) =~= d);
    Some(value)
}

// ---------------------------------------------------------------------------
// The request envelope, framed exactly as `serde_json` writes the request.

pub open spec fn opt_json(o: Option<String>) -> Seq<char> {
    match o {
        None => "null"@,
        Some(s) => json_text(s@),
    }
}

pub open spec fn string_items(xs: Seq<String>) -> Seq<char>
    decreases xs.len(),
{
    if xs.len() == 0 {
        seq![]
    } else if xs.len() == 1 {
        json_text(xs[0]@)
    } else {
        string_items(xs.drop_last()) + ","@ + json_text(xs.last()@)
    }
}

/// The name and value texts of an encoded entry.
pub open spec fn entry_text(e: EncodedEnvironment) -> (Seq<char>, Seq<char>) {
    (e.name@, e.value@)
}

pub open spec fn env_item(e: (Seq<char>, Seq<char>)) -> Seq<char> {
    "{\"name\":"@ + json_text(e.0) + ",\"value\":"@ + json_text(e.1) + "}"@
}

pub open spec fn env_items(xs: Seq<(Seq<char>, Seq<char>)>) -> Seq<char>
    decreases xs.len(),
{
    if xs.len() == 0 {
        seq![]
    } else if xs.len() == 1 {
        env_item(xs[0])
    } else {
        env_items(xs.drop_last()) + ","@ + env_item(xs.last())
    }
}

pub open spec fn env_json(o: Option<Vec<EncodedEnvironment>>) -> Seq<char> {
    match o {
        None => "null"@,
        Some(v) => "["@ + env_items(v@.map_values(|e: EncodedEnvironment| entry_text(e))) + "]"@,
    }
}

/// The compact JSON text of a request, fields in declaration order.
pub open spec fn request_json(r: SupervisorRequest) -> Seq<char> {
    "{\"argv\":["@ + string_items(r.argv@) + "],\"repository_root\":"@ + json_text(
        r.repository_root@,
    ) + ",\"workspace_root\":"@ + json_text(r.workspace_root@) + ",\"cwd\":"@ + json_text(
        r.cwd@,
    ) + ",\"timeout_ms\":"@ + opt_json(r.timeout_ms) + ",\"deadline_ns\":"@ + opt_json(
        r.deadline_ns,
    ) + ",\"environment\":"@ + env_json(r.environment) + ",\"capture_limit\":"@ + decimal(
        r.capture_limit as nat,
    ) + ",\"path\":"@ + opt_json(r.path) + ",\"home\":"@ + opt_json(r.home) + ",\"ci\":"@
        + opt_json(r.ci) + "}"@
}

fn append_opt(out: &mut String, o: &Option<String>)
    ensures
        final(out)@ == old(out)@ + opt_json(*o),
{
    match o {
        None => out.append("null"),
        Some(s) => {
            let q = quote_json(s.as_str());
            out.append(q.as_str());
        },
    }
}

fn append_strings(out: &mut String, xs: &Vec<String>)
    ensures
        final(out)@ == old(out)@ + string_items(xs@),
{
    let ghost start = out@;
    let mut i: usize = 0;
    assert(xs@.take(0) =~= Seq::<String>::empty());
    while i < xs.len()
        invariant
            i <= xs.len(),
            out@ == start + string_items(xs@.take(i as int)),
        decreases xs.len() - i,
    {
        if i > 0 {
            out.append(",");
        }
        let q = quote_json(xs[i].as_str());
        out.append(q.as_str());
        assert(xs@.take(i + 1).drop_last() =~= xs@.take(i as int));
        i += 1;
        if i == 1 {
            assert(out@ =~= start + string_items(xs@.take(i as int)));
        } else {
            assert(out@ =~= start + string_items(xs@.take(i as int)));
        }
    }
    assert(xs@.take(xs.len() as int) =~= xs@);
}

fn append_env(out: &mut String, xs: &Vec<EncodedEnvironment>)
    ensures
        final(out)@ == old(out)@ + env_items(xs@.map_values(|e: EncodedEnvironment| entry_text(e))),
{
    let ghost start = out@;
    let ghost f = |e: EncodedEnvironment| entry_text(e);
    let mut i: usize = 0;
    assert(xs@.take(0).map_values(f) =~= Seq::<(Seq<char>, Seq<char>)>::empty());
    while i < xs.len()
        invariant
            i <= xs.len(),
            f == (|e: EncodedEnvironment| entry_text(e)),
            out@ == start + env_items(xs@.take(i as int).map_values(f)),
        decreases xs.len() - i,
    {
        if i > 0 {
            out.append(",");
        }
        out.append("{\"name\":");
        let n = quote_json(xs[i].name.as_str());
        out.append(n.as_str());
        out.append(",\"value\":");
        let v = quote_json(xs[i].value.as_str());
        out.append(v.as_str());
        out.append("}");
        let ghost next = xs@.take(i + 1).map_values(f);
        assert(next.drop_last() =~= xs@.take(i as int).map_values(f));
        assert(next.last() == entry_text(xs@[i as int]));
        i += 1;
        assert(out@ =~= start + env_items(xs@.take(i as int).map_values(f)));
    }
    assert(xs@.take(xs.len() as int) =~= xs@);
}

/// The JSON text of a request.
pub fn request_text(request: &SupervisorRequest) -> (r: String)
    ensures
        r@ == request_json(*request),
{
    let mut out = String::from_str("{\"argv\":[");
    append_strings(&mut out, &request.argv);
    out.append("],\"repository_root\":");
    let q = quote_json(request.repository_root.as_str());
    out.append(q.as_str());
    out.append(",\"workspace_root\":");
    let q = quote_json(request.workspace_root.as_str());
    out.append(q.as_str());
    out.append(",\"cwd\":");
    let q = quote_json(request.cwd.as_str());
    out.append(q.as_str());
    out.append(",\"timeout_ms\":");
    append_opt(&mut out, &request.timeout_ms);
    out.append(",\"deadline_ns\":");
    append_opt(&mut out, &request.deadline_ns);
    out.append(",\"environment\":");
    match &request.environment {
        None => out.append("null"),
        Some(entries) => {
            out.append("[");
            append_env(&mut out, entries);
            out.append("]");
        },
    }
    out.append(",\"capture_limit\":");
    let n = decimal_string(request.capture_limit);
    out.append(n.as_str());
    out.append(",\"path\":");
    append_opt(&mut out, &request.path);
    out.append(",\"home\":");
    append_opt(&mut out, &request.home);
    out.append(",\"ci\":");
    append_opt(&mut out, &request.ci);
    out.append("}");
    assert(out@ =~= request_json(*request));
    out
}

/// The serialized request, refused when it exceeds the envelope budget.
pub fn serialize_request(request: &SupervisorRequest) -> (r: Result<String, ()>)
    ensures
        match r {
            Ok(s) => s@ == request_json(*request) && byte_len(s@) <= MAX_REQUEST_ENVELOPE_BYTES,
            Err(_) => byte_len(request_json(*request)) > MAX_REQUEST_ENVELOPE_BYTES,
        },
{
    let s = request_text(request);
    if s.as_str().len() <= MAX_REQUEST_ENVELOPE_BYTES {
        Ok(s)
    } else {
        Err(())
    }
}

pub open spec fn has_nul(s: Seq<char>) -> bool {
    s.contains('\0')
}

fn has_nul_exec(s: &str) -> (r: bool)
    ensures
        r == has_nul(s@),
{
    let c = chars_of(s);
    let mut i: usize = 0;
    while i < c.len()
        invariant
            c@ == s@,
            i <= c.len(),
            forall|j: int| 0 <= j < i ==> c@[j] != '\0',
        decreases c.len() - i,
    {
        if c[i] == '\0' {
            return true;
        }
        i += 1;
    }
    false
}

/// Every argument is free of NUL, the program is named, and there is one.
pub open spec fn argv_ok(argv: Seq<String>) -> bool {
    argv.len() > 0 && argv[0]@.len() > 0 && forall|k: int|
        0 <= k < argv.len() ==> !has_nul(#[trigger] argv[k]@)
}

fn argv_is_valid(argv: &[String]) -> (r: bool)
    ensures
        r == argv_ok(argv@),
{
    if argv.len() == 0 || argv[0].as_str().is_empty() {
        return false;
    }
    let mut i: usize = 0;
    while i < argv.len()
        invariant
            i <= argv.len(),
            forall|k: int| 0 <= k < i ==> !has_nul(#[trigger] argv@[k]@),
        decreases argv.len() - i,
    {
        if has_nul_exec(argv[i].as_str()) {
            return false;
        }
        i += 1;
    }
    true
}

pub open spec fn opt_env_ok(o: Option<String>) -> bool {
    match o {
        None => true,
        Some(v) => env_value_ok(v@),
    }
}

/// The receiver's acceptance rule: a runnable argv, valid hex paths, a usable
/// capture limit, a valid environment (explicit entries, or the legacy
/// `PATH`/`HOME`/`CI` fields), and an envelope within budget.
pub open spec fn request_ok(r: SupervisorRequest) -> bool {
    &&& argv_ok(r.argv@)
    &&& path_field_ok(r.repository_root@)
    &&& path_field_ok(r.workspace_root@)
    &&& path_field_ok(r.cwd@)
    &&& capture_limit_ok(r.capture_limit)
    &&& match r.environment {
        Some(entries) => env_entries_ok(entries@),
        None => opt_env_ok(r.path) && opt_env_ok(r.home) && opt_env_ok(r.ci),
    }
    &&& byte_len(request_json(r)) <= MAX_REQUEST_ENVELOPE_BYTES
}

fn opt_env_is_valid(o: &Option<String>) -> (r: bool)
    ensures
        r == opt_env_ok(*o),
{
    match o {
        None => true,
        Some(v) => encoded_environment_value_is_valid(v.as_str()),
    }
}

pub fn request_is_valid(request: &SupervisorRequest) -> (r: bool)
    ensures
        r == request_ok(*request),
{
    if !argv_is_valid(request.argv.as_slice()) {
        return false;
    }
    if !encoded_path_is_valid(request.repository_root.as_str()) || !encoded_path_is_valid(
        request.workspace_root.as_str(),
    ) || !encoded_path_is_valid(request.cwd.as_str()) || valid_capture_limit(
        request.capture_limit,
    ).is_none() {
        return false;
    }
    let environment_ok = match &request.environment {
        Some(entries) => encoded_environment_entries_are_valid(entries.as_slice()),
        None => opt_env_is_valid(&request.path) && opt_env_is_valid(&request.home)
            && opt_env_is_valid(&request.ci),
    };
    environment_ok && serialize_request(request).is_ok()
}


// ---------------------------------------------------------------------------
// Building requests from raw bytes.

/// Raw bytes fit a field when they are within `max` and hold no NUL.
pub open spec fn raw_field_ok(b: Seq<u8>, max: nat) -> bool {
    b.len() <= max && !b.contains(0u8)
}

pub open spec fn raw_entry_ok(e: (Vec<u8>, Vec<u8>)) -> bool {
    raw_field_ok(e.0@, MAX_REQUEST_ENV_BYTES as nat) && raw_field_ok(
        e.1@,
        MAX_REQUEST_ENV_BYTES as nat,
    )
}

/// The name and value texts an entry is encoded to.
pub open spec fn raw_entry_text(e: (Vec<u8>, Vec<u8>)) -> (Seq<char>, Seq<char>) {
    (hex_encode(e.0@), hex_encode(e.1@))
}

/// The encoded bytes of a run of raw environment entries.
pub open spec fn raw_env_bytes(env: Seq<(Vec<u8>, Vec<u8>)>) -> nat
    decreases env.len(),
{
    if env.len() == 0 {
        0
    } else {
        raw_env_bytes(env.drop_last()) + byte_len(hex_encode(env.last().0@)) + byte_len(
            hex_encode(env.last().1@),
        )
    }
}

/// At most the entry limit, every name and value within its field limit, and
/// the encoded total within the byte budget.
pub open spec fn raw_env_ok(env: Seq<(Vec<u8>, Vec<u8>)>) -> bool {
    env.len() <= MAX_REQUEST_ENVIRONMENT_ENTRIES && (forall|k: int|
        0 <= k < env.len() ==> raw_entry_ok(#[trigger] env[k])) && raw_env_bytes(env)
        <= MAX_REQUEST_ENVIRONMENT_BYTES
}

proof fn lemma_raw_env_bytes_monotone(env: Seq<(Vec<u8>, Vec<u8>)>, i: int)
    requires
        0 <= i <= env.len(),
    ensures
        raw_env_bytes(env.take(i)) <= raw_env_bytes(env),
    decreases env.len(),
{
    if i < env.len() {
        lemma_raw_env_bytes_monotone(env.drop_last(), i);
        assert(env.drop_last().take(i) =~= env.take(i));
    } else {
        assert(env.take(i) =~= env);
    }
}

fn encode_within(bytes: &[u8], max: usize) -> (r: Option<String>)
    ensures
        match r {
            Some(s) => raw_field_ok(bytes@, max as nat) && s@ == hex_encode(bytes@),
            None => !raw_field_ok(bytes@, max as nat),
        },
{
    if bytes.len() <= max && !contains_byte(bytes, 0) {
        Some(encode_hex(bytes))
    } else {
        None
    }
}

/// The hex field of a path, when it fits the path limit and holds no NUL.
pub fn encode_path(bytes: &[u8]) -> (r: Option<String>)
    ensures
        match r {
            Some(s) => raw_field_ok(bytes@, MAX_REQUEST_PATH_BYTES as nat) && s@ == hex_encode(
                bytes@,
            ),
            None => !raw_field_ok(bytes@, MAX_REQUEST_PATH_BYTES as nat),
        },
{
    encode_within(bytes, MAX_REQUEST_PATH_BYTES)
}

/// The hex field of an environment name or value.
pub fn encode_environment_value(bytes: &[u8]) -> (r: Result<String, ()>)
    ensures
        match r {
            Ok(s) => raw_field_ok(bytes@, MAX_REQUEST_ENV_BYTES as nat) && s@ == hex_encode(
                bytes@,
            ),
            Err(_) => !raw_field_ok(bytes@, MAX_REQUEST_ENV_BYTES as nat),
        },
{
    match encode_within(bytes, MAX_REQUEST_ENV_BYTES) {
        Some(s) => Ok(s),
        None => Err(()),
    }
}

/// Encodes every entry, refusing more entries than the limit, a field over
/// its limit, or an encoded total over the byte budget.
pub fn encode_environment_entries(environment: &[(Vec<u8>, Vec<u8>)]) -> (r: Result<
    Vec<EncodedEnvironment>,
    (),
>)
    ensures
        match r {
            Ok(v) => raw_env_ok(environment@) && v@.map_values(
                |e: EncodedEnvironment| entry_text(e),
            ) == environment@.map_values(|e: (Vec<u8>, Vec<u8>)| raw_entry_text(e)),
            Err(_) => !raw_env_ok(environment@),
        },
{
    if environment.len() > MAX_REQUEST_ENVIRONMENT_ENTRIES {
        return Err(());
    }
    let ghost f = |e: EncodedEnvironment| entry_text(e);
    let ghost g = |e: (Vec<u8>, Vec<u8>)| raw_entry_text(e);
    let mut total: usize = 0;
    let mut encoded: Vec<EncodedEnvironment> = Vec::new();
    let mut i: usize = 0;
    assert(environment@.take(0) =~= Seq::<(Vec<u8>, Vec<u8>)>::empty());
    while i < environment.len()
        invariant
            environment.len() <= MAX_REQUEST_ENVIRONMENT_ENTRIES,
            i <= environment.len(),
            f == (|e: EncodedEnvironment| entry_text(e)),
            g == (|e: (Vec<u8>, Vec<u8>)| raw_entry_text(e)),
            total == raw_env_bytes(environment@.take(i as int)),
            total <= MAX_REQUEST_ENVIRONMENT_BYTES,
            forall|k: int| 0 <= k < i ==> raw_entry_ok(#[trigger] environment@[k]),
            encoded@.len() == i,
            encoded@.map_values(f) == environment@.take(i as int).map_values(g),
        decreases environment.len() - i,
    {
        let name = match encode_environment_value(environment[i].0.as_slice()) {
            Ok(n) => n,
            Err(_) => return Err(()),
        };
        let value = match encode_environment_value(environment[i].1.as_slice()) {
            Ok(v) => v,
            Err(_) => return Err(()),
        };
        let n = name.as_str().len();
        let v = value.as_str().len();
        assert(environment@.take(i + 1).drop_last() =~= environment@.take(i as int));
        if n > MAX_REQUEST_ENVIRONMENT_BYTES - total || v > MAX_REQUEST_ENVIRONMENT_BYTES - total
            - n {
            proof {
                lemma_raw_env_bytes_monotone(environment@, i + 1);
            }
            return Err(());
        }
        total = total + n + v;
        let ghost before = encoded@;
        let ghost entry = environment@[i as int];
        assert(name@ == hex_encode(entry.0@));
        assert(value@ == hex_encode(entry.1@));
        encoded.push(EncodedEnvironment { name, value });
        assert(f(encoded@[i as int]) == g(entry));
        assert(environment@.take(i + 1).map_values(g)[i as int] == g(entry));
        assert forall|k: int| 0 <= k < i implies encoded@.map_values(f)[k]
            == environment@.take(i + 1).map_values(g)[k] by {
            assert(encoded@[k] == before[k]);
            assert(before.map_values(f)[k] == environment@.take(i as int).map_values(g)[k]);
        }
        assert(encoded@.map_values(f) =~= environment@.take(i + 1).map_values(g));
        i += 1;
    }
    assert(environment@.take(environment.len() as int) =~= environment@);
    Ok(encoded)
}

fn clone_strings(xs: &[String]) -> (r: Vec<String>)
    ensures
        r@ == xs@,
{
    let mut r: Vec<String> = Vec::new();
    let mut i: usize = 0;
    while i < xs.len()
        invariant
            i <= xs.len(),
            r@ == xs@.take(i as int),
        decreases xs.len() - i,
    {
        r.push(xs[i].clone());
        i += 1;
        assert(r@ =~= xs@.take(i as int));
    }
    assert(xs@.take(xs.len() as int) =~= xs@);
    r
}

/// What a built request needs of its raw inputs.
pub open spec fn raw_request_ok(
    argv: Seq<String>,
    environment: Seq<(Vec<u8>, Vec<u8>)>,
    repository_root: Seq<u8>,
    workspace_root: Seq<u8>,
    cwd: Seq<u8>,
) -> bool {
    &&& argv_ok(argv)
    &&& raw_field_ok(repository_root, MAX_REQUEST_PATH_BYTES as nat)
    &&& raw_field_ok(workspace_root, MAX_REQUEST_PATH_BYTES as nat)
    &&& raw_field_ok(cwd, MAX_REQUEST_PATH_BYTES as nat)
    &&& raw_env_ok(environment)
}

/// The fields a request built from raw inputs carries, the deadline fields
/// and capture limit aside.
pub open spec fn built_from(
    r: SupervisorRequest,
    argv: Seq<String>,
    environment: Seq<(Vec<u8>, Vec<u8>)>,
    repository_root: Seq<u8>,
    workspace_root: Seq<u8>,
    cwd: Seq<u8>,
) -> bool {
    &&& r.argv@ == argv
    &&& r.repository_root@ == hex_encode(repository_root)
    &&& r.workspace_root@ == hex_encode(workspace_root)
    &&& r.cwd@ == hex_encode(cwd)
    &&& r.environment matches Some(e) && e@.map_values(|x: EncodedEnvironment| entry_text(x))
        == environment.map_values(|x: (Vec<u8>, Vec<u8>)| raw_entry_text(x))
    &&& r.path is None
    &&& r.home is None
    &&& r.ci is None
}

/// A request with a relative timeout, written as twenty zero-padded digits so
/// that its envelope size does not depend on the timeout.
pub fn build_request_with_relative_timeout(
    argv: &[String],
    environment: &[(Vec<u8>, Vec<u8>)],
    repository_root: &[u8],
    workspace_root: &[u8],
    cwd: &[u8],
    timeout_ms: u64,
) -> (r: Result<SupervisorRequest, ()>)
    ensures
        match r {
            Ok(req) => {
                &&& raw_request_ok(argv@, environment@, repository_root@, workspace_root@, cwd@)
                &&& built_from(req, argv@, environment@, repository_root@, workspace_root@, cwd@)
                &&& req.timeout_ms matches Some(t) && t@ == decimal20(timeout_ms as nat)
                &&& req.deadline_ns is None
                &&& req.capture_limit == MAX_CAPTURE_BYTES
            },
            Err(_) => !raw_request_ok(
                argv@,
                environment@,
                repository_root@,
                workspace_root@,
                cwd@,
            ),
        },
{
    if !argv_is_valid(argv) {
        return Err(());
    }
    let repository_root = match encode_path(repository_root) {
        Some(p) => p,
        None => return Err(()),
    };
    let workspace_root = match encode_path(workspace_root) {
        Some(p) => p,
        None => return Err(()),
    };
    let cwd = match encode_path(cwd) {
        Some(p) => p,
        None => return Err(()),
    };
    let environment = encode_environment_entries(environment)?;
    Ok(
        SupervisorRequest {
            argv: clone_strings(argv),
            repository_root,
            workspace_root,
            cwd,
            timeout_ms: Some(decimal20_string(timeout_ms)),
            deadline_ns: None,
            environment: Some(environment),
            capture_limit: MAX_CAPTURE_BYTES,
            path: None,
            home: None,
            ci: None,
        },
    )
}

/// A request with an absolute monotonic deadline and a caller-chosen capture
/// limit.
pub fn build_request_with_deadline(
    argv: &[String],
    environment: &[(Vec<u8>, Vec<u8>)],
    repository_root: &[u8],
    workspace_root: &[u8],
    cwd: &[u8],
    deadline_ns: u64,
    capture_limit: u64,
) -> (r: Result<SupervisorRequest, ()>)
    ensures
        match r {
            Ok(req) => {
                &&& raw_request_ok(argv@, environment@, repository_root@, workspace_root@, cwd@)
                &&& capture_limit_ok(capture_limit)
                &&& built_from(req, argv@, environment@, repository_root@, workspace_root@, cwd@)
                &&& req.timeout_ms is None
                &&& req.deadline_ns matches Some(d) && d@ == decimal(deadline_ns as nat)
                &&& req.capture_limit == capture_limit
            },
            Err(_) => !raw_request_ok(
                argv@,
                environment@,
                repository_root@,
                workspace_root@,
                cwd@,
            ) || !capture_limit_ok(capture_limit),
        },
{
    if !argv_is_valid(argv) {
        return Err(());
    }
    if valid_capture_limit(capture_limit).is_none() {
        return Err(());
    }
    let repository_root = match encode_path(repository_root) {
        Some(p) => p,
        None => return Err(()),
    };
    let workspace_root = match encode_path(workspace_root) {
        Some(p) => p,
        None => return Err(()),
    };
    let cwd = match encode_path(cwd) {
        Some(p) => p,
        None => return Err(()),
    };
    let environment = encode_environment_entries(environment)?;
    Ok(
        SupervisorRequest {
            argv: clone_strings(argv),
            repository_root,
            workspace_root,
            cwd,
            timeout_ms: None,
            deadline_ns: Some(decimal_string(deadline_ns)),
            environment: Some(environment),
            capture_limit,
            path: None,
            home: None,
            ci: None,
        },
    )
}


// ---------------------------------------------------------------------------
// Transport preflight.

/// The envelope of a relative-timeout request up to the timeout value.
pub open spec fn relative_head(
    argv: Seq<String>,
    repository_root: Seq<u8>,
    workspace_root: Seq<u8>,
    cwd: Seq<u8>,
) -> Seq<char> {
    "{\"argv\":["@ + string_items(argv) + "],\"repository_root\":"@ + json_text(
        hex_encode(repository_root),
    ) + ",\"workspace_root\":"@ + json_text(hex_encode(workspace_root)) + ",\"cwd\":"@
        + json_text(hex_encode(cwd)) + ",\"timeout_ms\":"@
}

/// The envelope of a relative-timeout request after the timeout value.
pub open spec fn relative_tail(environment: Seq<(Vec<u8>, Vec<u8>)>) -> Seq<char> {
    ",\"deadline_ns\":"@ + "null"@ + ",\"environment\":"@ + ("["@ + env_items(
        environment.map_values(|x: (Vec<u8>, Vec<u8>)| raw_entry_text(x)),
    ) + "]"@) + ",\"capture_limit\":"@ + decimal(MAX_CAPTURE_BYTES as nat) + ",\"path\":"@
        + "null"@ + ",\"home\":"@ + "null"@ + ",\"ci\":"@ + "null"@ + "}"@
}

/// The envelope of the request built for a relative timeout.
pub open spec fn relative_request_json(
    argv: Seq<String>,
    environment: Seq<(Vec<u8>, Vec<u8>)>,
    repository_root: Seq<u8>,
    workspace_root: Seq<u8>,
    cwd: Seq<u8>,
    timeout_ms: nat,
) -> Seq<char> {
    relative_head(argv, repository_root, workspace_root, cwd) + json_text(decimal20(timeout_ms))
        + relative_tail(environment)
}

proof fn lemma_relative_request_json(
    req: SupervisorRequest,
    argv: Seq<String>,
    environment: Seq<(Vec<u8>, Vec<u8>)>,
    repository_root: Seq<u8>,
    workspace_root: Seq<u8>,
    cwd: Seq<u8>,
    timeout_ms: nat,
)
    requires
        built_from(req, argv, environment, repository_root, workspace_root, cwd),
        req.timeout_ms matches Some(t) && t@ == decimal20(timeout_ms),
        req.deadline_ns is None,
        req.capture_limit == MAX_CAPTURE_BYTES,
    ensures
        request_json(req) == relative_request_json(
            argv,
            environment,
            repository_root,
            workspace_root,
            cwd,
            timeout_ms,
        ),
{
    assert(request_json(req) =~= relative_request_json(
        argv,
        environment,
        repository_root,
        workspace_root,
        cwd,
        timeout_ms,
    ));
}

proof fn lemma_encode_utf8_concat(a: Seq<char>, b: Seq<char>)
    ensures
        vstd::utf8::encode_utf8(a + b) == vstd::utf8::encode_utf8(a) + vstd::utf8::encode_utf8(b),
    decreases a.len(),
{
    if a.len() == 0 {
        assert(a + b =~= b);
        assert(vstd::utf8::encode_utf8(a) =~= Seq::<u8>::empty());
        assert(vstd::utf8::encode_utf8(a) + vstd::utf8::encode_utf8(b) =~= vstd::utf8::encode_utf8(
            b,
        ));
    } else {
        assert((a + b).drop_first() =~= a.drop_first() + b);
        assert((a + b)[0] == a[0]);
        lemma_encode_utf8_concat(a.drop_first(), b);
        let e = vstd::utf8::encode_scalar(a[0] as u32);
        assert(e + (vstd::utf8::encode_utf8(a.drop_first()) + vstd::utf8::encode_utf8(b)) =~= (e
            + vstd::utf8::encode_utf8(a.drop_first())) + vstd::utf8::encode_utf8(b));
    }
}

proof fn lemma_decimal_digits(n: nat)
    ensures
        forall|i: int| 0 <= i < decimal(n).len() ==> is_digit(#[trigger] decimal(n)[i]),
    decreases n,
{
    if n >= 10 {
        lemma_decimal_digits(n / 10);
        let m = (n % 10) as nat;
        assert((48 + m) as u8 == 48 + m);
        assert(is_digit(digit_char(m)));
        let p = decimal(n / 10);
        assert(decimal(n) == p.push(digit_char(m)));
        assert forall|i: int| 0 <= i < decimal(n).len() implies is_digit(#[trigger] decimal(n)[i]) by {
            if i < p.len() {
                assert(decimal(n)[i] == p[i]);
            }
        }
    } else {
        assert((48 + n) as u8 == 48 + n);
        assert(is_digit(digit_char(n)));
    }
}

proof fn lemma_timeout_text(t: nat)
    requires
        t <= u64::MAX,
    ensures
        vstd::utf8::encode_utf8(json_text(decimal20(t))).len() == 22,
{
    reveal_with_fuel(pow10, 21);
    lemma_decimal_len_bound(t, 20);
    lemma_decimal_digits(t);
    let d = decimal20(t);
    assert(d.len() == 20);
    assert forall|i: int| 0 <= i < d.len() implies is_digit(#[trigger] d[i]) by {
        let z = (20 - decimal(t).len()) as nat;
        if i >= z {
            assert(d[i] == decimal(t)[i - z]);
        }
    }
    assert(forall|i: int| 0 <= i < d.len() ==> plain_json_char(#[trigger] d[i]));
    let q = seq!['"'] + d + seq!['"'];
    assert(json_text(d) == q);
    assert(vstd::utf8::is_ascii_chars(q));
    vstd::utf8::is_ascii_chars_encode_utf8(q);
}

/// Whether a relative-timeout request fits the envelope does not depend on
/// the timeout: it is written with a fixed width.
pub proof fn lemma_relative_envelope_size_is_timeout_independent(
    argv: Seq<String>,
    environment: Seq<(Vec<u8>, Vec<u8>)>,
    repository_root: Seq<u8>,
    workspace_root: Seq<u8>,
    cwd: Seq<u8>,
    first: u64,
    second: u64,
)
    ensures
        byte_len(
            relative_request_json(
                argv,
                environment,
                repository_root,
                workspace_root,
                cwd,
                first as nat,
            ),
        ) == byte_len(
            relative_request_json(
                argv,
                environment,
                repository_root,
                workspace_root,
                cwd,
                second as nat,
            ),
        ),
{
    let h = relative_head(argv, repository_root, workspace_root, cwd);
    let t = relative_tail(environment);
    let a = json_text(decimal20(first as nat));
    let b = json_text(decimal20(second as nat));
    lemma_timeout_text(first as nat);
    lemma_timeout_text(second as nat);
    lemma_encode_utf8_concat(h, a);
    lemma_encode_utf8_concat(h + a, t);
    lemma_encode_utf8_concat(h, b);
    lemma_encode_utf8_concat(h + b, t);
}

/// Whether a command can be handed to the supervisor at all: its request,
/// built with the timeout less the reserve the supervisor keeps, is valid and
/// its envelope fits the budget.
pub fn request_is_transportable(
    argv: &[String],
    environment: &[(Vec<u8>, Vec<u8>)],
    repository_root: &[u8],
    workspace_root: &[u8],
    cwd: &[u8],
    timeout_ms: u64,
) -> (r: bool)
    ensures
        r == (raw_request_ok(argv@, environment@, repository_root@, workspace_root@, cwd@)
            && byte_len(
            relative_request_json(
                argv@,
                environment@,
                repository_root@,
                workspace_root@,
                cwd@,
                (if timeout_ms >= REQUEST_TIMEOUT_RESERVE_MS {
                    timeout_ms - REQUEST_TIMEOUT_RESERVE_MS
                } else {
                    0
                }) as nat,
            ),
        ) <= MAX_REQUEST_ENVELOPE_BYTES),
{
    let timeout_ms = timeout_ms.saturating_sub(REQUEST_TIMEOUT_RESERVE_MS);
    match build_request_with_relative_timeout(
        argv,
        environment,
        repository_root,
        workspace_root,
        cwd,
        timeout_ms,
    ) {
        Ok(request) => {
            proof {
                lemma_relative_request_json(
                    request,
                    argv@,
                    environment@,
                    repository_root@,
                    workspace_root@,
                    cwd@,
                    timeout_ms as nat,
                );
            }
            serialize_request(&request).is_ok()
        },
        Err(_) => false,
    }
}

// ---------------------------------------------------------------------------
// Deadlines and cleanup.

/// How long the supervisor may let a command run.
#[derive(Clone, Copy, Debug, PartialEq, Eq, Structural)]
pub enum DeadlineBudget {
    /// Nanoseconds left before an absolute monotonic deadline.
    RemainingNanos(u64),
    /// A legacy relative timeout in milliseconds.
    RelativeMillis(u64),
}

/// An absolute deadline, when present, decides alone: a malformed or past
/// one is refused rather than falling back to the relative timeout, which
/// must be a positive number of milliseconds.
pub open spec fn deadline_budget(r: SupervisorRequest, now_ns: Option<u64>) -> Option<
    DeadlineBudget,
> {
    match r.deadline_ns {
        Some(d) => match (parsed_u64(d@), now_ns) {
            (Some(deadline), Some(now)) => if deadline >= now {
                Some(DeadlineBudget::RemainingNanos((deadline - now) as u64))
            } else {
                None
            },
            _ => None,
        },
        None => match r.timeout_ms {
            Some(t) => match parsed_u64(t@) {
                Some(ms) => if ms > 0 {
                    Some(DeadlineBudget::RelativeMillis(ms))
                } else {
                    None
                },
                None => None,
            },
            None => None,
        },
    }
}

/// The run budget a request grants, given the monotonic clock's reading.
pub fn request_deadline(request: &SupervisorRequest, now_ns: Option<u64>) -> (r: Option<
    DeadlineBudget,
>)
    ensures
        r == deadline_budget(*request, now_ns),
{
    match &request.deadline_ns {
        Some(raw) => {
            let deadline = parse_u64(raw.as_str())?;
            let now = now_ns?;
            if deadline >= now {
                Some(DeadlineBudget::RemainingNanos(deadline - now))
            } else {
                None
            }
        },
        None => {
            let raw = match &request.timeout_ms {
                Some(t) => t,
                None => return None,
            };
            let ms = parse_u64(raw.as_str())?;
            if ms > 0 {
                Some(DeadlineBudget::RelativeMillis(ms))
            } else {
                None
            }
        },
    }
}

/// What the search for surviving descendants proved.
#[derive(Clone, Copy, Debug, PartialEq, Eq, Structural)]
pub enum Cleanup {
    Clean,
    Violation,
    Unproven,
}

/// After a quiet interval the search ends, as a violation when a descendant
/// was ever found; before it, an exhausted deadline leaves cleanup unproven.
pub fn cleanup_decision(found: bool, quiet_elapsed_ns: u64, deadline_remaining_ns: u64) -> (r:
    Option<Cleanup>)
    ensures
        r == (if quiet_elapsed_ns >= QUIESCENCE_NS {
            Some(
                if found {
                    Cleanup::Violation
                } else {
                    Cleanup::Clean
                },
            )
        } else if deadline_remaining_ns == 0 {
            Some(Cleanup::Unproven)
        } else {
            None
        }),
{
    if quiet_elapsed_ns >= QUIESCENCE_NS {
        return Some(
            if found {
                Cleanup::Violation
            } else {
                Cleanup::Clean
            },
        );
    }
    if deadline_remaining_ns == 0 {
        Some(Cleanup::Unproven)
    } else {
        None
    }
}


// ---------------------------------------------------------------------------
// The supervisor's verdict and its reader.

/// A supervisor reply is read only when no process outlived it and its
/// diagnostics fit the response limit.
pub fn supervisor_capture_is_bounded(captured: &runner::Captured, response_limit: usize) -> (r: bool)
    ensures
        r == (!captured.process_group_survived && captured.stderr@.len() <= response_limit),
{
    !captured.process_group_survived && captured.stderr.len() <= response_limit
}

/// The supervisor process itself exited cleanly with a reply that fits.
pub fn supervisor_reply_is_readable(captured: &runner::Captured) -> (r: bool)
    ensures
        r == (!captured.process_group_survived && captured.stderr@.len() <= MAX_RESPONSE_BYTES
            && captured.code == Some(0i32) && captured.stdout@.len() <= MAX_RESPONSE_BYTES),
{
    supervisor_capture_is_bounded(captured, MAX_RESPONSE_BYTES) && captured.code == Some(0i32)
        && captured.stdout.len() <= MAX_RESPONSE_BYTES
}

/// A reply carrying an outcome and a capture, with no truncation and no
/// working-directory identity.
pub fn response(outcome: SupervisorOutcome, code: Option<i32>, stdout: &[u8], stderr: &[u8]) -> (r:
    SupervisorResponse)
    ensures
        r.outcome == outcome,
        r.code == code,
        r.stdout_hex@ == hex_encode(stdout@),
        r.stderr_hex@ == hex_encode(stderr@),
        !r.stdout_truncated,
        !r.stderr_truncated,
        r.cwd_identity is None,
{
    SupervisorResponse {
        outcome,
        code,
        stdout_hex: encode_hex(stdout),
        stderr_hex: encode_hex(stderr),
        stdout_truncated: false,
        stderr_truncated: false,
        cwd_identity: None,
    }
}

/// The reply for a run whose containment could not be established.
pub fn unproven_response() -> (r: SupervisorResponse)
    ensures
        r.outcome == SupervisorOutcome::ContainmentUnproven,
        r.code is None,
        r.stdout_hex@.len() == 0,
        r.stderr_hex@.len() == 0,
        !r.stdout_truncated,
        !r.stderr_truncated,
        r.cwd_identity is None,
{
    let empty: Vec<u8> = Vec::new();
    response(SupervisorOutcome::ContainmentUnproven, None, empty.as_slice(), empty.as_slice())
}

/// The capture limit and run budget of a request the supervisor accepts.
pub fn supervision_plan(request: &SupervisorRequest, now_ns: Option<u64>) -> (r: Option<
    (usize, DeadlineBudget),
>)
    ensures
        r == (if request_ok(*request) && deadline_budget(*request, now_ns) is Some {
            Some((request.capture_limit as usize, deadline_budget(*request, now_ns)->0))
        } else {
            None
        }),
{
    if !request_is_valid(request) {
        return None;
    }
    let limit = valid_capture_limit(request.capture_limit)?;
    let budget = request_deadline(request, now_ns)?;
    Some((limit, budget))
}

/// The bytes read from one stream and whether the limit cut them short.
#[derive(Debug, Clone, PartialEq, Eq)]
pub struct StreamCapture {
    pub bytes: Vec<u8>,
    pub truncated: bool,
}

/// The verdict on a supervised run. A cutoff stays a failed run even when
/// cleanup then finds a descendant; a completed run needs clean cleanup, a
/// reaped child, an exit status and both streams; a working directory that
/// changed identity under the run leaves containment unproven.
pub open spec fn run_outcome(
    cleanup: Cleanup,
    finished: bool,
    direct_reaped: bool,
    captured_both: bool,
    identity_still_current: bool,
) -> SupervisorOutcome {
    if !identity_still_current {
        SupervisorOutcome::ContainmentUnproven
    } else {
        match cleanup {
            Cleanup::Violation => if !finished {
                SupervisorOutcome::CouldNotRun
            } else {
                SupervisorOutcome::ContainmentViolation
            },
            Cleanup::Clean => if direct_reaped && finished && captured_both {
                SupervisorOutcome::Completed
            } else if direct_reaped {
                SupervisorOutcome::CouldNotRun
            } else {
                SupervisorOutcome::ContainmentUnproven
            },
            Cleanup::Unproven => SupervisorOutcome::ContainmentUnproven,
        }
    }
}

pub open spec fn captured_bytes(c: Option<StreamCapture>) -> Seq<u8> {
    match c {
        Some(c) => c.bytes@,
        None => seq![],
    }
}

pub open spec fn captured_truncated(c: Option<StreamCapture>) -> bool {
    match c {
        Some(c) => c.truncated,
        None => false,
    }
}

/// The reply for a supervised run. `exit` is `None` when the command did not
/// finish before its deadline, else the exit code it reported, if any.
pub fn supervised_response(
    cleanup: Cleanup,
    exit: Option<Option<i32>>,
    direct_reaped: bool,
    stdout: Option<StreamCapture>,
    stderr: Option<StreamCapture>,
    identity_still_current: bool,
    cwd_identity: String,
) -> (r: SupervisorResponse)
    ensures
        r.outcome == run_outcome(
            cleanup,
            exit is Some,
            direct_reaped || exit is Some,
            stdout is Some && stderr is Some,
            identity_still_current,
        ),
        r.code == (if identity_still_current {
            match exit {
                Some(code) => code,
                None => None,
            }
        } else {
            None
        }),
        r.stdout_hex@ == hex_encode(captured_bytes(stdout)),
        r.stderr_hex@ == hex_encode(captured_bytes(stderr)),
        r.stdout_truncated == captured_truncated(stdout),
        r.stderr_truncated == captured_truncated(stderr),
        r.cwd_identity == Some(cwd_identity),
{
    let finished = exit.is_some();
    let reaped = direct_reaped || finished;
    let captured_both = stdout.is_some() && stderr.is_some();
    let outcome = if !identity_still_current {
        SupervisorOutcome::ContainmentUnproven
    } else {
        match cleanup {
            Cleanup::Violation => if !finished {
                SupervisorOutcome::CouldNotRun
            } else {
                SupervisorOutcome::ContainmentViolation
            },
            Cleanup::Clean => if reaped && finished && captured_both {
                SupervisorOutcome::Completed
            } else if reaped {
                SupervisorOutcome::CouldNotRun
            } else {
                SupervisorOutcome::ContainmentUnproven
            },
            Cleanup::Unproven => SupervisorOutcome::ContainmentUnproven,
        }
    };
    let code = if identity_still_current {
        match exit {
            Some(code) => code,
            None => None,
        }
    } else {
        None
    };
    let empty: Vec<u8> = Vec::new();
    let mut r = match (&stdout, &stderr) {
        (Some(o), Some(e)) => response(outcome, code, o.bytes.as_slice(), e.bytes.as_slice()),
        (Some(o), None) => response(outcome, code, o.bytes.as_slice(), empty.as_slice()),
        (None, Some(e)) => response(outcome, code, empty.as_slice(), e.bytes.as_slice()),
        (None, None) => response(outcome, code, empty.as_slice(), empty.as_slice()),
    };
    r.stdout_truncated = match &stdout {
        Some(c) => c.truncated,
        None => false,
    };
    r.stderr_truncated = match &stderr {
        Some(c) => c.truncated,
        None => false,
    };
    r.cwd_identity = Some(cwd_identity);
    r
}

/// What a parsed supervisor reply means for the caller: a completed run's
/// capture, or the containment error the outcome names. Undecodable or
/// truncated streams, or streams over the capture limit, are unproven.
pub open spec fn reply_result(response: SupervisorResponse, capture_limit: u64) -> Result<
    (Seq<u8>, Seq<u8>),
    ContainedRunError,
> {
    match (hex_decode(response.stdout_hex@), hex_decode(response.stderr_hex@)) {
        (Some(out), Some(err)) => if response.stdout_truncated || response.stderr_truncated
            || out.len() > capture_limit || err.len() > capture_limit {
            Err(ContainedRunError::ContainmentUnproven)
        } else {
            match response.outcome {
                SupervisorOutcome::Completed => Ok((out, err)),
                SupervisorOutcome::CouldNotRun => Err(ContainedRunError::CouldNotRun),
                SupervisorOutcome::ContainmentUnavailable => Err(
                    ContainedRunError::ContainmentUnavailable,
                ),
                SupervisorOutcome::ContainmentViolation => Err(
                    ContainedRunError::ContainmentViolation,
                ),
                SupervisorOutcome::ContainmentUnproven => Err(
                    ContainedRunError::ContainmentUnproven,
                ),
            }
        },
        _ => Err(ContainedRunError::ContainmentUnproven),
    }
}

/// Reads a parsed supervisor reply into the caller's capture.
pub fn interpret_response(response: &SupervisorResponse, capture_limit: u64) -> (r: Result<
    Captured,
    ContainedRunError,
>)
    ensures
        match (r, reply_result(*response, capture_limit)) {
            (Ok(c), Ok((out, err))) => c.stdout@ == out && c.stderr@ == err && c.code
                == response.code && c.cwd_identity == response.cwd_identity,
            (Err(e), Err(f)) => e == f,
            _ => false,
        },
{
    let stdout = match decode_hex(response.stdout_hex.as_str()) {
        Some(b) => b,
        None => return Err(ContainedRunError::ContainmentUnproven),
    };
    let stderr = match decode_hex(response.stderr_hex.as_str()) {
        Some(b) => b,
        None => return Err(ContainedRunError::ContainmentUnproven),
    };
    if response.stdout_truncated || response.stderr_truncated || stdout.len() as u64
        > capture_limit || stderr.len() as u64 > capture_limit {
        return Err(ContainedRunError::ContainmentUnproven);
    }
    match response.outcome {
        SupervisorOutcome::Completed => Ok(
            Captured {
                code: response.code,
                stdout,
                stderr,
                cwd_identity: response.cwd_identity.clone(),
            },
        ),
        SupervisorOutcome::CouldNotRun => Err(ContainedRunError::CouldNotRun),
        SupervisorOutcome::ContainmentUnavailable => Err(ContainedRunError::ContainmentUnavailable),
        SupervisorOutcome::ContainmentViolation => Err(ContainedRunError::ContainmentViolation),
        SupervisorOutcome::ContainmentUnproven => Err(ContainedRunError::ContainmentUnproven),
    }
}

} // verus!
