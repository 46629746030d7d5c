//! The rotating access tokens of the dashboard. A token is derived from
//! the machine's fingerprint, a purpose ("stats", "restart", "stop") and
//! the number of the time window it was issued in; a token is accepted
//! in its own window and in the one after it.

use std::collections::hash_map::DefaultHasher;
use std::hash::Hasher;
use vstd::bytes::{spec_u64_to_le_bytes, u64_to_le_bytes};
use vstd::prelude::*;
use vstd::std_specs::hash::DefaultHasherAdditionalSpecFns;
use vstd::utf8::encode_utf8;

verus! {

/// Length in seconds of the window of a statistics token.
pub const STATS_TOKEN_CYCLE_SECS: u64 = 900;

/// Length in seconds of the window of a restart or stop token.
pub const RESTART_TOKEN_CYCLE_SECS: u64 = 3600;

/// Salt that ends the input of the first hash of a token.
pub const FIRST_HASH_SALT: u64 = 0xA1B2C3D4;

/// Salt that ends the input of the second hash of a token.
pub const SECOND_HASH_SALT: u64 = 0xE5F60718;

/// What hashing a string feeds to the hasher: its UTF-8 bytes, then the
/// byte 0xFF that ends it.
pub open spec fn str_writes(s: Seq<char>) -> Seq<Seq<u8>> {
    seq![encode_utf8(s), seq![0xffu8]]
}

/// The order in which a machine lays out the bytes of an integer.
#[derive(Debug, Clone, Copy, PartialEq, Eq, Structural)]
pub enum ByteOrder {
    /// Least significant byte first.
    Little,
    /// Most significant byte first.
    Big,
}

/// The eight bytes of `v` in byte order `order`.
pub open spec fn u64_bytes(v: u64, order: ByteOrder) -> Seq<u8> {
    match order {
        ByteOrder::Little => spec_u64_to_le_bytes(v),
        ByteOrder::Big => spec_u64_to_le_bytes(v).reverse(),
    }
}

/// What hashing a `u64` feeds to the hasher: its eight bytes in the
/// machine's byte order `order`.
pub open spec fn u64_writes(v: u64, order: ByteOrder) -> Seq<Seq<u8>> {
    seq![u64_bytes(v, order)]
}

/// The first half of a token: the hash of fingerprint, purpose, window
/// number and the first salt.
pub open spec fn token_first_hash(
    fingerprint: Seq<char>,
    purpose: Seq<char>,
    bucket: u64,
    order: ByteOrder,
) -> u64 {
    DefaultHasher::spec_finish(
        str_writes(fingerprint) + str_writes(purpose) + u64_writes(bucket, order) + u64_writes(
            FIRST_HASH_SALT,
            order,
        ),
    )
}

/// The second half of a token: the hash of the first half, fingerprint,
/// purpose and the second salt.
pub open spec fn token_second_hash(
    first: u64,
    fingerprint: Seq<char>,
    purpose: Seq<char>,
    order: ByteOrder,
) -> u64 {
    DefaultHasher::spec_finish(
        u64_writes(first, order) + str_writes(fingerprint) + str_writes(purpose) + u64_writes(
            SECOND_HASH_SALT,
            order,
        ),
    )
}

/// The lower-case hexadecimal digit of a value below 16.
pub open spec fn hex_char(d: nat) -> char {
    if d < 10 {
        ((d + 48) as u8) as char
    } else {
        ((d + 87) as u8) as char
    }
}

/// The `n` lowest hexadecimal digits of `x`, most significant first,
/// padded with zeros: for `n == 16` and a `u64`, the text of `{x:016x}`.
pub open spec fn hex_digits(x: nat, n: nat) -> Seq<char>
    decreases n,
{
    if n == 0 {
        Seq::empty()
    } else {
        hex_digits(x / 16, (n - 1) as nat).push(hex_char(x % 16))
    }
}

/// The text of a token: both hashes as 16 hexadecimal digits each.
pub open spec fn token_text(
    fingerprint: Seq<char>,
    purpose: Seq<char>,
    bucket: u64,
    order: ByteOrder,
) -> Seq<char> {
    let a = token_first_hash(fingerprint, purpose, bucket, order);
    let b = token_second_hash(a, fingerprint, purpose, order);
    hex_digits(a as nat, 16) + hex_digits(b as nat, 16)
}

/// The window before `bucket`; before window 0 comes the last one.
pub open spec fn previous_bucket(bucket: u64) -> u64 {
    if bucket == 0 {
        u64::MAX
    } else {
        (bucket - 1) as u64
    }
}

/// The current and the previous token of a purpose in window `bucket`.
pub open spec fn token_pair_view(
    fingerprint: Seq<char>,
    purpose: Seq<char>,
    bucket: u64,
    order: ByteOrder,
) -> (Seq<char>, Seq<char>) {
    (
        token_text(fingerprint, purpose, bucket, order),
        token_text(fingerprint, purpose, previous_bucket(bucket), order),
    )
}

/// The tokens of a purpose at `now` seconds, with windows of `cycle` seconds.
pub open spec fn tokens_at_view(
    fingerprint: Seq<char>,
    purpose: Seq<char>,
    cycle: u64,
    now: u64,
    order: ByteOrder,
) -> (Seq<char>, Seq<char>) {
    token_pair_view(fingerprint, purpose, now / cycle, order)
}

/// Whether `submitted` is one of the two tokens of a purpose at `now`.
pub open spec fn token_accepted(
    submitted: Seq<char>,
    fingerprint: Seq<char>,
    purpose: Seq<char>,
    cycle: u64,
    now: u64,
    order: ByteOrder,
) -> bool {
    let (cur, prev) = tokens_at_view(fingerprint, purpose, cycle, now, order);
    submitted == cur || submitted == prev
}

pub open spec fn stats_purpose() -> Seq<char> {
    seq!['s', 't', 'a', 't', 's']
}

pub open spec fn restart_purpose() -> Seq<char> {
    seq!['r', 'e', 's', 't', 'a', 'r', 't']
}

pub open spec fn stop_purpose() -> Seq<char> {
    seq!['s', 't', 'o', 'p']
}

pub(crate) fn hex_char_str(d: u64) -> (s: &'static str)
    requires
        d < 16,
    ensures
        s@ == seq![hex_char(d as nat)],
{
    proof {
        reveal_strlit("0");
        reveal_strlit("1");
        reveal_strlit("2");
        reveal_strlit("3");
        reveal_strlit("4");
        reveal_strlit("5");
        reveal_strlit("6");
        reveal_strlit("7");
        reveal_strlit("8");
        reveal_strlit("9");
        reveal_strlit("a");
        reveal_strlit("b");
        reveal_strlit("c");
        reveal_strlit("d");
        reveal_strlit("e");
        reveal_strlit("f");
    }
    match d {
        0 => "0",
        1 => "1",
        2 => "2",
        3 => "3",
        4 => "4",
        5 => "5",
        6 => "6",
        7 => "7",
        8 => "8",
        9 => "9",
        10 => "a",
        11 => "b",
        12 => "c",
        13 => "d",
        14 => "e",
        _ => "f",
    }
}

/// Appends the `n` lowest hexadecimal digits of `x` to `out`.
pub(crate) fn append_hex(out: &mut String, x: u64, n: usize)
    ensures
        final(out)@ == old(out)@ + hex_digits(x as nat, n as nat),
    decreases n,
{
    if n > 0 {
        append_hex(out, x / 16, n - 1);
        out.append(hex_char_str(x % 16));
        assert(final(out)@ =~= old(out)@ + hex_digits(x as nat, n as nat));
    }
}

/// `x` as 16 lower-case hexadecimal digits, zero padded.
pub fn hex16(x: u64) -> (s: String)
    ensures
        s@ == hex_digits(x as nat, 16),
{
    let mut s = String::new();
    append_hex(&mut s, x, 16);
    assert(s@ =~= hex_digits(x as nat, 16));
    s
}

fn hash_str(h: &mut DefaultHasher, s: &str)
    ensures
        final(h)@ == old(h)@ + str_writes(s@),
{
    h.write(s.as_bytes());
    let end: Vec<u8> = vec![0xffu8];
    assert(end@ =~= seq![0xffu8]);
    h.write(end.as_slice());
    assert(final(h)@ =~= old(h)@ + str_writes(s@));
}

/// Calls `u64::to_ne_bytes`: the eight bytes of `v` in the machine's
/// byte order, which is least or most significant byte first.
#[verifier::external_body]
fn native_bytes(v: u64) -> (r: [u8; 8])
    ensures
        r@ == u64_bytes(v, ByteOrder::Little) || r@ == u64_bytes(v, ByteOrder::Big),
{
    v.to_ne_bytes()
}

/// The byte order in which `b` holds the number 1: `Little` when its
/// first byte is 1, else `Big`.
pub fn byte_order_of(b: [u8; 8]) -> (o: ByteOrder)
    ensures
        o == (if b@[0] == 1 { ByteOrder::Little } else { ByteOrder::Big }),
        b@ == u64_bytes(1, ByteOrder::Little) ==> o == ByteOrder::Little,
        b@ == u64_bytes(1, ByteOrder::Big) ==> o == ByteOrder::Big,
{
    proof {
        lemma_one_bytes();
    }
    if b[0] == 1 {
        ByteOrder::Little
    } else {
        ByteOrder::Big
    }
}

proof fn lemma_one_bytes()
    ensures
        u64_bytes(1, ByteOrder::Little)[0] == 1,
        u64_bytes(1, ByteOrder::Big)[0] == 0,
        u64_bytes(1, ByteOrder::Big).len() == 8,
{
    vstd::bytes::spec_u64_to_le_bytes_to_open(1);
    assert((1u64 & 0xff) == 1) by (bit_vector);
    assert(((1u64 >> 56u64) & 0xff) == 0) by (bit_vector);
}

/// The byte order of this machine: that in which it lays out the
/// number 1.
pub fn native_byte_order() -> (o: ByteOrder)
    ensures
        o == ByteOrder::Little || o == ByteOrder::Big,
{
    byte_order_of(native_bytes(1))
}

/// The eight bytes of `v` in byte order `order`.
fn bytes_in_order(v: u64, order: ByteOrder) -> (r: Vec<u8>)
    ensures
        r@ == u64_bytes(v, order),
{
    let le = u64_to_le_bytes(v);
    match order {
        ByteOrder::Little => le,
        ByteOrder::Big => {
            let mut r: Vec<u8> = Vec::new();
            let mut i: usize = le.len();
            while i > 0
                invariant
                    i <= le@.len(),
                    r@ == le@.subrange(i as int, le@.len() as int).reverse(),
                decreases i,
            {
                i = i - 1;
                r.push(le[i]);
                assert(r@ =~= le@.subrange(i as int, le@.len() as int).reverse());
            }
            assert(le@.subrange(0, le@.len() as int) =~= le@);
            r
        },
    }
}

fn hash_u64(h: &mut DefaultHasher, v: u64, order: ByteOrder)
    ensures
        final(h)@ == old(h)@ + u64_writes(v, order),
{
    let bytes = bytes_in_order(v, order);
    h.write(bytes.as_slice());
    assert(final(h)@ =~= old(h)@ + u64_writes(v, order));
}

/// The token of `purpose` for window `bucket` on the machine with
/// `fingerprint`, whose byte order is `order`.
pub fn derive_token(fingerprint: &str, purpose: &str, bucket: u64, order: ByteOrder) -> (t: String)
    ensures
        t@ == token_text(fingerprint@, purpose@, bucket, order),
{
    let mut h1 = DefaultHasher::new();
    hash_str(&mut h1, fingerprint);
    hash_str(&mut h1, purpose);
    hash_u64(&mut h1, bucket, order);
    hash_u64(&mut h1, FIRST_HASH_SALT, order);
    assert(h1@ =~= str_writes(fingerprint@) + str_writes(purpose@) + u64_writes(bucket, order)
        + u64_writes(FIRST_HASH_SALT, order));
    let a = h1.finish();

    let mut h2 = DefaultHasher::new();
    hash_u64(&mut h2, a, order);
    hash_str(&mut h2, fingerprint);
    hash_str(&mut h2, purpose);
    hash_u64(&mut h2, SECOND_HASH_SALT, order);
    assert(h2@ =~= u64_writes(a, order) + str_writes(fingerprint@) + str_writes(purpose@)
        + u64_writes(SECOND_HASH_SALT, order));
    let b = h2.finish();

    let mut t = hex16(a);
    let second = hex16(b);
    t.append(second.as_str());
    t
}

/// The current and the previous token of `purpose` in window `bucket`.
pub fn token_pair(fingerprint: &str, purpose: &str, bucket: u64, order: ByteOrder) -> (r: (
    String,
    String,
))
    ensures
        (r.0@, r.1@) == token_pair_view(fingerprint@, purpose@, bucket, order),
{
    let cur = derive_token(fingerprint, purpose, bucket, order);
    let prev = derive_token(fingerprint, purpose, bucket.wrapping_sub(1), order);
    (cur, prev)
}

/// The statistics tokens at `now` seconds since the epoch.
pub fn stats_tokens_at(fingerprint: &str, now: u64, order: ByteOrder) -> (r: (String, String))
    ensures
        (r.0@, r.1@) == tokens_at_view(
            fingerprint@,
            stats_purpose(),
            STATS_TOKEN_CYCLE_SECS,
            now,
            order,
        ),
{
    proof {
        reveal_strlit("stats");
        assert("stats"@ =~= stats_purpose());
    }
    token_pair(fingerprint, "stats", now / STATS_TOKEN_CYCLE_SECS, order)
}

/// The restart tokens at `now` seconds since the epoch.
pub fn restart_tokens_at(fingerprint: &str, now: u64, order: ByteOrder) -> (r: (String, String))
    ensures
        (r.0@, r.1@) == tokens_at_view(
            fingerprint@,
            restart_purpose(),
            RESTART_TOKEN_CYCLE_SECS,
            now,
            order,
        ),
{
    proof {
        reveal_strlit("restart");
        assert("restart"@ =~= restart_purpose());
    }
    token_pair(fingerprint, "restart", now / RESTART_TOKEN_CYCLE_SECS, order)
}

/// The stop tokens at `now` seconds since the epoch; they rotate with
/// the restart tokens.
pub fn stop_tokens_at(fingerprint: &str, now: u64, order: ByteOrder) -> (r: (String, String))
    ensures
        (r.0@, r.1@) == tokens_at_view(
            fingerprint@,
            stop_purpose(),
            RESTART_TOKEN_CYCLE_SECS,
            now,
            order,
        ),
{
    proof {
        reveal_strlit("stop");
        assert("stop"@ =~= stop_purpose());
    }
    token_pair(fingerprint, "stop", now / RESTART_TOKEN_CYCLE_SECS, order)
}

#[verifier::external_type_specification]
#[verifier::external_body]
pub struct ExSystemTime(std::time::SystemTime);

#[verifier::external_type_specification]
#[verifier::external_body]
pub struct ExSystemTimeError(std::time::SystemTimeError);

/// Calls `std::time::SystemTime::now`: the system clock at the call.
/// Nothing is stated of it.
#[verifier::external_body]
fn system_now() -> std::time::SystemTime {
    std::time::SystemTime::now()
}

/// Calls `std::time::SystemTime::duration_since` with the Unix epoch:
/// the time since the epoch, or an error for a clock set before it.
/// Nothing is stated of which comes back.
#[verifier::external_body]
fn since_unix_epoch(t: &std::time::SystemTime) -> std::result::Result<
    std::time::Duration,
    std::time::SystemTimeError,
> {
    t.duration_since(std::time::UNIX_EPOCH)
}

/// Calls `std::time::Duration::as_secs`: the whole seconds of `d`.
/// Nothing is stated of them, `Duration` being opaque here.
#[verifier::external_body]
fn whole_secs(d: &std::time::Duration) -> u64 {
    d.as_secs()
}

/// Seconds since the Unix epoch on the system clock, 0 for a clock set
/// before the epoch.
pub(crate) fn current_epoch_secs() -> u64 {
    match since_unix_epoch(&system_now()) {
        Ok(d) => whole_secs(&d),
        Err(_) => 0,
    }
}

/// The statistics tokens now, on this machine.
pub fn current_stats_tokens(fingerprint: &str) -> (r: (String, String))
    ensures
        exists|now: u64, order: ByteOrder|
            (r.0@, r.1@) == #[trigger] tokens_at_view(
                fingerprint@,
                stats_purpose(),
                STATS_TOKEN_CYCLE_SECS,
                now,
                order,
            ),
{
    let now = current_epoch_secs();
    stats_tokens_at(fingerprint, now, native_byte_order())
}

/// The restart tokens now, on this machine.
pub fn current_restart_tokens(fingerprint: &str) -> (r: (String, String))
    ensures
        exists|now: u64, order: ByteOrder|
            (r.0@, r.1@) == #[trigger] tokens_at_view(
                fingerprint@,
                restart_purpose(),
                RESTART_TOKEN_CYCLE_SECS,
                now,
                order,
            ),
{
    let now = current_epoch_secs();
    restart_tokens_at(fingerprint, now, native_byte_order())
}

/// The stop tokens now, on this machine.
pub fn current_stop_tokens(fingerprint: &str) -> (r: (String, String))
    ensures
        exists|now: u64, order: ByteOrder|
            (r.0@, r.1@) == #[trigger] tokens_at_view(
                fingerprint@,
                stop_purpose(),
                RESTART_TOKEN_CYCLE_SECS,
                now,
                order,
            ),
{
    let now = current_epoch_secs();
    stop_tokens_at(fingerprint, now, native_byte_order())
}

/// Whether `submitted` is the current or the previous token.
pub fn validate_token(submitted: &str, current: &str, previous: &str) -> (r: bool)
    ensures
        r == (submitted@ == current@ || submitted@ == previous@),
{
    let s = submitted.to_owned();
    let c = current.to_owned();
    let p = previous.to_owned();
    s == c || s == p
}

/// Whether `submitted` is a statistics token of the machine with
/// `fingerprint` and byte order `order` at `now` seconds since the epoch.
pub fn validate_stats_token_at(submitted: &str, fingerprint: &str, now: u64, order: ByteOrder) -> (r:
    bool)
    ensures
        r == token_accepted(
            submitted@,
            fingerprint@,
            stats_purpose(),
            STATS_TOKEN_CYCLE_SECS,
            now,
            order,
        ),
{
    let (cur, prev) = stats_tokens_at(fingerprint, now, order);
    validate_token(submitted, cur.as_str(), prev.as_str())
}

/// Whether `submitted` is a statistics token of the machine with
/// `fingerprint` now.
pub fn validate_stats_token(submitted: &str, fingerprint: &str) -> (r: bool)
    ensures
        exists|now: u64, order: ByteOrder|
            r == #[trigger] token_accepted(
                submitted@,
                fingerprint@,
                stats_purpose(),
                STATS_TOKEN_CYCLE_SECS,
                now,
                order,
            ),
{
    let now = current_epoch_secs();
    validate_stats_token_at(submitted, fingerprint, now, native_byte_order())
}

/// A token is accepted for as long as the window it was issued in lasts,
/// and during the whole window after it: issued at `issued`, the token
/// is accepted at any `later` whose window is the same or the next one.
pub proof fn lemma_token_accepted_until_next_window(
    fingerprint: Seq<char>,
    purpose: Seq<char>,
    cycle: u64,
    issued: u64,
    later: u64,
    order: ByteOrder,
)
    requires
        cycle > 0,
        later / cycle == issued / cycle || later / cycle == issued / cycle + 1,
    ensures
        token_accepted(
            tokens_at_view(fingerprint, purpose, cycle, issued, order).0,
            fingerprint,
            purpose,
            cycle,
            later,
            order,
        ),
{
}

/// The previous token of a window is the current token of the window
/// before it.
pub proof fn lemma_previous_token_was_current(
    fingerprint: Seq<char>,
    purpose: Seq<char>,
    bucket: u64,
    order: ByteOrder,
)
    ensures
        token_pair_view(fingerprint, purpose, bucket, order).1 == token_pair_view(
            fingerprint,
            purpose,
            previous_bucket(bucket),
            order,
        ).0,
{
}

/// Every token is 32 characters long.
pub proof fn lemma_token_length(
    fingerprint: Seq<char>,
    purpose: Seq<char>,
    bucket: u64,
    order: ByteOrder,
)
    ensures
        token_text(fingerprint, purpose, bucket, order).len() == 32,
{
    let a = token_first_hash(fingerprint, purpose, bucket, order);
    lemma_hex_digits_len(a as nat, 16);
    lemma_hex_digits_len(token_second_hash(a, fingerprint, purpose, order) as nat, 16);
}

proof fn lemma_hex_digits_len(x: nat, n: nat)
    ensures
        hex_digits(x, n).len() == n,
    decreases n,
{
    if n > 0 {
        lemma_hex_digits_len(x / 16, (n - 1) as nat);
    }
}

} // verus!
