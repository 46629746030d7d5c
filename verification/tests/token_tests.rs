use keyboard_usage_tracker::token::{
    byte_order_of, current_stats_tokens, native_byte_order, ByteOrder, derive_token, hex16, restart_tokens_at,
    stats_tokens_at, stop_tokens_at, token_pair, validate_stats_token, validate_stats_token_at,
    validate_token, RESTART_TOKEN_CYCLE_SECS, STATS_TOKEN_CYCLE_SECS,
};
use std::collections::hash_map::DefaultHasher;
use std::hash::{Hash, Hasher};

fn ord() -> ByteOrder {
    native_byte_order()
}

fn reference_token(fingerprint: &str, purpose: &str, bucket: u64) -> String {
    let mut h1 = DefaultHasher::new();
    fingerprint.hash(&mut h1);
    purpose.hash(&mut h1);
    bucket.hash(&mut h1);
    0xA1B2C3D4u64.hash(&mut h1);
    let a = h1.finish();
    let mut h2 = DefaultHasher::new();
    a.hash(&mut h2);
    fingerprint.hash(&mut h2);
    purpose.hash(&mut h2);
    0xE5F60718u64.hash(&mut h2);
    let b = h2.finish();
    format!("{a:016x}{b:016x}")
}

#[test]
fn hex16_pads_and_uses_lower_case() {
    assert_eq!(hex16(0), "0000000000000000");
    assert_eq!(hex16(0xdead_beef), "00000000deadbeef");
    assert_eq!(hex16(u64::MAX), "ffffffffffffffff");
    assert_eq!(hex16(0x0123_4567_89ab_cdef), "0123456789abcdef");
}

#[test]
fn derive_token_hashes_like_the_std_hash_impls() {
    for (fp, purpose, bucket) in [
        ("host|machine", "stats", 1_900_000u64),
        ("", "restart", 0),
        ("ünïcode|ид", "stop", u64::MAX),
    ] {
        assert_eq!(derive_token(fp, purpose, bucket, ord()), reference_token(fp, purpose, bucket));
    }
}

#[test]
fn token_is_32_hex_chars_and_deterministic() {
    let t = derive_token("fp", "stats", 42, ord());
    assert_eq!(t.len(), 32);
    assert!(t.chars().all(|c| c.is_ascii_hexdigit() && !c.is_ascii_uppercase()));
    assert_eq!(t, derive_token("fp", "stats", 42, ord()));
    assert_ne!(t, derive_token("fp", "stats", 43, ord()));
    assert_ne!(t, derive_token("fp", "restart", 42, ord()));
    assert_ne!(t, derive_token("other", "stats", 42, ord()));
}

#[test]
fn token_pair_previous_wraps_at_window_zero() {
    let (cur, prev) = token_pair("fp", "stats", 0, ord());
    assert_eq!(cur, derive_token("fp", "stats", 0, ord()));
    assert_eq!(prev, derive_token("fp", "stats", u64::MAX, ord()));
    let (cur, prev) = token_pair("fp", "stats", 10, ord());
    assert_eq!(cur, derive_token("fp", "stats", 10, ord()));
    assert_eq!(prev, derive_token("fp", "stats", 9, ord()));
}

#[test]
fn tokens_at_use_their_windows() {
    let now = 1_700_000_123u64;
    assert_eq!(stats_tokens_at("fp", now, ord()), token_pair("fp", "stats", now / 900, ord()));
    assert_eq!(restart_tokens_at("fp", now, ord()), token_pair("fp", "restart", now / 3600, ord()));
    assert_eq!(stop_tokens_at("fp", now, ord()), token_pair("fp", "stop", now / 3600, ord()));
    assert_eq!(STATS_TOKEN_CYCLE_SECS, 900);
    assert_eq!(RESTART_TOKEN_CYCLE_SECS, 3600);
}

#[test]
fn validate_token_accepts_current_or_previous_only() {
    assert!(validate_token("a", "a", "b"));
    assert!(validate_token("b", "a", "b"));
    assert!(!validate_token("c", "a", "b"));
    assert!(!validate_token("", "a", "b"));
    assert!(validate_token("", "", "b"));
}

#[test]
fn issued_token_is_accepted_through_the_next_window() {
    let fp = "host|id";
    let issued = 900 * 5000 + 17;
    let (tok, _) = stats_tokens_at(fp, issued, ord());
    assert!(validate_stats_token_at(&tok, fp, issued, ord()));
    assert!(validate_stats_token_at(&tok, fp, 900 * 5000 + 899, ord()));
    assert!(validate_stats_token_at(&tok, fp, 900 * 5001, ord()));
    assert!(validate_stats_token_at(&tok, fp, 900 * 5001 + 899, ord()));
    assert!(!validate_stats_token_at(&tok, fp, 900 * 5002, ord()));
    assert!(!validate_stats_token_at(&tok, "other", issued, ord()));
    let (restart, _) = restart_tokens_at(fp, issued, ord());
    assert!(!validate_stats_token_at(&restart, fp, issued, ord()));
    assert!(!validate_stats_token_at("", fp, issued, ord()));
}

fn epoch_secs() -> u64 {
    std::time::SystemTime::now().duration_since(std::time::UNIX_EPOCH).unwrap().as_secs()
}

#[test]
fn current_tokens_follow_the_clock() {
    let before = epoch_secs();
    let (cur, prev) = current_stats_tokens("fp");
    let after = epoch_secs();
    assert!(before > 1_600_000_000);
    let candidates = [stats_tokens_at("fp", before, ord()), stats_tokens_at("fp", after, ord())];
    assert!(candidates.contains(&(cur.clone(), prev)));
    assert!(validate_stats_token(&cur, "fp"));
    assert!(!validate_stats_token("not a token", "fp"));
}

fn written_token(fingerprint: &str, purpose: &str, bucket: u64, bytes: fn(u64) -> [u8; 8]) -> String {
    let str_bytes = |h: &mut DefaultHasher, s: &str| {
        h.write(s.as_bytes());
        h.write(&[0xff]);
    };
    let mut h1 = DefaultHasher::new();
    str_bytes(&mut h1, fingerprint);
    str_bytes(&mut h1, purpose);
    h1.write(&bytes(bucket));
    h1.write(&bytes(0xA1B2C3D4));
    let a = h1.finish();
    let mut h2 = DefaultHasher::new();
    h2.write(&bytes(a));
    str_bytes(&mut h2, fingerprint);
    str_bytes(&mut h2, purpose);
    h2.write(&bytes(0xE5F60718));
    let b = h2.finish();
    format!("{a:016x}{b:016x}")
}

#[test]
fn native_byte_order_is_the_machines() {
    let little = 1u64.to_ne_bytes()[0] == 1;
    assert_eq!(native_byte_order(), if little { ByteOrder::Little } else { ByteOrder::Big });
}

#[test]
fn tokens_hash_integers_in_the_given_byte_order() {
    for (fp, purpose, bucket) in [("host|machine", "stats", 1_900_000u64), ("", "stop", 7)] {
        assert_eq!(
            derive_token(fp, purpose, bucket, ByteOrder::Little),
            written_token(fp, purpose, bucket, u64::to_le_bytes)
        );
        assert_eq!(
            derive_token(fp, purpose, bucket, ByteOrder::Big),
            written_token(fp, purpose, bucket, u64::to_be_bytes)
        );
        assert_ne!(
            derive_token(fp, purpose, bucket, ByteOrder::Little),
            derive_token(fp, purpose, bucket, ByteOrder::Big)
        );
    }
}

#[test]
fn byte_order_of_reads_the_bytes_of_one() {
    assert_eq!(byte_order_of(1u64.to_le_bytes()), ByteOrder::Little);
    assert_eq!(byte_order_of(1u64.to_be_bytes()), ByteOrder::Big);
    assert_eq!(native_byte_order(), byte_order_of(1u64.to_ne_bytes()));
}
