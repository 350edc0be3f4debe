//! Identifiers and clock readings, which come from outside the library.

use vstd::prelude::*;

verus! {

/// Whether `c` is a lower-case hexadecimal digit.
pub open spec fn is_lower_hex(c: char) -> bool {
    ('0' <= c && c <= '9') || ('a' <= c && c <= 'f')
}

/// Whether `s` has the shape of a hyphenated UUID: 36 characters, hyphens at
/// positions 8, 13, 18 and 23, lower-case hexadecimal digits elsewhere.
pub open spec fn is_hyphenated_uuid(s: Seq<char>) -> bool {
    &&& s.len() == 36
    &&& forall|i: int|
        0 <= i < 36 ==> if i == 8 || i == 13 || i == 18 || i == 23 {
            s[i] == '-'
        } else {
            is_lower_hex(#[trigger] s[i])
        }
}

/// The lower-case hexadecimal digit of `n`, for `0 <= n < 16`.
pub open spec fn spec_hex_digit(n: int) -> char {
    if n < 10 {
        crate::text::spec_digit(n as nat)
    } else if n == 10 {
        'a'
    } else if n == 11 {
        'b'
    } else if n == 12 {
        'c'
    } else if n == 13 {
        'd'
    } else if n == 14 {
        'e'
    } else {
        'f'
    }
}

/// Byte `i` of a version 4 UUID made from the random bytes `b`: byte 6 carries the
/// version (its high nibble becomes 4), byte 8 the RFC 4122 variant (its two high bits
/// become `10`), the others are the random bytes themselves.
pub open spec fn spec_v4_byte(b: Seq<u8>, i: int) -> int {
    if i == 6 {
        b[6] % 16 + 0x40
    } else if i == 8 {
        b[8] % 64 + 0x80
    } else {
        b[i] as int
    }
}

/// The 32 hexadecimal digits of the version 4 UUID made from `b`, high nibble first.
pub open spec fn spec_v4_hex(b: Seq<u8>) -> Seq<char> {
    Seq::new(
        32,
        |k: int|
            if k % 2 == 0 {
                spec_hex_digit(spec_v4_byte(b, k / 2) / 16)
            } else {
                spec_hex_digit(spec_v4_byte(b, k / 2) % 16)
            },
    )
}

/// The hyphenated text of the version 4 UUID made from the 16 random bytes `b`:
/// its digits in groups of 8, 4, 4, 4 and 12, joined by hyphens.
pub open spec fn spec_uuid_v4_text(b: Seq<u8>) -> Seq<char> {
    let h = spec_v4_hex(b);
    h.subrange(0, 8) + seq!['-'] + h.subrange(8, 12) + seq!['-'] + h.subrange(12, 16) + seq!['-'] + h.subrange(
        16,
        20,
    ) + seq!['-'] + h.subrange(20, 32)
}

/// Sixteen random bytes from `getrandom::fill`, or `None` when the system's random
/// source fails.
///
/// The bytes are random, so nothing is promised of them.
#[verifier::external_body]
fn random_bytes_16() -> (r: Option<[u8; 16]>) {
    let mut bytes = [0u8; 16];
    match getrandom::fill(&mut bytes) {
        Ok(()) => Some(bytes),
        Err(_) => None,
    }
}

/// The hyphenated text of the version 4 UUID that `uuid::Builder::from_random_bytes`
/// makes from `bytes`: it sets the version and variant bits, and `Display` for `Uuid`
/// writes the lower-case hyphenated encoding.
#[verifier::external_body]
fn uuid_v4_text(bytes: [u8; 16]) -> (s: String)
    ensures
        s@ == spec_uuid_v4_text(bytes@),
{
    uuid::Builder::from_random_bytes(bytes).into_uuid().to_string()
}

/// The hexadecimal digits are lower-case hexadecimal digits.
proof fn lemma_hex_digit(n: int)
    requires
        0 <= n < 16,
    ensures
        is_lower_hex(spec_hex_digit(n)),
{
}

/// The text of a version 4 UUID has the hyphenated shape.
pub proof fn lemma_uuid_v4_text_shape(b: Seq<u8>)
    requires
        b.len() == 16,
    ensures
        is_hyphenated_uuid(spec_uuid_v4_text(b)),
{
    let h = spec_v4_hex(b);
    let t = spec_uuid_v4_text(b);
    assert forall|k: int| 0 <= k < 32 implies is_lower_hex(#[trigger] h[k]) by {
        let v = spec_v4_byte(b, k / 2);
        assert(0 <= v < 256);
        lemma_hex_digit(v / 16);
        lemma_hex_digit(v % 16);
    }
    assert forall|i: int| 0 <= i < 36 implies (if i == 8 || i == 13 || i == 18 || i == 23 {
        t[i] == '-'
    } else {
        is_lower_hex(#[trigger] t[i])
    }) by {
        if i < 8 {
            assert(t[i] == h[i]);
        } else if i == 8 {
            assert(t[i] == '-');
        } else if i < 13 {
            assert(t[i] == h[i - 1]);
        } else if i == 13 {
            assert(t[i] == '-');
        } else if i < 18 {
            assert(t[i] == h[i - 2]);
        } else if i == 18 {
            assert(t[i] == '-');
        } else if i < 23 {
            assert(t[i] == h[i - 3]);
        } else if i == 23 {
            assert(t[i] == '-');
        } else {
            assert(t[i] == h[i - 4]);
        }
    }
}

/// A fresh random identifier: the hyphenated text of a version 4 UUID made from random
/// bytes, or `None` when the system's random source fails.
pub(crate) fn new_uuid_v4() -> (r: Option<String>)
    ensures
        r matches Some(id) ==> is_hyphenated_uuid(id@),
{
    match random_bytes_16() {
        Some(bytes) => {
            let id = uuid_v4_text(bytes);
            proof {
                lemma_uuid_v4_text_shape(bytes@);
            }
            Some(id)
        },
        None => None,
    }
}

#[verifier::external_type_specification]
#[verifier::external_body]
pub struct ExSystemTime(std::time::SystemTime);

/// A reading of the system clock from `std::time::SystemTime::now`.
///
/// The value depends on the clock, so nothing is promised of it.
#[verifier::external_body]
fn system_now() -> (t: std::time::SystemTime) {
    std::time::SystemTime::now()
}

/// Whole seconds and the nanoseconds past them from the Unix epoch to `t`, from
/// `std::time::SystemTime::duration_since`, or `None` when `t` lies before the epoch.
/// The nanoseconds of a `Duration` past its whole seconds are below one billion.
#[verifier::external_body]
fn since_unix_epoch(t: &std::time::SystemTime) -> (r: Option<(u64, u32)>)
    ensures
        r matches Some(d) ==> d.1 < 1_000_000_000,
{
    match t.duration_since(std::time::UNIX_EPOCH) {
        Ok(d) => Some((d.as_secs(), d.subsec_nanos())),
        Err(_) => None,
    }
}

/// Milliseconds since the Unix epoch of the UTC instant `secs` seconds and `nanos`
/// nanoseconds after it, from `chrono::DateTime::<Utc>::from_timestamp` and
/// `timestamp_millis`; `None` when chrono cannot represent that instant.
///
/// When chrono returns `None` (an instant outside the dates it represents) is left unsaid.
#[verifier::external_body]
fn utc_timestamp_millis(secs: i64, nanos: u32) -> (r: Option<i64>)
    requires
        nanos < 1_000_000_000,
    ensures
        r matches Some(ms) ==> ms == secs * 1000 + nanos / 1_000_000,
{
    match chrono::DateTime::<chrono::Utc>::from_timestamp(secs, nanos) {
        Some(t) => Some(t.timestamp_millis()),
        None => None,
    }
}

/// The current UTC time in milliseconds since the Unix epoch, or `None` when the system
/// clock reads before the epoch or beyond the dates chrono represents.
pub(crate) fn utc_now_millis() -> (r: Option<i64>)
    ensures
        r matches Some(ms) ==> ms >= 0,
{
    let t = system_now();
    match since_unix_epoch(&t) {
        Some((secs, nanos)) => {
            if secs > i64::MAX as u64 {
                return None;
            }
            utc_timestamp_millis(secs as i64, nanos)
        },
        None => None,
    }
}

#[verifier::external_type_specification]
#[verifier::external_body]
pub struct ExInstant(tokio::time::Instant);

/// A reading of the monotonic clock from `tokio::time::Instant::now`.
///
/// The value depends on the clock, so nothing is promised of it.
#[verifier::external_body]
pub(crate) fn instant_now() -> (t: tokio::time::Instant) {
    tokio::time::Instant::now()
}

/// Nanoseconds elapsed since `start`, from `tokio::time::Instant::elapsed`.
///
/// The value depends on the clock, so nothing is promised of it.
#[verifier::external_body]
pub(crate) fn elapsed_nanos(start: &tokio::time::Instant) -> (n: u128) {
    start.elapsed().as_nanos()
}

} // verus!
