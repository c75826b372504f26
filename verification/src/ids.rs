//! Identifiers and clock readings: the calls into `uuid` and `chrono`.

use vstd::prelude::*;

verus! {

/// A point in time (UTC): whole seconds since the Unix epoch and the
/// nanoseconds within that second.
#[derive(Clone, Copy, PartialEq, Eq, Debug, Structural)]
pub struct Timestamp {
    pub secs: i64,
    pub nanos: u32,
}

impl DeepView for Timestamp {
    type V = Timestamp;

    open spec fn deep_view(&self) -> Timestamp {
        *self
    }
}

/// The namespace (`6ba7b810-9dad-11d1-80b4-00c04fd430c8`) from which agent
/// ids are derived.
pub const AGENT_NAMESPACE: u128 = 0x6ba7b8109dad11d180b400c04fd430c8u128;

/// `uuid::Uuid::NAMESPACE_URL` (`6ba7b811-9dad-11d1-80b4-00c04fd430c8`).
pub const URL_NAMESPACE: u128 = 0x6ba7b8119dad11d180b400c04fd430c8u128;

/// The name-based (SHA-1, version 5) UUID of `name` in `namespace`, as
/// `uuid::Uuid::new_v5` computes it.
pub uninterp spec fn uuid_v5(namespace: u128, name: Seq<u8>) -> u128;

/// The UUID that `uuid::Uuid`'s `FromStr` reads from a text, if it reads one.
pub uninterp spec fn uuid_parse(text: Seq<char>) -> Option<u128>;

/// The lower-case hex digit of a nibble `n` (`0 <= n < 16`).
pub open spec fn hex_digit_lower(n: int) -> char {
    if n < 10 {
        (48 + n) as char
    } else {
        (87 + n) as char
    }
}

/// Which of the 32 hex digits of a UUID stands at position `i` of its
/// hyphenated text (hyphens at 8, 13, 18 and 23).
pub open spec fn uuid_digit_index(i: int) -> int {
    if i < 8 {
        i
    } else if i < 13 {
        i - 1
    } else if i < 18 {
        i - 2
    } else if i < 23 {
        i - 3
    } else {
        i - 4
    }
}

/// The `k`-th hex digit of `id`, most significant first.
pub open spec fn uuid_nibble(id: u128, k: int) -> int {
    ((id >> ((124 - 4 * k) as u128)) & 0xfu128) as int
}

/// The text that `uuid::Uuid`'s `Display` writes: the hyphenated form, 36
/// characters, the 32 lower-case hex digits of the big-endian value in
/// groups of 8-4-4-4-12.
pub open spec fn uuid_text(id: u128) -> Seq<char> {
    Seq::new(
        36,
        |i: int|
            if i == 8 || i == 13 || i == 18 || i == 23 {
                '-'
            } else {
                hex_digit_lower(uuid_nibble(id, uuid_digit_index(i)))
            },
    )
}

/// Calls `uuid::Uuid::new_v5` on the namespace and name given; the UUIDs
/// travel as their 128-bit big-endian values (`from_u128` / `as_u128`). The
/// result is named; of its bits the contract states the version (5, the high
/// nibble of byte 6) and the RFC 4122 variant (`10`, the top bits of byte 8)
/// that `Builder::from_sha1_bytes` sets.
#[verifier::external_body]
pub(crate) fn new_uuid_v5(namespace: u128, name: &[u8]) -> (r: u128)
    ensures
        r == uuid_v5(namespace, name@),
        (r >> 76u128) & 0xfu128 == 5,
        (r >> 62u128) & 3u128 == 2,
{
    uuid::Uuid::new_v5(&uuid::Uuid::from_u128(namespace), name).as_u128()
}

/// Calls `str::parse::<uuid::Uuid>`; `None` where the text is no UUID.
#[verifier::external_body]
pub(crate) fn parse_uuid(text: &str) -> (r: Option<u128>)
    ensures
        r == uuid_parse(text@),
{
    match text.parse::<uuid::Uuid>() {
        Ok(u) => Some(u.as_u128()),
        Err(_) => None,
    }
}

/// Calls `uuid::Uuid`'s `to_string` (its `Display`, which writes the
/// `Hyphenated` lower-case form). The text is `uuid_text(id)`, which
/// `uuid::Uuid`'s `FromStr` reads back as the same id.
#[verifier::external_body]
pub(crate) fn uuid_string(id: u128) -> (r: String)
    ensures
        r@ == uuid_text(id),
        uuid_parse(r@) == Some(id),
{
    uuid::Uuid::from_u128(id).to_string()
}

/// Calls `uuid::Uuid::new_v4`: a random UUID. Nothing is stated of the value.
#[verifier::external_body]
pub(crate) fn new_uuid_v4() -> u128 {
    uuid::Uuid::new_v4().as_u128()
}

/// Calls `chrono::Utc::now`: the current time. Nothing is stated of the value.
#[verifier::external_body]
pub(crate) fn utc_now() -> Timestamp {
    let t = chrono::Utc::now();
    Timestamp { secs: t.timestamp(), nanos: t.timestamp_subsec_nanos() }
}

} // verus!
