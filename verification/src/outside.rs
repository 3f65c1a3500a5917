//! The trusted boundary: wrappers over the outside crates the protocol
//! logic relies on. Each wrapper's body only makes the call and converts
//! values; everything proved about the library rests on these contracts.

use vstd::prelude::*;
use base64::Engine;
use sha1::Digest;

verus! {

/// The SHA-1 digest of a byte sequence; a function of the input alone.
pub uninterp spec fn sha1_of(data: Seq<u8>) -> Seq<u8>;

/// The standard padded base64 rendering of a byte sequence; a function of
/// the input alone.
pub uninterp spec fn base64_of(data: Seq<u8>) -> Seq<char>;

/// Whether the cron engine accepts an expression (seconds field required);
/// a function of the text alone.
pub uninterp spec fn cron_accepted(expr: Seq<char>) -> bool;

/// Relies on the sha1 crate's `Sha1` through the `Digest` trait: the 20-byte
/// SHA-1 digest of the input, depending on the input bytes alone.
#[verifier::external_body]
pub(crate) fn sha1_digest(data: &Vec<u8>) -> (r: Vec<u8>)
    ensures
        r@ == sha1_of(data@),
        r@.len() == 20,
{
    sha1::Sha1::digest(data.as_slice()).to_vec()
}

/// Relies on base64's `STANDARD` engine: padded standard-alphabet encoding,
/// four output characters per started three-byte block, empty for empty
/// input. The length bound keeps the engine's size computation from
/// overflowing.
#[verifier::external_body]
pub(crate) fn base64_encode(data: &Vec<u8>) -> (r: String)
    requires
        data@.len() < 0x2000000000000000,
    ensures
        r@ == base64_of(data@),
        r@.len() == 4 * ((data@.len() + 2) / 3),
{
    base64::engine::general_purpose::STANDARD.encode(data.as_slice())
}

/// Relies on `rand::random`: sixteen bytes from the thread-local generator.
/// The bytes are random; only the length is promised.
#[verifier::external_body]
pub(crate) fn random_nonce16() -> (r: Vec<u8>)
    ensures
        r@.len() == 16,
{
    let bytes: [u8; 16] = rand::random();
    bytes.to_vec()
}

/// Relies on uuid's `Uuid::new_v4` and its `Display` form: a hyphenated
/// UUID, 36 characters. The value is random; only the length is promised.
#[verifier::external_body]
pub(crate) fn new_uuid_string() -> (r: String)
    ensures
        r@.len() == 36,
{
    uuid::Uuid::new_v4().to_string()
}

/// Relies on tokio_cron_scheduler's `Job::new_tz` (croner parser, seconds
/// field required, day-of-month and day-of-week conjoined, Tokyo timezone):
/// whether the expression parses, which depends on the text alone.
#[verifier::external_body]
pub(crate) fn cron_parses(expr: &str) -> (r: bool)
    ensures
        r == cron_accepted(expr@),
{
    tokio_cron_scheduler::Job::new_tz(expr, chrono_tz::Asia::Tokyo, |_id, _sched| {}).is_ok()
}

/// Relies on uuid's `Uuid::new_v4().as_u128()`: a fresh random job id as an
/// integer. The value is random; nothing is promised of it.
#[verifier::external_body]
pub(crate) fn new_job_id() -> (r: u128)
{
    uuid::Uuid::new_v4().as_u128()
}

} // verus!
