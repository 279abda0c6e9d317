//! The crate's narrow border with outside libraries: the clock, randomness,
//! uuids, base64, and the HTTP client's error type. Each trusted item wraps
//! one outside call; everything else in this file is verified against those
//! contracts.
use base64::Engine as _;
use vstd::prelude::*;

use crate::strutil::is_prefix_of;

verus! {

/// Relies on chrono's `Utc::now().timestamp()`: seconds since the epoch.
/// Chrono dates span roughly years -262143..=262142, so the timestamp
/// magnitude stays below 9 * 10^12. Nothing else holds of a clock reading.
/// (`Utc::now` itself aborts on a system clock set before the epoch; that
/// is environmental, not input-dependent.)
#[verifier::external_body]
fn now_unix_seconds() -> (r: i64)
    ensures
        -9000000000000 <= r <= 9000000000000,
{
    chrono::Utc::now().timestamp()
}

/// The current time in seconds since the epoch, within the bounds the pool's
/// time arithmetic needs.
pub fn current_unix_time() -> (r: i64)
    ensures
        -crate::token_manager::NOW_BOUND <= r <= crate::token_manager::NOW_BOUND,
{
    now_unix_seconds()
}

/// Relies on rand's `thread_rng` with the `Alphanumeric` distribution: six
/// draws from `a-z A-Z 0-9`, lowercased one-to-one, so six lowercase
/// alphanumeric characters come back. Which ones is chance.
#[verifier::external_body]
fn random_lower_alnum_6() -> (r: String)
    ensures
        r@.len() == 6,
        forall|i: int|
            0 <= i < 6 ==> ('a' <= #[trigger] r@[i] <= 'z' || '0' <= r@[i] <= '9'),
{
    rand::Rng::sample_iter(rand::thread_rng(), &rand::distributions::Alphanumeric)
        .take(6)
        .map(char::from)
        .collect::<String>()
        .to_lowercase()
}

/// The per-request trace context: a random six-character lowercase id that
/// all logs and debug records of one request carry.
#[derive(Debug, Clone, PartialEq)]
pub struct TraceContext {
    pub id: String,
}

impl TraceContext {
    /// Draws a fresh six-character lowercase trace id.
    pub fn new() -> (t: TraceContext)
        ensures
            t.id@.len() == 6,
            forall|i: int|
                0 <= i < 6 ==> ('a' <= #[trigger] t.id@[i] <= 'z' || '0' <= t.id@[i] <= '9'),
    {
        TraceContext { id: random_lower_alnum_6() }
    }
}

/// Relies on uuid's `Uuid::new_v4` shown through `Display`: the hyphenated
/// form, 36 characters. Which uuid comes back is chance.
#[verifier::external_body]
fn new_uuid_hyphenated() -> (r: String)
    ensures
        r@.len() == 36,
{
    uuid::Uuid::new_v4().to_string()
}

/// A fresh generation request id: `agent-` followed by a random uuid.
pub fn agent_request_id() -> (r: String)
    ensures
        r@.len() == 42,
        is_prefix_of(r@, "agent-"@),
{
    let id = String::from_str("agent-").concat(new_uuid_hyphenated().as_str());
    proof {
        reveal_strlit("agent-");
        assert(id@.subrange(0, 6) =~= "agent-"@);
    }
    id
}

/// A fresh image-edit request id: `img-edit-` followed by a random uuid.
pub fn img_edit_request_id() -> (r: String)
    ensures
        r@.len() == 45,
        is_prefix_of(r@, "img-edit-"@),
{
    let id = String::from_str("img-edit-").concat(new_uuid_hyphenated().as_str());
    proof {
        reveal_strlit("img-edit-");
        assert(id@.subrange(0, 9) =~= "img-edit-"@);
    }
    id
}

/// What base64's standard alphabet makes of a byte sequence.
pub uninterp spec fn base64_of(bytes: Seq<u8>) -> Seq<char>;

/// Relies on base64's `STANDARD` engine: the padded encoding of the bytes,
/// four characters per three-byte group. Its result depends on the bytes
/// alone.
#[verifier::external_body]
pub(crate) fn b64_standard_encode(bytes: &Vec<u8>) -> (r: String)
    requires
        bytes@.len() <= 0x0fff_ffff_ffff_ffff,
    ensures
        r@ == base64_of(bytes@),
        r@.len() == 4 * ((bytes@.len() + 2) / 3),
{
    base64::engine::general_purpose::STANDARD.encode(bytes)
}

/// The HTTP client's opaque error type, declared so that signatures may
/// carry it.
#[verifier::external_type_specification]
#[verifier::external_body]
pub struct ExReqwestError(reqwest::Error);

/// Relies on reqwest's `Error::is_timeout`: whether a timeout lies in the
/// error's source chain.
pub assume_specification[ reqwest::Error::is_timeout ](e: &reqwest::Error) -> (r: bool);

/// Relies on reqwest's `Error::is_connect`: whether the error arose while
/// connecting.
pub assume_specification[ reqwest::Error::is_connect ](e: &reqwest::Error) -> (r: bool);

/// Relies on reqwest's `Error::is_decode`: whether the error arose while
/// decoding the response body.
pub assume_specification[ reqwest::Error::is_decode ](e: &reqwest::Error) -> (r: bool);

/// Relies on reqwest's `Error::is_body`: whether the error concerns the
/// request or response body.
pub assume_specification[ reqwest::Error::is_body ](e: &reqwest::Error) -> (r: bool);

/// Relies on reqwest's `Display` for `Error`: the error rendered as text.
/// Nothing holds of the words.
#[verifier::external_body]
pub(crate) fn reqwest_error_text(e: &reqwest::Error) -> (r: String) {
    format!("{}", e)
}

} // verus!
