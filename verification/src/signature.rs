//! Request signatures: HMAC-SHA256 over `"<timestamp>.<body>"`, in lowercase
//! hex, accepted only while the timestamp is within the skew window.

use crate::text::{chars_of, hex_digit, parse_i64, read_i64, starts_with_at, strip_prefix};
use hmac::{Hmac, Mac};
use sha2::Sha256;
use vstd::prelude::*;
use vstd::string::StrSliceExecFns;
use vstd::string::StringExecFns;
use vstd::utf8::encode_utf8;

verus! {

/// The accepted distance, in seconds, between a signature's timestamp and
/// the current time.
pub const MAX_SKEW_SECONDS: i64 = 300;

/// Why a signature could not be judged at all.
#[derive(Debug, Clone, Copy, PartialEq, Eq, Structural)]
pub enum SignatureError {
    /// The timestamp is no signed decimal number of seconds.
    InvalidTimestamp,
    /// The signing key is empty.
    EmptyKey,
}

impl SignatureError {
    /// The error as a sentence.
    pub fn message(&self) -> (m: &'static str)
        ensures
            m@ == match *self {
                SignatureError::InvalidTimestamp => "Invalid timestamp"@,
                SignatureError::EmptyKey => "Invalid key: empty"@,
            },
    {
        match self {
            SignatureError::InvalidTimestamp => "Invalid timestamp",
            SignatureError::EmptyKey => "Invalid key: empty",
        }
    }
}

/// The HMAC-SHA256 tag of `message` under `key`.
pub uninterp spec fn hmac_sha256(key: Seq<u8>, message: Seq<u8>) -> Seq<u8>;

/// Computes an HMAC-SHA256 tag with `hmac::Hmac<sha2::Sha256>`:
/// `new_from_slice`, `update`, `finalize`.
///
/// Trusted: the bytes returned are the tag of `data` under `key`, a function
/// of the two alone. `new_from_slice` accepts a key of any length (a long
/// key is hashed, a short one padded), so it gives no error here.
#[verifier::external_body]
fn hmac_sha256_digest(key: &[u8], data: &[u8]) -> (tag: Vec<u8>)
    ensures
        tag@ == hmac_sha256(key@, data@),
{
    let mut mac = Hmac::<Sha256>::new_from_slice(key).expect("HMAC takes a key of any length");
    mac.update(data);
    mac.finalize().into_bytes().to_vec()
}

/// Lowercase hex: two digits for each byte, the high half first.
pub open spec fn hex_lower(bytes: Seq<u8>) -> Seq<char> {
    Seq::new(
        2 * bytes.len(),
        |i: int|
            if i % 2 == 0 {
                hex_digit(bytes[i / 2] as int / 16)
            } else {
                hex_digit(bytes[i / 2] as int % 16)
            },
    )
}

fn hex_digit_text(n: u8) -> (r: &'static str)
    requires
        n < 16,
    ensures
        r@ == seq![hex_digit(n as int)],
{
    proof {
        reveal_strlit("0");
        reveal_strlit("1");
        reveal_strlit("2");
        reveal_strlit("3");
        reveal_strlit("4");
        reveal_strlit("5");
        reveal_strlit("6");
        reveal_strlit("7");
        reveal_strlit("8");
        reveal_strlit("9");
        reveal_strlit("a");
        reveal_strlit("b");
        reveal_strlit("c");
        reveal_strlit("d");
        reveal_strlit("e");
        reveal_strlit("f");
    }
    let r = if n == 0 {
        "0"
    } else if n == 1 {
        "1"
    } else if n == 2 {
        "2"
    } else if n == 3 {
        "3"
    } else if n == 4 {
        "4"
    } else if n == 5 {
        "5"
    } else if n == 6 {
        "6"
    } else if n == 7 {
        "7"
    } else if n == 8 {
        "8"
    } else if n == 9 {
        "9"
    } else if n == 10 {
        "a"
    } else if n == 11 {
        "b"
    } else if n == 12 {
        "c"
    } else if n == 13 {
        "d"
    } else if n == 14 {
        "e"
    } else {
        "f"
    };
    assert(r@ =~= seq![hex_digit(n as int)]);
    r
}

/// The bytes in lowercase hex.
pub fn hex_encode(bytes: &[u8]) -> (text: String)
    ensures
        text@ == hex_lower(bytes@),
{
    let mut text = String::new();
    let mut i: usize = 0;
    assert(text@ =~= hex_lower(bytes@.take(0)));
    while i < bytes.len()
        invariant
            i <= bytes.len(),
            text@ == hex_lower(bytes@.take(i as int)),
        decreases bytes.len() - i,
    {
        let b = bytes[i];
        let ghost before = text@;
        text.append(hex_digit_text(b / 16));
        text.append(hex_digit_text(b % 16));
        proof {
            let shorter = bytes@.take(i as int);
            let longer = bytes@.take(i + 1);
            assert(text@ == before + seq![hex_digit(b as int / 16)] + seq![
                hex_digit(b as int % 16),
            ]);
            assert forall|k: int| 0 <= k < 2 * longer.len() implies text@[k] == hex_lower(
                longer,
            )[k] by {
                if k < 2 * i {
                    assert(longer[k / 2] == shorter[k / 2]);
                    assert(text@[k] == hex_lower(shorter)[k]);
                } else {
                    assert(longer[k / 2] == b);
                }
            }
            assert(text@ =~= hex_lower(longer));
        }
        i = i + 1;
    }
    assert(bytes@.take(i as int) == bytes@);
    text
}

/// Reads the clock with `chrono::Utc::now().timestamp()`: seconds since the
/// Unix epoch.
///
/// Trusted, with nothing claimed of the number. The call panics on a machine
/// whose clock is set before 1970.
#[verifier::external_body]
pub(crate) fn unix_now() -> i64 {
    chrono::Utc::now().timestamp()
}

/// The bytes that are signed: the timestamp text, a dot, and the body, each
/// as it was received.
pub open spec fn canonical_message(timestamp: Seq<char>, body: Seq<char>) -> Seq<u8> {
    encode_utf8(timestamp) + seq![0x2eu8] + encode_utf8(body)
}

/// The signature that `secret` gives to `timestamp` and `body`.
pub open spec fn expected_signature(secret: Seq<char>, timestamp: Seq<char>, body: Seq<char>) -> Seq<
    char,
> {
    hex_lower(hmac_sha256(encode_utf8(secret), canonical_message(timestamp, body)))
}

/// Whether `timestamp` is at most [`MAX_SKEW_SECONDS`] away from `now`, on
/// either side.
pub open spec fn within_skew(now: int, timestamp: int) -> bool {
    -300 <= now - timestamp <= 300
}

/// The signature as it is compared: without its optional `sha256=` prefix.
pub open spec fn bare_signature(signature: Seq<char>) -> Seq<char> {
    strip_prefix(signature, "sha256="@)
}

/// The verdict on a signature at the time `now`.
pub open spec fn verify(
    secret: Seq<char>,
    timestamp: Seq<char>,
    body: Seq<char>,
    signature: Seq<char>,
    now: i64,
) -> Result<bool, SignatureError> {
    match parse_i64(timestamp) {
        None => Err(SignatureError::InvalidTimestamp),
        Some(ts) => if !within_skew(now as int, ts as int) {
            Ok(false)
        } else if secret.len() == 0 {
            Err(SignatureError::EmptyKey)
        } else {
            Ok(bare_signature(signature) == expected_signature(secret, timestamp, body))
        },
    }
}

/// Whether two byte strings are equal. The time taken depends on their
/// lengths only, not on where they differ.
pub fn constant_time_eq(a: &[u8], b: &[u8]) -> (r: bool)
    ensures
        r == (a@ == b@),
{
    if a.len() != b.len() {
        return false;
    }
    let mut diff: u8 = 0;
    let mut i: usize = 0;
    assert(a@.take(0) =~= b@.take(0));
    while i < a.len()
        invariant
            a.len() == b.len(),
            i <= a.len(),
            diff == 0 <==> a@.take(i as int) == b@.take(i as int),
        decreases a.len() - i,
    {
        let x = a[i];
        let y = b[i];
        let next = diff | (x ^ y);
        proof {
            assert((next == 0) <==> (diff == 0 && x == y)) by (bit_vector)
                requires
                    next == diff | (x ^ y),
            ;
            assert(a@.take(i + 1).drop_last() == a@.take(i as int));
            assert(b@.take(i + 1).drop_last() == b@.take(i as int));
            if a@.take(i as int) == b@.take(i as int) && x == y {
                assert(a@.take(i + 1) =~= b@.take(i + 1));
            }
            if a@.take(i + 1) == b@.take(i + 1) {
                assert(a@.take(i + 1)[i as int] == b@.take(i + 1)[i as int]);
            }
        }
        diff = next;
        i = i + 1;
    }
    assert(a@.take(i as int) == a@ && b@.take(i as int) == b@);
    diff == 0
}

/// The signature for `timestamp` and `body` under `secret`: lowercase hex,
/// without prefix.
pub fn sign(secret: &str, timestamp: &str, body: &str) -> (r: Result<String, SignatureError>)
    ensures
        secret@.len() == 0 ==> r == Err::<String, SignatureError>(SignatureError::EmptyKey),
        secret@.len() > 0 ==> r is Ok && r->Ok_0@ == expected_signature(
            secret@,
            timestamp@,
            body@,
        ),
{
    if secret.unicode_len() == 0 {
        return Err(SignatureError::EmptyKey);
    }
    let mut message: Vec<u8> = Vec::new();
    message.extend_from_slice(timestamp.as_bytes());
    message.push(0x2eu8);
    message.extend_from_slice(body.as_bytes());
    assert(message@ =~= canonical_message(timestamp@, body@));
    let tag = hmac_sha256_digest(secret.as_bytes(), message.as_slice());
    Ok(hex_encode(tag.as_slice()))
}

/// Judges a signature at the time `now` (Unix seconds).
///
/// `Err(InvalidTimestamp)` for a timestamp that is no number; `Ok(false)`
/// for one outside the skew window; `Err(EmptyKey)` for an empty secret;
/// else whether the signature, without its optional `sha256=` prefix, is the
/// expected one.
pub fn verify_signature_at(
    secret: &str,
    timestamp: &str,
    body: &str,
    signature: &str,
    now: i64,
) -> (r: Result<bool, SignatureError>)
    ensures
        r == verify(secret@, timestamp@, body@, signature@, now),
{
    let digits = chars_of(timestamp);
    let ts = match read_i64(&digits) {
        Some(ts) => ts,
        None => {
            return Err(SignatureError::InvalidTimestamp);
        },
    };
    let distance: i128 = now as i128 - ts as i128;
    if distance > MAX_SKEW_SECONDS as i128 || distance < -(MAX_SKEW_SECONDS as i128) {
        return Ok(false);
    }
    let expected = match sign(secret, timestamp, body) {
        Ok(text) => text,
        Err(e) => {
            return Err(e);
        },
    };
    let given = chars_of(signature);
    let prefix = chars_of("sha256=");
    assert(given@.skip(0) == given@);
    let provided = if starts_with_at(&given, 0, &prefix) {
        signature.substring_char(prefix.len(), given.len())
    } else {
        signature
    };
    assert(provided@ == bare_signature(signature@));
    let same = constant_time_eq(expected.as_str().as_bytes(), provided.as_bytes());
    proof {
        vstd::utf8::encode_utf8_decode_utf8(expected@);
        vstd::utf8::encode_utf8_decode_utf8(provided@);
    }
    Ok(same)
}

/// Judges a signature against the current time.
///
/// The verdict is that of [`verify_signature_at`] for the moment the clock
/// was read.
pub fn verify_signature(secret: &str, timestamp: &str, body: &str, signature: &str) -> (r: Result<
    bool,
    SignatureError,
>)
    ensures
        exists|now: i64| r == verify(secret@, timestamp@, body@, signature@, now),
        parse_i64(timestamp@) is None ==> r == Err::<bool, SignatureError>(
            SignatureError::InvalidTimestamp,
        ),
        parse_i64(timestamp@) is Some ==> r != Err::<bool, SignatureError>(
            SignatureError::InvalidTimestamp,
        ),
{
    let now = unix_now();
    let r = verify_signature_at(secret, timestamp, body, signature, now);
    assert(r == verify(secret@, timestamp@, body@, signature@, now));
    r
}

/// A signature that is valid for its message is accepted exactly while its
/// timestamp is within the skew window.
pub proof fn lemma_valid_signature_accepted_iff_fresh(
    secret: Seq<char>,
    timestamp: Seq<char>,
    body: Seq<char>,
    signature: Seq<char>,
    now: i64,
)
    requires
        secret.len() > 0,
        parse_i64(timestamp) is Some,
        bare_signature(signature) == expected_signature(secret, timestamp, body),
    ensures
        verify(secret, timestamp, body, signature, now) == Ok::<bool, SignatureError>(true)
            <==> within_skew(now as int, parse_i64(timestamp).unwrap() as int),
        !within_skew(now as int, parse_i64(timestamp).unwrap() as int) ==> verify(
            secret,
            timestamp,
            body,
            signature,
            now,
        ) == Ok::<bool, SignatureError>(false),
{
}

/// No hex text starts with `sha256=`.
pub proof fn lemma_hex_is_bare(bytes: Seq<u8>)
    ensures
        bare_signature(hex_lower(bytes)) == hex_lower(bytes),
{
    reveal_strlit("sha256=");
    let text = hex_lower(bytes);
    if "sha256="@.is_prefix_of(text) {
        assert(text[0] == "sha256="@[0]);
        assert(text[0] == hex_digit(bytes[0] as int / 16));
    }
}

/// Signing round trip: what `sign` gives is accepted for the same secret,
/// timestamp and body while the timestamp is within the skew window, with
/// and without the `sha256=` prefix.
pub proof fn lemma_sign_then_verify(
    secret: Seq<char>,
    timestamp: Seq<char>,
    body: Seq<char>,
    now: i64,
)
    requires
        secret.len() > 0,
        parse_i64(timestamp) is Some,
        within_skew(now as int, parse_i64(timestamp).unwrap() as int),
    ensures
        verify(secret, timestamp, body, expected_signature(secret, timestamp, body), now) == Ok::<
            bool,
            SignatureError,
        >(true),
        verify(
            secret,
            timestamp,
            body,
            "sha256="@ + expected_signature(secret, timestamp, body),
            now,
        ) == Ok::<bool, SignatureError>(true),
{
    let tag = hmac_sha256(encode_utf8(secret), canonical_message(timestamp, body));
    let text = expected_signature(secret, timestamp, body);
    lemma_hex_is_bare(tag);
    let prefixed = "sha256="@ + text;
    assert("sha256="@.is_prefix_of(prefixed)) by {
        assert(prefixed.subrange(0, "sha256="@.len() as int) =~= "sha256="@);
    }
    assert(prefixed.skip("sha256="@.len() as int) =~= text);
}

/// The skew window is closed: a distance of exactly 300 seconds is inside
/// it, one of 301 seconds is outside, before and after the timestamp.
pub proof fn lemma_skew_boundary(timestamp: int)
    ensures
        within_skew(timestamp + 300, timestamp),
        within_skew(timestamp - 300, timestamp),
        !within_skew(timestamp + 301, timestamp),
        !within_skew(timestamp - 301, timestamp),
{
}

} // verus!
