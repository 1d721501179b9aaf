//! The decisions of the HTTP endpoints. Each endpoint's function takes the
//! request as plain data and says what to answer and what to do; reading
//! the request and acting on the decision is the caller's part.

pub mod config;
pub mod health;
pub mod webhook;

use crate::signature::{
    bare_signature, expected_signature, verify, verify_signature_at, within_skew, SignatureError,
};
use crate::text::{parse_i64, str_equal};
use vstd::prelude::*;

verus! {

/// One header of a request, as the server holds it: the name in lower case,
/// and the value where it is text.
#[derive(Debug)]
pub struct HeaderEntry {
    pub name: String,
    /// `None` for a value that is not visible ASCII text.
    pub value: Option<String>,
}

/// The mathematical value of a [`HeaderEntry`].
pub ghost struct HeaderModel {
    pub name: Seq<char>,
    pub value: Option<Seq<char>>,
}

impl View for HeaderEntry {
    type V = HeaderModel;

    open spec fn view(&self) -> HeaderModel {
        HeaderModel { name: self.name@, value: self.value.deep_view() }
    }
}

impl DeepView for HeaderEntry {
    type V = HeaderModel;

    open spec fn deep_view(&self) -> HeaderModel {
        self@
    }
}

/// Position of the first header named `name`, or `headers.len()`.
pub open spec fn first_header_named(headers: Seq<HeaderModel>, name: Seq<char>) -> int
    decreases headers.len(),
{
    if headers.len() == 0 {
        0
    } else if headers[0].name == name {
        0
    } else {
        1 + first_header_named(headers.skip(1), name)
    }
}

/// `first_header_named` is the one position with no header named `name`
/// before it that either holds such a header or is the end.
pub proof fn lemma_first_header_named(headers: Seq<HeaderModel>, name: Seq<char>, k: int)
    requires
        0 <= k <= headers.len(),
        forall|j: int| 0 <= j < k ==> headers[j].name != name,
        k < headers.len() ==> headers[k].name == name,
    ensures
        first_header_named(headers, name) == k,
    decreases headers.len(),
{
    if headers.len() > 0 && headers[0].name != name {
        assert forall|j: int| 0 <= j < k - 1 implies headers.skip(1)[j].name != name by {
            assert(headers.skip(1)[j] == headers[j + 1]);
        }
        lemma_first_header_named(headers.skip(1), name, k - 1);
    }
}

/// The text of the header `name`: that of the first header of this name.
/// `None` where no header has the name and where the first one is no text.
pub open spec fn header_text(headers: Seq<HeaderModel>, name: Seq<char>) -> Option<Seq<char>> {
    let k = first_header_named(headers, name);
    if 0 <= k < headers.len() {
        headers[k].value
    } else {
        None
    }
}

/// Looks up the text of a header.
pub fn find_header<'a>(headers: &'a Vec<HeaderEntry>, name: &str) -> (r: Option<&'a str>)
    ensures
        match r {
            Some(text) => header_text(headers.deep_view(), name@) == Some(text@),
            None => header_text(headers.deep_view(), name@) is None,
        },
{
    let ghost models = headers.deep_view();
    let mut k: usize = 0;
    while k < headers.len()
        invariant
            k <= headers.len(),
            models == headers.deep_view(),
            forall|j: int| 0 <= j < k ==> models[j].name != name@,
        decreases headers.len() - k,
    {
        assert(models[k as int] == headers@[k as int]@);
        if str_equal(headers[k].name.as_str(), name) {
            proof {
                lemma_first_header_named(models, name@, k as int);
            }
            return match &headers[k].value {
                Some(text) => Some(text.as_str()),
                None => None,
            };
        }
        k = k + 1;
    }
    proof {
        lemma_first_header_named(models, name@, k as int);
    }
    None
}

/// Why a request is not authenticated.
#[derive(Debug, Clone, Copy, PartialEq, Eq, Structural)]
pub enum AuthFailure {
    MissingSignature,
    MissingTimestamp,
    /// The signature is wrong, its timestamp is too far from now, or one of
    /// the two cannot be judged.
    InvalidSignature,
}

impl AuthFailure {
    /// The failure as the sentence that the response carries.
    pub open spec fn text(self) -> Seq<char> {
        match self {
            AuthFailure::MissingSignature => "Missing X-Signature header"@,
            AuthFailure::MissingTimestamp => "Missing X-Timestamp header"@,
            AuthFailure::InvalidSignature => "Invalid signature"@,
        }
    }

    /// The failure as the sentence that the response carries.
    pub fn message(&self) -> (m: &'static str)
        ensures
            m@ == self.text(),
    {
        match self {
            AuthFailure::MissingSignature => "Missing X-Signature header",
            AuthFailure::MissingTimestamp => "Missing X-Timestamp header",
            AuthFailure::InvalidSignature => "Invalid signature",
        }
    }
}

/// Whether a request is authenticated under `key` at the time `now`: it
/// carries `x-signature` and `x-timestamp` as text, and the signature is
/// judged valid. `None` means it is.
pub open spec fn auth_failure(
    key: Seq<char>,
    headers: Seq<HeaderModel>,
    body: Seq<char>,
    now: i64,
) -> Option<AuthFailure> {
    match header_text(headers, "x-signature"@) {
        None => Some(AuthFailure::MissingSignature),
        Some(signature) => match header_text(headers, "x-timestamp"@) {
            None => Some(AuthFailure::MissingTimestamp),
            Some(timestamp) => if verify(key, timestamp, body, signature, now) == Ok::<
                bool,
                SignatureError,
            >(true) {
                None
            } else {
                Some(AuthFailure::InvalidSignature)
            },
        },
    }
}

/// Checks the signature headers of a request against `key` at the time
/// `now`.
pub fn authenticate(key: &str, headers: &Vec<HeaderEntry>, body: &str, now: i64) -> (r: Option<
    AuthFailure,
>)
    ensures
        r == auth_failure(key@, headers.deep_view(), body@, now),
{
    let signature = match find_header(headers, "x-signature") {
        Some(text) => text,
        None => {
            return Some(AuthFailure::MissingSignature);
        },
    };
    let timestamp = match find_header(headers, "x-timestamp") {
        Some(text) => text,
        None => {
            return Some(AuthFailure::MissingTimestamp);
        },
    };
    match verify_signature_at(key, timestamp, body, signature, now) {
        Ok(true) => None,
        _ => Some(AuthFailure::InvalidSignature),
    }
}

/// Whether a request carries the signature that `key` gives to its
/// timestamp and its body, with or without the `sha256=` prefix.
pub open spec fn rightly_signed(key: Seq<char>, headers: Seq<HeaderModel>, body: Seq<char>) -> bool {
    header_text(headers, "x-signature"@) matches Some(signature) && (header_text(
        headers,
        "x-timestamp"@,
    ) matches Some(timestamp) && bare_signature(signature) == expected_signature(
        key,
        timestamp,
        body,
    ))
}

/// A request that does not carry the signature expected under `key` is not
/// authenticated, whatever the clock reads.
pub proof fn lemma_wrongly_signed_request_rejected(
    key: Seq<char>,
    headers: Seq<HeaderModel>,
    body: Seq<char>,
    now: i64,
)
    requires
        !rightly_signed(key, headers, body),
    ensures
        auth_failure(key, headers, body, now) is Some,
{
}

/// A request that carries the signature expected under a key that is not
/// empty is authenticated exactly while its timestamp is within the skew
/// window.
pub proof fn lemma_rightly_signed_request_accepted_iff_fresh(
    key: Seq<char>,
    headers: Seq<HeaderModel>,
    body: Seq<char>,
    now: i64,
)
    requires
        key.len() > 0,
        rightly_signed(key, headers, body),
    ensures
        auth_failure(key, headers, body, now) is None <==> (parse_i64(
            header_text(headers, "x-timestamp"@)->Some_0,
        ) matches Some(ts) && within_skew(now as int, ts as int)),
{
}

/// Under an empty key no request is authenticated.
pub proof fn lemma_empty_key_authenticates_nothing(
    headers: Seq<HeaderModel>,
    body: Seq<char>,
    now: i64,
)
    ensures
        auth_failure(Seq::empty(), headers, body, now) is Some,
{
}

/// A request whose signature timestamp is a number more than 300 seconds
/// from `now` is not authenticated, whatever it is signed with.
pub proof fn lemma_stale_request_rejected(
    key: Seq<char>,
    headers: Seq<HeaderModel>,
    body: Seq<char>,
    now: i64,
)
    requires
        header_text(headers, "x-timestamp"@) matches Some(timestamp) && (parse_i64(timestamp)
            matches Some(ts) && !within_skew(now as int, ts as int)),
    ensures
        auth_failure(key, headers, body, now) is Some,
{
}

} // verus!
