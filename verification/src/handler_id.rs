//! Handler identities: a UUID held as its 128-bit number, with the text
//! forms used in resource names, URLs and message keys.

use crate::text::hex_digit;
use uuid::Uuid;
use vstd::prelude::*;
use vstd::string::StringExecFns;

verus! {

/// The hex digit `k` of `id`, counted from the most significant, as a number
/// in `0..16`.
pub open spec fn uuid_digit(id: u128, k: int) -> int {
    ((id >> ((4 * (31 - k)) as u128)) & 0xf) as int
}

/// The place among the 32 digits of the character `i` of a hyphenated UUID.
pub open spec fn uuid_digit_index(i: int) -> int {
    if i < 8 {
        i
    } else if i < 13 {
        i - 1
    } else if i < 18 {
        i - 2
    } else if i < 23 {
        i - 3
    } else {
        i - 4
    }
}

/// The hyphenated lowercase text of a UUID: 32 hex digits in groups of 8, 4,
/// 4, 4 and 12.
pub open spec fn uuid_text(id: u128) -> Seq<char> {
    Seq::new(
        36,
        |i: int|
            if i == 8 || i == 13 || i == 18 || i == 23 {
                '-'
            } else {
                hex_digit(uuid_digit(id, uuid_digit_index(i)))
            },
    )
}

/// The UUID that a text denotes, in any of the forms that `Uuid::parse_str`
/// reads; `None` for any other text.
pub uninterp spec fn uuid_from_text(text: Seq<char>) -> Option<u128>;

/// Whether a text has the length of one of the forms in which a UUID is
/// written: 32 characters (digits only), 36 (hyphenated), 38 (in braces) or
/// 45 (as a URN).
pub open spec fn has_uuid_length(text: Seq<char>) -> bool {
    text.len() == 32 || text.len() == 36 || text.len() == 38 || text.len() == 45
}

/// Reads a UUID with `uuid::Uuid::parse_str` and gives its number
/// (`as_u128`).
///
/// Trusted: whether the text is read, and as which UUID, depends on the
/// text alone; and no text is read that has not the length of one of the
/// four forms (every character of a text that is read is ASCII).
#[verifier::external_body]
pub(crate) fn parse_uuid(text: &str) -> (id: Option<u128>)
    ensures
        id == uuid_from_text(text@),
        id is Some ==> has_uuid_length(text@),
{
    Uuid::parse_str(text).ok().map(|u| u.as_u128())
}

/// Writes a UUID with `uuid::Uuid::from_u128` and its `Display`.
///
/// Trusted: the text is the hyphenated lowercase form, and `parse_str`
/// reads that form back as the same UUID.
#[verifier::external_body]
pub(crate) fn format_uuid(id: u128) -> (text: String)
    ensures
        text@ == uuid_text(id),
        uuid_from_text(text@) == Some(id),
{
    Uuid::from_u128(id).to_string()
}

/// Draws a fresh identity with `uuid::Uuid::new_v4`.
///
/// Trusted: whatever the random bits, the version digit is 4 and the
/// variant bits are `10`. The call panics where the system gives no random
/// bytes.
#[verifier::external_body]
pub(crate) fn random_uuid() -> (id: u128)
    ensures
        id & 0x0000_0000_0000_f000_c000_0000_0000_0000u128
            == 0x0000_0000_0000_4000_8000_0000_0000_0000u128,
{
    Uuid::new_v4().as_u128()
}

/// The identity that a resource name carries: the UUID after `handler-`.
/// `None` for a resource without name and for any other name.
pub open spec fn handler_id_of_name(name: Option<Seq<char>>) -> Option<u128> {
    match name {
        None => None,
        Some(text) => if "handler-"@.is_prefix_of(text) {
            uuid_from_text(text.skip("handler-"@.len() as int))
        } else {
            None
        },
    }
}

/// The name of the resource that declares the handler `id`.
pub open spec fn handler_name(id: u128) -> Seq<char> {
    "handler-"@ + uuid_text(id)
}

/// The URL at which the handler `id` takes events.
pub open spec fn handler_url(external_url: Seq<char>, id: u128) -> Seq<char> {
    external_url + "/handler/"@ + uuid_text(id)
}

/// The message key under which every event of the handler `id` is published.
pub open spec fn publish_key(id: u128) -> Seq<char> {
    uuid_text(id)
}

/// The name of the resource that declares the handler `id`:
/// `handler-<uuid>`. The identity is read back off that name.
pub fn handler_resource_name(id: u128) -> (name: String)
    ensures
        name@ == handler_name(id),
        handler_id_of_name(Some(name@)) == Some(id),
{
    let mut name = String::from_str("handler-");
    let text = format_uuid(id);
    name.append(text.as_str());
    proof {
        assert("handler-"@.is_prefix_of(name@)) by {
            assert(name@.subrange(0, "handler-"@.len() as int) =~= "handler-"@);
        }
        assert(name@.skip("handler-"@.len() as int) =~= text@);
    }
    name
}

/// The URL at which the handler `id` takes events:
/// `<external_url>/handler/<uuid>`.
pub fn handler_webhook_url(external_url: &str, id: u128) -> (url: String)
    ensures
        url@ == handler_url(external_url@, id),
{
    let mut url = String::from_str(external_url);
    url.append("/handler/");
    let text = format_uuid(id);
    url.append(text.as_str());
    url
}

/// The message key of the handler `id`: the text of its UUID.
pub fn handler_publish_key(id: u128) -> (key: String)
    ensures
        key@ == publish_key(id),
{
    format_uuid(id)
}

} // verus!
