//! The header types of `hyper` as this library sees them. Verus does not look
//! inside these types: what is stated of them here is taken from their source
//! and is not proved.

use crate::decimal::decimal_text;
use hyper::header::{HeaderName, HeaderValue, InvalidHeaderValue, ToStrError};
use hyper::HeaderMap;
use vstd::prelude::*;
use vstd::utf8::encode_utf8;

verus! {

/// A header value: a string of bytes.
#[verifier::external_type_specification]
#[verifier::external_body]
pub struct ExHeaderValue(hyper::header::HeaderValue);

/// The error of a header value that is no text.
#[verifier::external_type_specification]
#[verifier::external_body]
pub struct ExToStrError(hyper::header::ToStrError);

/// The error of text that is no header value.
#[verifier::external_type_specification]
#[verifier::external_body]
pub struct ExInvalidHeaderValue(hyper::header::InvalidHeaderValue);

/// A header name, kept in lower case.
#[verifier::external_type_specification]
#[verifier::external_body]
pub struct ExHeaderName(hyper::header::HeaderName);

/// A map from header names to the values under each.
#[verifier::external_type_specification]
#[verifier::external_body]
#[verifier::reject_recursive_types(T)]
pub struct ExHeaderMap<T>(hyper::HeaderMap<T>);

/// The bytes that a header value holds.
pub uninterp spec fn header_value_bytes(value: HeaderValue) -> Seq<u8>;

/// `b` is a visible ASCII character, a space or a tab.
pub open spec fn is_visible_ascii(b: u8) -> bool {
    32 <= b < 127 || b == 9
}

/// Every byte of `bytes` is visible ASCII.
pub open spec fn all_visible_ascii(bytes: Seq<u8>) -> bool {
    forall|i: int| 0 <= i < bytes.len() ==> is_visible_ascii(#[trigger] bytes[i])
}

/// The text that ASCII `bytes` spell, one character for each byte.
pub open spec fn ascii_text(bytes: Seq<u8>) -> Seq<char> {
    Seq::new(bytes.len(), |i: int| bytes[i] as char)
}

/// `HeaderValue::to_str`: the value as text where all its bytes are visible
/// ASCII (32 to 126, or a tab), and an error where one is not. The text spells
/// the value's bytes, one character for each.
#[verifier::external_body]
pub(crate) fn header_value_to_str(value: &HeaderValue) -> (text: Result<&str, ToStrError>)
    ensures
        match text {
            Ok(text) => all_visible_ascii(header_value_bytes(*value)) && text@ == ascii_text(
                header_value_bytes(*value),
            ),
            Err(_) => !all_visible_ascii(header_value_bytes(*value)),
        },
{
    value.to_str()
}

/// The name that a header name spells, in lower case.
pub uninterp spec fn header_name_text(name: HeaderName) -> Seq<char>;

/// The values that a header map holds under each name, in the order in which
/// they were added. A name under which the map holds nothing is no key.
pub uninterp spec fn header_map_values(map: HeaderMap) -> Map<Seq<char>, Seq<Seq<u8>>>;

/// `b` may stand in a header value: any byte from 32 on but 127, or a tab.
pub open spec fn is_value_byte(b: u8) -> bool {
    (b >= 32 && b != 127) || b == 9
}

/// Every byte of `bytes` may stand in a header value.
pub open spec fn all_value_bytes(bytes: Seq<u8>) -> bool {
    forall|i: int| 0 <= i < bytes.len() ==> is_value_byte(#[trigger] bytes[i])
}

/// The bytes of ASCII `text`, one for each character.
pub open spec fn ascii_bytes(text: Seq<char>) -> Seq<u8> {
    Seq::new(text.len(), |i: int| text[i] as u8)
}

/// `c` is a lower-case letter, a digit or a hyphen.
pub open spec fn is_name_char(c: char) -> bool {
    ('a' <= c && c <= 'z') || ('0' <= c && c <= '9') || c == '-'
}

/// `text` is a header name in lower case, made of letters, digits and
/// hyphens, and at most 64 characters long.
pub open spec fn is_plain_name(text: Seq<char>) -> bool {
    &&& 0 < text.len() <= 64
    &&& forall|i: int| 0 <= i < text.len() ==> is_name_char(#[trigger] text[i])
}

/// What a header map without any header holds.
pub open spec fn no_headers() -> Map<Seq<char>, Seq<Seq<u8>>> {
    Map::empty()
}

/// The values that `values` holds under `name`; none where `name` is no key.
pub open spec fn values_under(values: Map<Seq<char>, Seq<Seq<u8>>>, name: Seq<char>) -> Seq<
    Seq<u8>,
> {
    if values.dom().contains(name) {
        values[name]
    } else {
        Seq::empty()
    }
}

/// The map has few enough names that one more can be added. A header map
/// cannot grow beyond 32768 slots, and it grows only when a fifth of its slots
/// or more are taken: a map of fewer than 1024 names never has to.
pub open spec fn has_room(map: HeaderMap) -> bool {
    &&& header_map_values(map).dom().finite()
    &&& header_map_values(map).dom().len() < 1024
}

/// `HeaderValue::from_str`: the header value that holds the bytes of `text`
/// in UTF-8, where each of them is allowed in a header value (32 or more and
/// not 127, or a tab), and an error where one is not.
#[verifier::external_body]
pub(crate) fn header_value_from_str(text: &str) -> (value: Result<HeaderValue, InvalidHeaderValue>)
    ensures
        match value {
            Ok(value) => all_value_bytes(encode_utf8(text@)) && header_value_bytes(value)
                == encode_utf8(text@),
            Err(_) => !all_value_bytes(encode_utf8(text@)),
        },
{
    HeaderValue::from_str(text)
}

/// `HeaderValue::from` for a `u64`: the header value that holds the decimal
/// digits of `n`.
#[verifier::external_body]
pub(crate) fn header_value_from_u64(n: u64) -> (value: HeaderValue)
    ensures
        header_value_bytes(value) == ascii_bytes(decimal_text(n as nat)),
{
    HeaderValue::from(n)
}

/// `HeaderName::from_static`: the header name that `text` spells. It panics
/// on text that is no header name in lower case; a non-empty text of at most
/// 64 lower-case letters, digits and hyphens is one.
#[verifier::external_body]
pub(crate) fn header_name_from_static(text: &'static str) -> (name: HeaderName)
    requires
        is_plain_name(text@),
    ensures
        header_name_text(name) == text@,
{
    HeaderName::from_static(text)
}

/// `HeaderMap::new`: a header map that holds nothing.
#[verifier::external_body]
pub(crate) fn header_map_new() -> (headers: HeaderMap)
    ensures
        header_map_values(headers) == no_headers(),
{
    HeaderMap::new()
}

/// `HeaderMap::append`: adds `value` behind the values that the map holds
/// under `name`, and says whether it held any. It panics where the map cannot
/// grow, which `has_room` excludes.
#[verifier::external_body]
pub(crate) fn header_map_append(
    map: &mut HeaderMap,
    name: HeaderName,
    value: HeaderValue,
) -> (held: bool)
    requires
        has_room(*old(map)),
    ensures
        held == header_map_values(*old(map)).dom().contains(header_name_text(name)),
        header_map_values(*final(map)) == header_map_values(*old(map)).insert(
            header_name_text(name),
            values_under(header_map_values(*old(map)), header_name_text(name)).push(
                header_value_bytes(value),
            ),
        ),
{
    map.append(name, value)
}

/// `HeaderMap::get`: the first value that the map holds under `name`, if it
/// holds any.
#[verifier::external_body]
pub(crate) fn header_map_get<'a>(map: &'a HeaderMap, name: &HeaderName) -> (value: Option<
    &'a HeaderValue,
>)
    ensures
        match value {
            Some(value) => {
                &&& header_map_values(*map).dom().contains(header_name_text(*name))
                &&& header_map_values(*map)[header_name_text(*name)].len() > 0
                &&& header_map_values(*map)[header_name_text(*name)][0] == header_value_bytes(
                    *value,
                )
            },
            None => !header_map_values(*map).dom().contains(header_name_text(*name)),
        },
{
    map.get(name)
}

} // verus!
