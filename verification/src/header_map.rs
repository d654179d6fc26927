//! Header maps as mathematical maps, and the operations on them that are used here.

use vstd::prelude::*;

use http::header::HeaderValue;
use http::HeaderMap;

verus! {

/// Declares `http::HeaderMap`.
#[verifier::external_type_specification]
#[verifier::external_body]
#[verifier::reject_recursive_types(T)]
pub struct ExHeaderMap<T>(http::HeaderMap<T>);

/// Declares `http::HeaderValue`.
#[verifier::external_type_specification]
#[verifier::external_body]
pub struct ExHeaderValue(http::header::HeaderValue);

/// The contents of a header map: each name, in lower case, with the bytes of
/// its values in the order in which they were added.
pub uninterp spec fn header_fields(headers: HeaderMap<HeaderValue>) -> Map<Seq<char>, Seq<Seq<u8>>>;

/// The bytes of a header value.
pub uninterp spec fn value_bytes(value: HeaderValue) -> Seq<u8>;

/// Characters that a header name may be written with.
pub open spec fn is_name_char(c: char) -> bool {
    ||| 'a' <= c <= 'z'
    ||| 'A' <= c <= 'Z'
    ||| '0' <= c <= '9'
    ||| c == '!' || c == '#' || c == '$' || c == '%' || c == '&' || c == '\''
    ||| c == '*' || c == '+' || c == '-' || c == '.' || c == '^' || c == '_'
    ||| c == '`' || c == '|' || c == '~'
}

/// The lower-case form of an ASCII letter; any other character is kept.
pub open spec fn ascii_lower(c: char) -> char {
    if 'A' <= c <= 'Z' {
        (c as u32 + 32) as char
    } else {
        c
    }
}

/// The key under which a map holds the header that `name` denotes: names are
/// case-insensitive. Text that is no header name denotes no header.
pub open spec fn header_key(name: Seq<char>) -> Option<Seq<char>> {
    if 0 < name.len() <= 65_535 && forall|i: int| 0 <= i < name.len() ==> is_name_char(#[trigger] name[i]) {
        Some(name.map_values(|c: char| ascii_lower(c)))
    } else {
        None
    }
}

/// `fields` without the header that `name` denotes.
pub open spec fn without(fields: Map<Seq<char>, Seq<Seq<u8>>>, name: Seq<char>) -> Map<Seq<char>, Seq<Seq<u8>>> {
    match header_key(name) {
        Some(key) => fields.remove(key),
        None => fields,
    }
}

/// The first value of the header that `name` denotes.
pub open spec fn first_value(fields: Map<Seq<char>, Seq<Seq<u8>>>, name: Seq<char>) -> Option<Seq<u8>> {
    match header_key(name) {
        Some(key) if fields.contains_key(key) => Some(fields[key][0]),
        _ => None,
    }
}

/// All the values of the header that `name` denotes.
pub open spec fn all_values(fields: Map<Seq<char>, Seq<Seq<u8>>>, name: Seq<char>) -> Seq<Seq<u8>> {
    match header_key(name) {
        Some(key) if fields.contains_key(key) => fields[key],
        _ => Seq::empty(),
    }
}

/// The view of an optional header value.
pub open spec fn opt_value_bytes(value: Option<HeaderValue>) -> Option<Seq<u8>> {
    match value {
        Some(v) => Some(value_bytes(v)),
        None => None,
    }
}

/// Calls `HeaderMap::remove`: the header that `name` denotes is removed with
/// all its values, every other header stays as it is, and the first of the
/// removed values is returned. The order of iteration is not described.
#[verifier::external_body]
pub(crate) fn remove(headers: &mut HeaderMap<HeaderValue>, name: &str) -> (value: Option<HeaderValue>)
    ensures
        header_fields(*final(headers)) == without(header_fields(*old(headers)), name@),
        opt_value_bytes(value) == first_value(header_fields(*old(headers)), name@),
{
    headers.remove(name)
}

/// The bytes of each of the values.
pub open spec fn values_bytes(values: Seq<HeaderValue>) -> Seq<Seq<u8>> {
    values.map_values(|value: HeaderValue| value_bytes(value))
}

/// Calls `HeaderMap::get_all`: copies of all the values of the header that
/// `name` denotes, in the order in which they were added.
#[verifier::external_body]
pub(crate) fn get_all(headers: &HeaderMap<HeaderValue>, name: &str) -> (values: Vec<HeaderValue>)
    ensures
        values_bytes(values@) == all_values(header_fields(*headers), name@),
{
    headers.get_all(name).iter().cloned().collect()
}

/// Calls the comparison of `HeaderValue` with `str`: byte for byte.
#[verifier::external_body]
pub(crate) fn value_eq(value: &HeaderValue, text: &str) -> (same: bool)
    ensures
        same == (value_bytes(*value) == vstd::utf8::encode_utf8(text@)),
{
    *value == *text
}

/// Bytes of a value that can be read as text: visible ASCII, the space and the tab.
pub open spec fn is_text_byte(b: u8) -> bool {
    32 <= b < 127 || b == 9
}

/// Bytes as characters, one for one.
pub open spec fn as_text(bytes: Seq<u8>) -> Seq<char> {
    bytes.map_values(|b: u8| b as char)
}

/// Calls `HeaderValue::to_str`: the value as text, if every byte is visible
/// ASCII, a space or a tab.
#[verifier::external_body]
pub(crate) fn to_str(value: &HeaderValue) -> (text: Option<&str>)
    ensures
        text is Some <==> forall|i: int|
            0 <= i < value_bytes(*value).len() ==> is_text_byte(#[trigger] value_bytes(*value)[i]),
        text matches Some(t) ==> t@ == as_text(value_bytes(*value)),
{
    value.to_str().ok()
}

/// Two names that differ at most in the case of ASCII letters denote the same header.
pub proof fn law_names_ignore_case(one: Seq<char>, other: Seq<char>)
    requires
        one.len() == other.len(),
        forall|i: int| #![trigger one[i]] #![trigger other[i]]
            0 <= i < one.len() ==> {
                ||| one[i] == other[i]
                ||| 'A' <= one[i] <= 'Z' && other[i] as int == one[i] as int + 32
                ||| 'A' <= other[i] <= 'Z' && one[i] as int == other[i] as int + 32
            },
    ensures
        header_key(one) == header_key(other),
{
    assert forall|i: int| 0 <= i < one.len() implies is_name_char(#[trigger] one[i]) == is_name_char(other[i])
        && ascii_lower(one[i]) == ascii_lower(other[i]) by {}
    assert(one.map_values(|c: char| ascii_lower(c)) =~= other.map_values(|c: char| ascii_lower(c)));
    assert((forall|i: int| 0 <= i < one.len() ==> is_name_char(#[trigger] one[i])) == (forall|i: int|
        0 <= i < other.len() ==> is_name_char(#[trigger] other[i])));
}

} // verus!
