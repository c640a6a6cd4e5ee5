//! Access to the header map of a message.
//!
//! A message keeps its headers in the map of the `http` crate. What such a map
//! holds is named by [`header_values`]; the functions below say over that name
//! what reading, removing and setting a header does.
use http::header::{HeaderMap, HeaderValue};
use vstd::prelude::*;

verus! {

/// The header map of the `http` crate, keyed by header name.
#[verifier::external_type_specification]
#[verifier::external_body]
#[verifier::reject_recursive_types(T)]
pub struct ExHeaderMap<T>(http::header::HeaderMap<T>);

/// A header value of the `http` crate: a byte string.
#[verifier::external_type_specification]
#[verifier::external_body]
pub struct ExHeaderValue(http::header::HeaderValue);

/// What a header map holds: for each (lower-case) header name that occurs in it,
/// the values given for that name, in order.
pub uninterp spec fn header_values(headers: http::header::HeaderMap<http::header::HeaderValue>) -> Map<
    Seq<char>,
    Seq<Seq<u8>>,
>;

/// A header name in the form in which a map keeps it: at most 64 lower-case
/// letters, digits and dashes.
pub open spec fn is_header_name(name: Seq<char>) -> bool {
    &&& 0 < name.len() <= 64
    &&& forall|i: int|
        0 <= i < name.len() ==> ('a' <= #[trigger] name[i] <= 'z' || '0' <= name[i] <= '9'
            || name[i] == '-')
}

/// The first value given for `name`, if the header occurs.
pub open spec fn first_value(
    headers: http::header::HeaderMap<http::header::HeaderValue>,
    name: Seq<char>,
) -> Option<Seq<u8>> {
    if header_values(headers).contains_key(name) {
        Some(header_values(headers)[name][0])
    } else {
        None
    }
}

/// The view of an optional byte string.
pub open spec fn bytes_view(value: Option<Vec<u8>>) -> Option<Seq<u8>> {
    match value {
        Some(v) => Some(v@),
        None => None,
    }
}

/// Calls `http::HeaderMap::get`, which returns the first value kept under a name, and
/// nothing if the name does not occur. The bytes of that value are copied out.
#[verifier::external_body]
pub(crate) fn get_header(headers: &HeaderMap<HeaderValue>, name: &str) -> (value: Option<Vec<u8>>)
    requires
        is_header_name(name@),
    ensures
        bytes_view(value) == first_value(*headers, name@),
{
    headers.get(name).map(|v| v.as_bytes().to_vec())
}

/// Calls `http::HeaderMap::remove`, which takes every value kept under a name out of the
/// map and returns the first of them. No other header changes.
#[verifier::external_body]
pub(crate) fn remove_header(headers: &mut HeaderMap<HeaderValue>, name: &str) -> (value: Option<Vec<u8>>)
    requires
        is_header_name(name@),
    ensures
        bytes_view(value) == first_value(*old(headers), name@),
        header_values(*final(headers)) == header_values(*old(headers)).remove(name@),
{
    headers.remove(name).map(|v| v.as_bytes().to_vec())
}

/// Whether a header can be set: the name occurs already, or there is room for one more.
pub open spec fn takes_header(
    headers: http::header::HeaderMap<http::header::HeaderValue>,
    name: Seq<char>,
) -> bool {
    header_values(headers).contains_key(name) || header_values(headers).dom().len()
        < MAX_HEADER_NAMES
}

/// Tests whether a header can be set.
pub fn can_set_header(headers: &HeaderMap<HeaderValue>, name: &str) -> (r: bool)
    requires
        is_header_name(name@),
    ensures
        r == takes_header(*headers, name@),
{
    get_header(headers, name).is_some() || count_headers(headers) < MAX_HEADER_NAMES
}

/// Whether a byte may stand in a header value.
pub open spec fn is_value_byte(b: u8) -> bool {
    32 <= b && b != 127 || b == 9
}

/// Whether a text may stand in a header value.
pub open spec fn is_header_value(text: Seq<char>) -> bool {
    forall|i: int|
        0 <= i < vstd::utf8::encode_utf8(text).len() ==> is_value_byte(
            #[trigger] vstd::utf8::encode_utf8(text)[i],
        )
}

/// Tests whether a text may stand in a header value.
pub fn fits_header(text: &str) -> (r: bool)
    ensures
        r == is_header_value(text@),
{
    let bytes: &[u8] = text.as_bytes();
    for i in 0..bytes.len()
        invariant
            bytes@ == vstd::utf8::encode_utf8(text@),
            forall|j: int| 0 <= j < i ==> is_value_byte(#[trigger] bytes@[j]),
    {
        let b: u8 = bytes[i];
        if !(32 <= b && b != 127 || b == 9) {
            assert(!is_value_byte(bytes@[i as int]));
            return false;
        }
    }
    true
}

/// Printable ASCII may stand in a header value.
pub proof fn lemma_printable_value(text: Seq<char>)
    requires
        forall|i: int| 0 <= i < text.len() ==> ' ' <= #[trigger] text[i] <= '~',
    ensures
        is_header_value(text),
{
    vstd::utf8::is_ascii_chars_encode_utf8(text);
    let bytes = vstd::utf8::encode_utf8(text);
    assert forall|i: int| 0 <= i < bytes.len() implies is_value_byte(#[trigger] bytes[i]) by {
        assert(' ' <= text[i] <= '~');
    }
}

/// Calls `http::HeaderMap::insert` with a value made by `http::HeaderValue::from_str`: the
/// value takes the place of all values kept under the name. The first panics where a name
/// would be added to a map that holds 32768 names, and the second fails on a text with a
/// control character in it; neither is admitted.
#[verifier::external_body]
pub(crate) fn set_header(headers: &mut HeaderMap<HeaderValue>, name: &'static str, value: &str)
    requires
        is_header_name(name@),
        is_header_value(value@),
        takes_header(*old(headers), name@),
    ensures
        header_values(*final(headers)) == header_values(*old(headers)).insert(
            name@,
            seq![vstd::utf8::encode_utf8(value@)],
        ),
{
    headers.insert(name, HeaderValue::from_str(value).expect("no control characters"));
}

/// Calls `http::HeaderMap::keys_len`, which counts the distinct names in a map.
#[verifier::external_body]
pub(crate) fn count_headers(headers: &HeaderMap<HeaderValue>) -> (n: usize)
    ensures
        n == header_values(*headers).dom().len(),
{
    headers.keys_len()
}

/// Calls `http::HeaderMap::new`, which makes a map without headers.
#[verifier::external_body]
pub(crate) fn no_headers() -> (headers: HeaderMap<HeaderValue>)
    ensures
        header_values(headers) =~= Map::empty(),
{
    HeaderMap::new()
}

/// Calls `http::HeaderMap::clone`, which copies a map with all its values.
#[verifier::external_body]
pub(crate) fn copy_headers(headers: &HeaderMap<HeaderValue>) -> (copy: HeaderMap<HeaderValue>)
    ensures
        header_values(copy) == header_values(*headers),
{
    headers.clone()
}

/// The number of header names at which a map is full.
pub const MAX_HEADER_NAMES: usize = 32768;

/// A text fits into a header value exactly if none of its bytes is a control character, but for
/// tabs.
pub proof fn control_characters_do_not_fit(text: &str, r: bool)
    requires
        call_ensures(fits_header, (text,), r),
    ensures
        r <==> forall|i: int|
            0 <= i < vstd::utf8::encode_utf8(text@).len() ==> {
                let b = #[trigger] vstd::utf8::encode_utf8(text@)[i];
                b == 9 || (b >= 32 && b != 127)
            },
{
}

/// A header can be set exactly if it is there already, or fewer than 32768 others are.
pub proof fn full_maps_take_no_more_names(headers: HeaderMap<HeaderValue>, name: &str, r: bool)
    requires
        call_ensures(can_set_header, (&headers, name), r),
    ensures
        header_values(headers).contains_key(name@) ==> r,
        header_values(headers).dom().len() < 32768 ==> r,
        !header_values(headers).contains_key(name@) && header_values(headers).dom().len() >= 32768
            ==> !r,
{
}

} // verus!
