//! Request headers: what a header map holds under a name, and when a value
//! is text.

use crate::text::push_char;
use vstd::prelude::*;

verus! {

/// The header map of the `http` crate, `http::HeaderMap`. Nothing is known
/// of what is inside but through `header_values`.
#[verifier::external_type_specification]
#[verifier::external_body]
#[verifier::reject_recursive_types(T)]
pub struct ExHeaderMap<T>(http::HeaderMap<T>);

/// The header value of the `http` crate, `http::HeaderValue`: the type of
/// what a header map holds.
#[verifier::external_type_specification]
#[verifier::external_body]
pub struct ExHeaderValue(http::HeaderValue);

/// What a header map holds: for each header name under which a value is
/// stored, the bytes of the first value stored under it. A name stands for a
/// header whatever the case of its ASCII letters; a string that is no valid
/// header name is no key.
pub uninterp spec fn header_values(headers: http::HeaderMap<http::HeaderValue>) -> Map<
    Seq<char>,
    Seq<u8>,
>;

/// The bytes of the first value stored under `name`.
///
/// Trusted: this is `HeaderMap::get` with a string as the key, followed by
/// `HeaderValue::as_bytes`. `get` hands out the first value stored under the
/// name, and none where there is no value or the string is no header name; it
/// does not panic.
#[verifier::external_body]
pub(crate) fn first_value(headers: &http::HeaderMap<http::HeaderValue>, name: &str) -> (r: Option<
    Vec<u8>,
>)
    ensures
        match r {
            Some(v) => header_values(*headers).contains_key(name@) && header_values(
                *headers,
            )[name@] == v@,
            None => !header_values(*headers).contains_key(name@),
        },
{
    headers.get(name).map(|v| v.as_bytes().to_vec())
}

/// Whether a byte is a visible ASCII character, a space or a tab.
pub open spec fn is_visible_ascii(b: u8) -> bool {
    (32 <= b < 127) || b == 9
}

/// Whether every byte is a visible ASCII character, a space or a tab.
pub open spec fn all_visible(bytes: Seq<u8>) -> bool {
    forall|i: int| 0 <= i < bytes.len() ==> is_visible_ascii(#[trigger] bytes[i])
}

/// The characters that ASCII bytes stand for.
pub open spec fn ascii_text(bytes: Seq<u8>) -> Seq<char> {
    Seq::new(bytes.len(), |i: int| bytes[i] as char)
}

/// The text of a header value: its characters where every byte is visible
/// ASCII, and none otherwise.
pub open spec fn value_text(bytes: Seq<u8>) -> Option<Seq<char>> {
    if all_visible(bytes) {
        Some(ascii_text(bytes))
    } else {
        None
    }
}

/// The text of the first value stored under `name`, where there is one and
/// it is text.
pub open spec fn header_text_of(values: Map<Seq<char>, Seq<u8>>, name: Seq<char>) -> Option<
    Seq<char>,
> {
    if values.contains_key(name) {
        value_text(values[name])
    } else {
        None
    }
}

/// The text of a header value, where every byte of it is visible ASCII.
pub fn visible_text(bytes: &[u8]) -> (r: Option<String>)
    ensures
        r.deep_view() == value_text(bytes@),
{
    let mut s = String::new();
    let mut i: usize = 0;
    while i < bytes.len()
        invariant
            i <= bytes.len(),
            s@ == ascii_text(bytes@.take(i as int)),
            all_visible(bytes@.take(i as int)),
        decreases bytes.len() - i,
    {
        let b = bytes[i];
        if !((32 <= b && b < 127) || b == 9) {
            assert(!is_visible_ascii(bytes@[i as int]));
            return None;
        }
        push_char(&mut s, b as char);
        i += 1;
        assert(ascii_text(bytes@.take(i as int)) =~= ascii_text(bytes@.take(i - 1)).push(
            bytes@[i - 1] as char,
        ));
        assert forall|j: int| 0 <= j < i implies is_visible_ascii(
            #[trigger] bytes@.take(i as int)[j],
        ) by {
            if j < i - 1 {
                assert(bytes@.take(i - 1)[j] == bytes@[j]);
            }
        }
    }
    assert(bytes@.take(bytes.len() as int) == bytes@);
    Some(s)
}

/// The text of the first value stored under `name`, where there is one and
/// it is text.
pub fn header_text(headers: &http::HeaderMap<http::HeaderValue>, name: &str) -> (r: Option<String>)
    ensures
        r.deep_view() == header_text_of(header_values(*headers), name@),
{
    match first_value(headers, name) {
        Some(v) => visible_text(v.as_slice()),
        None => None,
    }
}

} // verus!
