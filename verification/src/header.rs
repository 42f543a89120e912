//! HTTP header values as text.
use axum::http::HeaderValue;
use vstd::prelude::*;
use vstd::string::*;

verus! {

/// Visible ASCII, the space and the tab: what header text is made of.
pub open spec fn is_text_byte(b: u8) -> bool {
    32 <= b < 127 || b == 9
}

/// The text of a raw header value, where it is text.
pub open spec fn text_of(raw: Seq<u8>) -> Option<Seq<char>> {
    if forall|i: int| 0 <= i < raw.len() ==> is_text_byte(#[trigger] raw[i]) {
        Some(raw.map_values(|b: u8| b as char))
    } else {
        None
    }
}

/// What may travel in a header value: anything but control characters other
/// than the tab.
pub open spec fn is_value_byte(b: u8) -> bool {
    (b >= 32 && b != 127) || b == 9
}

/// `text` may stand as a header value.
pub open spec fn is_header_value(text: Seq<char>) -> bool {
    let bytes = vstd::utf8::encode_utf8(text);
    forall|i: int| 0 <= i < bytes.len() ==> is_value_byte(#[trigger] bytes[i])
}

/// The text of a raw header value, read by `HeaderValue::to_str`.
///
/// It is given back where every byte is visible ASCII, a space or a tab, and
/// is then those bytes, one character each. Bytes that no header value can hold
/// give nothing, as they are no text either.
#[verifier::external_body]
pub(crate) fn header_text(raw: &[u8]) -> (text: Option<String>)
    ensures
        match text {
            Some(text) => text_of(raw@) == Some(text@),
            None => text_of(raw@) is None,
        },
{
    let value: HeaderValue = HeaderValue::from_bytes(raw).ok()?;
    value.to_str().ok().map(|text| text.to_owned())
}

/// Whether `HeaderValue::from_str` takes `text`: it does where no byte of its
/// UTF-8 form is a control character other than the tab.
#[verifier::external_body]
pub(crate) fn is_valid_header_value(text: &str) -> (answer: bool)
    ensures
        answer == is_header_value(text@),
{
    HeaderValue::from_str(text).is_ok()
}

} // verus!
