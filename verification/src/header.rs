//! The header fields of a request.

use reqwest::header::{HeaderValue, InvalidHeaderValue};
use std::sync::Arc;
use vstd::prelude::*;

use crate::content_type::TAB;

verus! {

/// Declares `reqwest::header::HeaderValue`. Nothing is claimed of it.
#[verifier::external_type_specification]
#[verifier::external_body]
pub struct ExHeaderValue(HeaderValue);

/// Declares `reqwest::header::InvalidHeaderValue`. Nothing is claimed of it.
#[verifier::external_type_specification]
#[verifier::external_body]
pub struct ExInvalidHeaderValue(InvalidHeaderValue);

/// The bytes that a [`HeaderValue`] holds.
pub uninterp spec fn header_value_bytes(value: HeaderValue) -> Seq<u8>;

/// Whether a byte may stand in a header value: any but a control character
/// other than the tab.
pub open spec fn is_header_byte(b: u8) -> bool {
    b >= 0x20 && b != 0x7f || b == TAB
}

/// Whether a text can be a header value.
pub open spec fn is_header_text(text: Seq<char>) -> bool {
    forall|i: int|
        0 <= i < vstd::utf8::encode_utf8(text).len() ==> is_header_byte(
            #[trigger] vstd::utf8::encode_utf8(text)[i],
        )
}

/// Calls `HeaderValue::from_str`. It takes over the bytes of the text, if each
/// of them may stand in a header value, and returns an error otherwise.
#[verifier::external_body]
fn header_value(text: &str) -> (result: Result<HeaderValue, InvalidHeaderValue>)
    ensures
        result is Ok <==> is_header_text(text@),
        result matches Ok(value) ==> header_value_bytes(value) == vstd::utf8::encode_utf8(text@),
{
    HeaderValue::from_str(text)
}

/// A header field to add to a request.
pub struct HeaderField {
    /// The name. Case does not count.
    pub name: &'static str,
    /// The value.
    pub value: HeaderValue,
}

impl View for HeaderField {
    type V = (Seq<char>, Seq<u8>);

    open spec fn view(&self) -> (Seq<char>, Seq<u8>) {
        (self.name@, header_value_bytes(self.value))
    }
}

/// The names and values of header fields.
pub open spec fn fields_view(fields: Seq<HeaderField>) -> Seq<(Seq<char>, Seq<u8>)> {
    Seq::new(fields.len(), |i: int| fields[i]@)
}

/// The header fields that ask for an event stream, past the event with the
/// given ID.
pub open spec fn connection_fields(last_event_id: Option<Seq<char>>) -> Seq<(Seq<char>, Seq<u8>)> {
    let fields = seq![
        ("Accept"@, vstd::utf8::encode_utf8("text/event-stream"@)),
        ("Cache-Control"@, vstd::utf8::encode_utf8("no-store"@)),
    ];
    match last_event_id {
        None => fields,
        Some(id) => fields.push(("Last-Event-ID"@, vstd::utf8::encode_utf8(id))),
    }
}

/// An ASCII text without control characters can be a header value.
proof fn lemma_ascii_header_text(text: Seq<char>)
    requires
        forall|i: int| 0 <= i < text.len() ==> ' ' <= #[trigger] text[i] <= '~',
    ensures
        is_header_text(text),
{
    assert(vstd::utf8::is_ascii_chars(text));
    vstd::utf8::is_ascii_chars_encode_utf8(text);
}

/// Assembles the header fields that ask for an event stream, past the event with
/// the given ID.
pub fn connection_headers(last_event_id: Option<&Arc<str>>) -> (result: Result<
    Vec<HeaderField>,
    InvalidHeaderValue,
>)
    ensures
        result is Ok <==> (last_event_id matches Some(id) ==> is_header_text((**id)@)),
        result matches Ok(fields) ==> fields_view(fields@) == connection_fields(
            match last_event_id {
                Some(id) => Some((**id)@),
                None => None,
            },
        ),
{
    proof {
        reveal_strlit("text/event-stream");
        reveal_strlit("no-store");
        lemma_ascii_header_text("text/event-stream"@);
        lemma_ascii_header_text("no-store"@);
    }
    let mut fields = Vec::new();
    fields.push(HeaderField { name: "Accept", value: header_value("text/event-stream")? });
    fields.push(HeaderField { name: "Cache-Control", value: header_value("no-store")? });
    if let Some(id) = last_event_id {
        fields.push(HeaderField { name: "Last-Event-ID", value: header_value(id)? });
    }
    Ok(fields)
}

/// A text can be a header value exactly if none of its bytes is a control
/// character, other than the tab.
pub proof fn law_header_text(text: Seq<char>)
    ensures
        is_header_text(text) <==> forall|i: int|
            0 <= i < vstd::utf8::encode_utf8(text).len() ==> {
                let b = #[trigger] vstd::utf8::encode_utf8(text)[i];
                b != 0x7f && (b >= 0x20 || b == 0x09)
            },
{
}

/// Every request asks for an event stream that is not taken from a cache. One that
/// resumes differs from one that does not by the ID alone, which it carries
/// unchanged.
pub proof fn law_connection_fields(id: Seq<char>)
    ensures
        connection_fields(None) == seq![
            ("Accept"@, vstd::utf8::encode_utf8("text/event-stream"@)),
            ("Cache-Control"@, vstd::utf8::encode_utf8("no-store"@)),
        ],
        connection_fields(Some(id)).len() == 3,
        connection_fields(Some(id)).drop_last() == connection_fields(None),
        connection_fields(Some(id)).last() == (
            "Last-Event-ID"@,
            vstd::utf8::encode_utf8(id),
        ),
{
}

} // verus!
