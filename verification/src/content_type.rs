//! The `Content-Type` of an event stream.

use vstd::prelude::*;

use crate::grammar::SPACE;

verus! {

/// Separates the parameters of a media type from its name.
pub const SEMICOLON: u8 = 0x3b;

/// Horizontal tab.
pub const TAB: u8 = 0x09;

/// The name of the media type of event streams.
pub open spec fn event_stream_type() -> Seq<char> {
    "text/event-stream"@
}

/// A byte with an ASCII upper case letter in lower case.
pub open spec fn lowercase(b: u8) -> u8 {
    if 0x41 <= b <= 0x5a {
        (b + 0x20) as u8
    } else {
        b
    }
}

/// Whether a byte can follow the name of a media type.
pub open spec fn ends_media_type(b: u8) -> bool {
    b == SEMICOLON || b == SPACE || b == TAB
}

/// Whether a header value starts with the media type of event streams, in any
/// case, with nothing but parameters or white space behind it.
pub open spec fn names_event_stream(content_type: Seq<u8>) -> bool {
    let name = event_stream_type();
    &&& content_type.len() >= name.len()
    &&& forall|i: int|
        0 <= i < name.len() ==> lowercase(#[trigger] content_type[i]) as char == name[i]
    &&& content_type.len() > name.len() ==> ends_media_type(content_type[name.len() as int])
}

/// Turns an ASCII upper case letter into lower case.
fn to_lowercase(b: u8) -> (lower: u8)
    ensures
        lower == lowercase(b),
{
    if 0x41 <= b && b <= 0x5a {
        b + 0x20
    } else {
        b
    }
}

/// Returns whether a `Content-Type` header value names the `text/event-stream`
/// media type.
///
/// Media types are case-insensitive, so `Text/Event-Stream` is
/// just as valid as the lowercase spelling. Whatever follows the type must begin a
/// parameter (`;charset=utf-8`) or be optional whitespace, so that near-misses like
/// `text/event-streamx` are still rejected.
pub fn is_event_stream(content_type: &[u8]) -> (named: bool)
    ensures
        named == names_event_stream(content_type@),
{
    let name = "text/event-stream".as_bytes();
    proof {
        reveal_strlit("text/event-stream");
        assert(vstd::string::is_ascii("text/event-stream"));
        assert(name@ =~= Seq::new(
            event_stream_type().len(),
            |i: int| event_stream_type()[i] as u8,
        ));
    }
    if content_type.len() < name.len() {
        return false;
    }
    let mut i: usize = 0;
    while i < name.len()
        invariant
            i <= name@.len() <= content_type@.len(),
            name@.len() == event_stream_type().len(),
            forall|j: int|
                0 <= j < name@.len() ==> #[trigger] name@[j] as char == event_stream_type()[j],
            forall|j: int|
                0 <= j < i ==> lowercase(#[trigger] content_type@[j]) as char
                    == event_stream_type()[j],
        decreases name@.len() - i,
    {
        if to_lowercase(content_type[i]) != name[i] {
            assert(lowercase(content_type@[i as int]) != name@[i as int]);
            assert(lowercase(content_type@[i as int]) as char != name@[i as int] as char);
            return false;
        }
        i += 1;
    }
    if content_type.len() == name.len() {
        return true;
    }
    let next: u8 = content_type[name.len()];
    next == SEMICOLON || next == SPACE || next == TAB
}

/// Case does not count in the name of a media type.
pub proof fn law_media_type_case(content_type: Seq<u8>)
    ensures
        names_event_stream(content_type.map_values(|b: u8| lowercase(b))) == names_event_stream(
            content_type,
        ),
{
    let lower = content_type.map_values(|b: u8| lowercase(b));
    let name = event_stream_type();
    assert forall|i: int| 0 <= i < content_type.len() implies lowercase(#[trigger] lower[i])
        == lowercase(content_type[i]) by {}
    if names_event_stream(lower) {
        assert forall|i: int| 0 <= i < name.len() implies lowercase(#[trigger] content_type[i]) as char
            == name[i] by {
            assert(lowercase(lower[i]) as char == name[i]);
        }
    }
}

/// A header value is accepted exactly if it consists of 17 bytes that spell
/// `text/event-stream`, with letters of either case, and then ends, or goes on with
/// a semicolon, a space or a tab.
pub proof fn law_media_type(content_type: Seq<u8>)
    ensures
        names_event_stream(content_type) <==> {
            &&& content_type.len() >= 17
            &&& forall|i: int|
                0 <= i < 17 ==> {
                    let c = "text/event-stream"@[i];
                    let b = #[trigger] content_type[i];
                    ||| b as char == c
                    ||| 'a' <= c <= 'z' && 0x41 <= b <= 0x5a && (b + 32) as char == c
                }
            &&& content_type.len() == 17 || content_type[17] == 0x3b || content_type[17] == 0x20
                || content_type[17] == 0x09
        },
{
    reveal_strlit("text/event-stream");
    assert(forall|i: int| 0 <= i < 17 ==> !('A' <= #[trigger] "text/event-stream"@[i] <= 'Z'));
    assert(forall|b: u8| 0x41 <= b <= 0x5a ==> 'a' <= #[trigger] lowercase(b) as char <= 'z');
}

} // verus!
