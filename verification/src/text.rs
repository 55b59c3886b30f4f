//! Text: lossy UTF-8 decoding and shared strings.

use std::sync::Arc;
use vstd::prelude::*;

verus! {

/// The text that `String::from_utf8_lossy` makes of a byte string that is not
/// valid UTF-8: every invalid sequence is replaced by U+FFFD.
pub uninterp spec fn repaired_utf8(bytes: Seq<u8>) -> Seq<char>;

/// The text that a byte string stands for. Valid UTF-8 stands for what it
/// encodes; anything else is repaired.
pub open spec fn lossy_text(bytes: Seq<u8>) -> Seq<char> {
    if vstd::utf8::valid_utf8(bytes) {
        vstd::utf8::decode_utf8(bytes)
    } else {
        repaired_utf8(bytes)
    }
}

/// Calls `String::from_utf8_lossy`. The result is what the bytes encode, if
/// they are valid UTF-8. For other bytes the result is a function of the bytes
/// alone. It is empty only if there are no bytes, since invalid ones are replaced
/// and never left out.
#[verifier::external_body]
pub(crate) fn decode_lossy(bytes: &[u8]) -> (text: String)
    ensures
        text@ == if vstd::utf8::valid_utf8(bytes@) {
            vstd::utf8::decode_utf8(bytes@)
        } else {
            repaired_utf8(bytes@)
        },
        bytes@.len() > 0 ==> text@.len() > 0,
{
    String::from_utf8_lossy(bytes).into_owned()
}

/// Calls `Arc::<str>::from(String)`, which keeps the text.
#[verifier::external_body]
pub(crate) fn share_text(text: String) -> (shared: Arc<str>)
    ensures
        (*shared)@ == text@,
{
    Arc::from(text)
}

/// Calls `Arc::clone`, which returns another handle to the same text.
#[verifier::external_body]
pub(crate) fn share_again(text: &Arc<str>) -> (shared: Arc<str>)
    ensures
        shared == *text,
{
    Arc::clone(text)
}

/// The text of an optional shared string.
pub open spec fn id_text(id: Option<Arc<str>>) -> Option<Seq<char>> {
    match id {
        Some(id) => Some((*id)@),
        None => None,
    }
}

/// Another handle to the same optional shared string.
pub(crate) fn clone_id(id: &Option<Arc<str>>) -> (copy: Option<Arc<str>>)
    ensures
        copy == *id,
{
    match id {
        Some(id) => Some(share_again(id)),
        None => None,
    }
}

/// Valid UTF-8 is read as what it encodes.
pub proof fn law_lossy_text(text: Seq<char>)
    ensures
        lossy_text(vstd::utf8::encode_utf8(text)) == text,
{
    vstd::utf8::encode_utf8_valid_utf8(text);
    vstd::utf8::encode_utf8_decode_utf8(text);
}

} // verus!
