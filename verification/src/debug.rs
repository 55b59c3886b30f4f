//! Texts for debugging, in which long values are cut short.

use std::sync::Arc;
use vstd::prelude::*;
use vstd::string::StringExecFns;

use crate::grammar::{DecoderView, ModeView, ValueMode, ValueView};

verus! {

/// The number of bytes of a value that are shown.
pub const MAX_DEBUG_SIZE: usize = 200;

/// The text that `<str as Debug>::fmt` writes: the string in quotation marks,
/// with the characters escaped that do not stand for themselves.
pub uninterp spec fn quoted_text(text: Seq<char>) -> Seq<char>;

/// The text that `str::escape_debug` makes of a string.
pub uninterp spec fn escaped_text(text: Seq<char>) -> Seq<char>;

/// The pieces that `<[u8]>::utf8_chunks` cuts a byte string into: each is a
/// string of valid UTF-8 and the invalid bytes that follow it.
pub uninterp spec fn utf8_pieces(bytes: Seq<u8>) -> Seq<(Seq<char>, Seq<u8>)>;

/// Calls `<str as Debug>::fmt`. The result is a function of the text alone, and
/// nothing more is claimed of it.
#[verifier::external_body]
fn quote(text: &str) -> (quoted: String)
    ensures
        quoted@ == quoted_text(text@),
{
    format!("{:?}", text)
}

/// Calls `str::escape_debug`. The result is a function of the text alone, and
/// nothing more is claimed of it.
#[verifier::external_body]
fn escape(text: &str) -> (escaped: String)
    ensures
        escaped@ == escaped_text(text@),
{
    text.escape_debug().to_string()
}

/// Calls `<[u8]>::utf8_chunks`, and copies what it yields. The result is a
/// function of the bytes alone, and nothing more is claimed of it.
#[verifier::external_body]
fn cut_utf8(bytes: &[u8]) -> (pieces: Vec<(String, Vec<u8>)>)
    ensures
        pieces_view(pieces@) == utf8_pieces(bytes@),
{
    bytes.utf8_chunks().map(|piece| (piece.valid().to_owned(), piece.invalid().to_vec())).collect()
}

/// A digit, of the decimal or the hexadecimal system.
pub open spec fn digit_text(digit: int) -> Seq<char> {
    "0123456789ABCDEF"@.subrange(digit, digit + 1)
}

/// A number in the decimal system.
pub open spec fn decimal_text(n: nat) -> Seq<char>
    decreases n,
{
    if n < 10 {
        digit_text(n as int)
    } else {
        decimal_text(n / 10) + digit_text((n % 10) as int)
    }
}

/// A byte as an escape sequence.
pub open spec fn byte_text(b: u8) -> Seq<char> {
    "\\x"@ + digit_text((b / 16) as int) + digit_text((b % 16) as int)
}

/// Bytes as escape sequences.
pub open spec fn bytes_text(bytes: Seq<u8>) -> Seq<char>
    decreases bytes.len(),
{
    if bytes.len() == 0 {
        Seq::empty()
    } else {
        bytes_text(bytes.drop_last()) + byte_text(bytes.last())
    }
}

/// How many bytes a value has that is not shown in full.
pub open spec fn total_text(len: nat) -> Seq<char> {
    "... ("@ + decimal_text(len) + " bytes total)"@
}

/// The last place up to `end` at which a string can be cut.
pub open spec fn boundary_up_to(bytes: Seq<u8>, end: nat) -> nat
    decreases end,
{
    if end == 0 || vstd::utf8::is_char_boundary(bytes, end as int) {
        end
    } else {
        boundary_up_to(bytes, (end - 1) as nat)
    }
}

/// A string, cut short and quoted.
pub open spec fn shown_text(text: Seq<char>) -> Seq<char> {
    let bytes = vstd::utf8::encode_utf8(text);
    let end = boundary_up_to(
        bytes,
        if bytes.len() < MAX_DEBUG_SIZE {
            bytes.len()
        } else {
            MAX_DEBUG_SIZE as nat
        },
    );
    let quoted = quoted_text(vstd::utf8::decode_utf8(bytes.take(end as int)));
    if end < bytes.len() {
        quoted + total_text(bytes.len())
    } else {
        quoted
    }
}

/// The first `n` pieces of a byte string. If the string was cut short, the
/// invalid bytes at its very end are left out: they are almost certainly just a
/// sliced character.
pub open spec fn pieces_text(pieces: Seq<(Seq<char>, Seq<u8>)>, n: nat, truncated: bool) -> Seq<char>
    decreases n,
{
    if n == 0 {
        Seq::empty()
    } else {
        let (valid, invalid) = pieces[n - 1];
        let before = pieces_text(pieces, (n - 1) as nat, truncated) + escaped_text(valid);
        if truncated && n == pieces.len() {
            before
        } else {
            before + bytes_text(invalid)
        }
    }
}

/// A byte string, cut short and quoted.
pub open spec fn shown_bytes(bytes: Seq<u8>) -> Seq<char> {
    let truncated = bytes.len() > MAX_DEBUG_SIZE;
    let pieces = utf8_pieces(
        if truncated {
            bytes.take(MAX_DEBUG_SIZE as int)
        } else {
            bytes
        },
    );
    let quoted = "\""@ + pieces_text(pieces, pieces.len(), truncated) + "\""@;
    if truncated {
        quoted + total_text(bytes.len())
    } else {
        quoted
    }
}

/// An optional string.
pub open spec fn shown_id(id: Option<Seq<char>>) -> Seq<char> {
    match id {
        Some(id) => "Some("@ + shown_text(id) + ")"@,
        None => "None"@,
    }
}

/// An optional number.
pub open spec fn shown_number(n: Option<u32>) -> Seq<char> {
    match n {
        Some(n) => "Some("@ + decimal_text(n as nat) + ")"@,
        None => "None"@,
    }
}

/// The kind of a known field.
pub open spec fn field_text(field: ValueMode) -> Seq<char> {
    match field {
        ValueMode::Data => "Data"@,
        ValueMode::Event => "Event"@,
        ValueMode::Retry => "Retry"@,
        ValueMode::Id => "Id"@,
    }
}

/// Where in the format the next byte stands.
pub open spec fn mode_text(mode: ModeView) -> Seq<char> {
    match mode {
        ModeView::Bom(n) => "Bom { bytes_read: "@ + decimal_text(n) + " }"@,
        ModeView::Field(name) => "Field(FieldMode("@ + shown_bytes(name) + "))"@,
        ModeView::PostColon(field) => "PostColon("@ + field_text(field) + ")"@,
        ModeView::Value(ValueView::Data) => "Value("@ + field_text(ValueMode::Data) + ")"@,
        ModeView::Value(ValueView::Event) => "Value("@ + field_text(ValueMode::Event) + ")"@,
        ModeView::Value(ValueView::Retry(_)) => "Value("@ + field_text(ValueMode::Retry) + ")"@,
        ModeView::Value(ValueView::Id(_)) => "Value("@ + field_text(ValueMode::Id) + ")"@,
        ModeView::Ignore => "Ignore"@,
        ModeView::PostCr => "PostCr"@,
    }
}

/// A decoder. Besides its state it has the bytes of the last ID and the last
/// reconnection time that it has seen, or is about to see the end of.
pub open spec fn decoder_text(
    decoder: DecoderView,
    id_buf: Seq<u8>,
    retry_buf: Option<u32>,
) -> Seq<char> {
    "SseDecoder { mode: "@ + mode_text(decoder.mode) + ", last_event_id: "@ + shown_id(
        decoder.last_event_id,
    ) + ", staged_last_event_id: "@ + shown_id(decoder.staged_id) + ", last_event_id_buf: "@
        + shown_bytes(id_buf) + ", event_buf: "@ + shown_bytes(decoder.event) + ", data_buf: "@
        + shown_bytes(decoder.data) + ", retry_buf: "@ + shown_number(retry_buf)
        + ", max_payload_size: "@ + decimal_text(decoder.limit) + " }"@
}

/// Writes a digit.
fn write_digit(out: &mut String, digit: usize)
    requires
        digit < 16,
    ensures
        final(out)@ == old(out)@ + digit_text(digit as int),
{
    let digits = "0123456789ABCDEF";
    proof {
        reveal_strlit("0123456789ABCDEF");
    }
    out.append(digits.substring_ascii(digit, digit + 1));
}

/// Writes a number in the decimal system.
pub(crate) fn write_decimal(out: &mut String, n: usize)
    ensures
        final(out)@ == old(out)@ + decimal_text(n as nat),
    decreases n,
{
    if n >= 10 {
        write_decimal(out, n / 10);
    }
    write_digit(out, n % 10);
}

/// Writes bytes as escape sequences.
fn write_bytes(out: &mut String, bytes: &[u8])
    ensures
        final(out)@ == old(out)@ + bytes_text(bytes@),
{
    let mut i: usize = 0;
    while i < bytes.len()
        invariant
            i <= bytes@.len(),
            out@ == old(out)@ + bytes_text(bytes@.take(i as int)),
        decreases bytes@.len() - i,
    {
        let b: usize = bytes[i] as usize;
        out.append("\\x");
        write_digit(out, b / 16);
        write_digit(out, b % 16);
        i += 1;
        assert(bytes@.take(i as int).drop_last() == bytes@.take(i - 1));
    }
    assert(bytes@.take(i as int) == bytes@);
}

/// Writes how many bytes a value has that is not shown in full.
fn write_total(out: &mut String, len: usize)
    ensures
        final(out)@ == old(out)@ + total_text(len as nat),
{
    out.append("... (");
    write_decimal(out, len);
    out.append(" bytes total)");
}

/// Writes a string, cut short and quoted.
pub(crate) fn write_text(out: &mut String, text: &str)
    ensures
        final(out)@ == old(out)@ + shown_text(text@),
{
    let ghost bytes = vstd::utf8::encode_utf8(text@);
    proof {
        vstd::utf8::encode_utf8_valid_utf8(text@);
        vstd::utf8::is_char_boundary_start_end_of_seq(bytes);
    }
    let len: usize = text.as_bytes().len();
    let most: usize = if len < MAX_DEBUG_SIZE {
        len
    } else {
        MAX_DEBUG_SIZE
    };
    let mut end: usize = most;
    while !text.is_char_boundary(end)
        invariant
            bytes == vstd::utf8::encode_utf8(text@),
            vstd::utf8::is_char_boundary(bytes, 0),
            end <= most <= bytes.len(),
            boundary_up_to(bytes, most as nat) == boundary_up_to(bytes, end as nat),
        decreases end,
    {
        end -= 1;
    }
    let (shown, _) = text.split_at(end);
    proof {
        vstd::utf8::encode_utf8_decode_utf8(shown@);
        assert(bytes.take(end as int) == vstd::utf8::encode_utf8(shown@));
    }
    out.append(quote(shown).as_str());
    if end < len {
        write_total(out, len);
    }
}

/// The texts and the bytes of pieces.
pub open spec fn pieces_view(pieces: Seq<(String, Vec<u8>)>) -> Seq<(Seq<char>, Seq<u8>)> {
    Seq::new(pieces.len(), |i: int| (pieces[i].0@, pieces[i].1@))
}

/// Writes the pieces of a byte string, which was cut short or not.
pub fn write_pieces(out: &mut String, pieces: &Vec<(String, Vec<u8>)>, truncated: bool)
    ensures
        final(out)@ == old(out)@ + pieces_text(pieces_view(pieces@), pieces@.len(), truncated),
{
    let mut i: usize = 0;
    while i < pieces.len()
        invariant
            i <= pieces@.len(),
            out@ == old(out)@ + pieces_text(pieces_view(pieces@), i as nat, truncated),
        decreases pieces@.len() - i,
    {
        let (valid, invalid) = &pieces[i];
        out.append(escape(valid.as_str()).as_str());
        i += 1;
        if !(truncated && i == pieces.len()) {
            write_bytes(out, invalid.as_slice());
        }
    }
}

/// Writes a byte string, cut short and quoted.
pub(crate) fn write_buf(out: &mut String, bytes: &[u8])
    ensures
        final(out)@ == old(out)@ + shown_bytes(bytes@),
{
    let truncated = bytes.len() > MAX_DEBUG_SIZE;
    let pieces = if truncated {
        cut_utf8(vstd::slice::slice_subrange(bytes, 0, MAX_DEBUG_SIZE))
    } else {
        cut_utf8(bytes)
    };
    out.append("\"");
    write_pieces(out, &pieces, truncated);
    out.append("\"");
    if truncated {
        write_total(out, bytes.len());
    }
}

/// Writes an optional string.
pub(crate) fn write_id(out: &mut String, id: Option<&Arc<str>>)
    ensures
        final(out)@ == old(out)@ + shown_id(
            match id {
                Some(id) => Some((**id)@),
                None => None,
            },
        ),
{
    match id {
        Some(id) => {
            out.append("Some(");
            write_text(out, id);
            out.append(")");
        },
        None => out.append("None"),
    }
}

/// Writes an optional number.
pub(crate) fn write_number(out: &mut String, n: Option<u32>)
    ensures
        final(out)@ == old(out)@ + shown_number(n),
{
    match n {
        Some(n) => {
            out.append("Some(");
            write_decimal(out, n as usize);
            out.append(")");
        },
        None => out.append("None"),
    }
}

/// Writes the kind of a known field.
pub(crate) fn write_field(out: &mut String, field: ValueMode)
    ensures
        final(out)@ == old(out)@ + field_text(field),
{
    out.append(
        match field {
            ValueMode::Data => "Data",
            ValueMode::Event => "Event",
            ValueMode::Retry => "Retry",
            ValueMode::Id => "Id",
        },
    );
}

/// The number that decimal digits stand for.
pub open spec fn digits_value(text: Seq<char>) -> int
    decreases text.len(),
{
    if text.len() == 0 {
        0
    } else {
        digits_value(text.drop_last()) * 10 + (text.last() as int - '0' as int)
    }
}

/// A number is written in the decimal system, without a zero in front.
pub proof fn law_decimal_text(n: nat)
    ensures
        digits_value(decimal_text(n)) == n,
        decimal_text(n).len() > 0,
        forall|i: int|
            0 <= i < decimal_text(n).len() ==> '0' <= #[trigger] decimal_text(n)[i] <= '9',
        n > 0 ==> decimal_text(n)[0] != '0',
    decreases n,
{
    reveal_strlit("0123456789ABCDEF");
    let text = decimal_text(n);
    let digit = digit_text((n % 10) as int);
    assert(digit.len() == 1);
    assert(digit[0] as int - '0' as int == n % 10);
    if n < 10 {
        assert(text == digit);
        assert(text.drop_last() == Seq::<char>::empty());
        assert(digits_value(text.drop_last()) == 0);
    } else {
        law_decimal_text(n / 10);
        assert(text.drop_last() == decimal_text(n / 10));
        assert(text.last() == digit[0]);
        assert(digits_value(text) == (n / 10) * 10 + n % 10);
    }
}

/// A string of up to 200 bytes is shown in full.
pub proof fn law_short_text(text: Seq<char>)
    requires
        vstd::utf8::encode_utf8(text).len() <= 200,
    ensures
        shown_text(text) == quoted_text(text),
{
    let bytes = vstd::utf8::encode_utf8(text);
    vstd::utf8::encode_utf8_valid_utf8(text);
    vstd::utf8::encode_utf8_decode_utf8(text);
    vstd::utf8::is_char_boundary_start_end_of_seq(bytes);
    assert(bytes.take(bytes.len() as int) == bytes);
}

/// A longer string is cut at the last place up to 200 bytes at which it can be
/// cut, and its length is given.
pub proof fn law_long_text(text: Seq<char>) -> (end: nat)
    requires
        vstd::utf8::encode_utf8(text).len() > 200,
    ensures
        ({
            let bytes = vstd::utf8::encode_utf8(text);
            &&& end <= 200
            &&& vstd::utf8::is_char_boundary(bytes, end as int)
            &&& forall|i: int|
                end < i <= 200 ==> !#[trigger] vstd::utf8::is_char_boundary(bytes, i)
            &&& shown_text(text) == quoted_text(vstd::utf8::decode_utf8(bytes.take(end as int)))
                + "... ("@ + decimal_text(bytes.len()) + " bytes total)"@
        }),
{
    let bytes = vstd::utf8::encode_utf8(text);
    vstd::utf8::encode_utf8_valid_utf8(text);
    lemma_boundary(bytes, 200);
    let end = boundary_up_to(bytes, 200);
    let quoted = quoted_text(vstd::utf8::decode_utf8(bytes.take(end as int)));
    assert(quoted + total_text(bytes.len()) == quoted + "... ("@ + decimal_text(bytes.len())
        + " bytes total)"@);
    end
}

/// The last boundary up to `end` is one, and there is none behind it.
proof fn lemma_boundary(bytes: Seq<u8>, end: nat)
    requires
        vstd::utf8::valid_utf8(bytes),
    ensures
        boundary_up_to(bytes, end) <= end,
        vstd::utf8::is_char_boundary(bytes, boundary_up_to(bytes, end) as int),
        forall|i: int|
            boundary_up_to(bytes, end) < i <= end ==> !#[trigger] vstd::utf8::is_char_boundary(
                bytes,
                i,
            ),
    decreases end,
{
    vstd::utf8::is_char_boundary_start_end_of_seq(bytes);
    if end > 0 && !vstd::utf8::is_char_boundary(bytes, end as int) {
        lemma_boundary(bytes, (end - 1) as nat);
    }
}

/// A byte string of up to 200 bytes is shown in full, and of a longer one the
/// first 200 bytes and the length.
pub proof fn law_shown_bytes(bytes: Seq<u8>)
    ensures
        bytes.len() <= 200 ==> shown_bytes(bytes) == "\""@ + pieces_text(
            utf8_pieces(bytes),
            utf8_pieces(bytes).len(),
            false,
        ) + "\""@,
        bytes.len() > 200 ==> shown_bytes(bytes) == "\""@ + pieces_text(
            utf8_pieces(bytes.take(200)),
            utf8_pieces(bytes.take(200)).len(),
            true,
        ) + "\""@ + "... ("@ + decimal_text(bytes.len()) + " bytes total)"@,
{
    if bytes.len() > 200 {
        let quoted = "\""@ + pieces_text(
            utf8_pieces(bytes.take(200)),
            utf8_pieces(bytes.take(200)).len(),
            true,
        ) + "\""@;
        assert(quoted + total_text(bytes.len()) == quoted + "... ("@ + decimal_text(bytes.len())
            + " bytes total)"@);
    }
}

/// Every piece adds its valid text and its invalid bytes. Only the invalid bytes at
/// the very end of a string that was cut short are left out.
pub proof fn law_pieces(pieces: Seq<(Seq<char>, Seq<u8>)>, n: nat)
    requires
        n < pieces.len(),
    ensures
        pieces_text(pieces, 0, true).len() == 0,
        pieces_text(pieces, 0, false).len() == 0,
        pieces_text(pieces, n + 1, false) == pieces_text(pieces, n, false) + escaped_text(
            pieces[n as int].0,
        ) + bytes_text(pieces[n as int].1),
        n + 1 < pieces.len() ==> pieces_text(pieces, n + 1, true) == pieces_text(pieces, n, true)
            + escaped_text(pieces[n as int].0) + bytes_text(pieces[n as int].1),
        n + 1 == pieces.len() ==> pieces_text(pieces, n + 1, true) == pieces_text(pieces, n, true)
            + escaped_text(pieces[n as int].0),
{
}

/// Optional values are shown like the options that they are.
pub proof fn law_shown_options(id: Seq<char>, n: u32)
    ensures
        shown_id(None) == "None"@,
        shown_id(Some(id)) == "Some("@ + shown_text(id) + ")"@,
        shown_number(None) == "None"@,
        shown_number(Some(n)) == "Some("@ + decimal_text(n as nat) + ")"@,
{
}

/// An invalid byte is shown as a backslash, an `x`, and two hexadecimal digits.
pub proof fn law_byte_text(b: u8)
    ensures
        byte_text(b).len() == 4,
        byte_text(b)[0] == '\\',
        byte_text(b)[1] == 'x',
        byte_text(b)[2] == "0123456789ABCDEF"@[b as int / 16],
        byte_text(b)[3] == "0123456789ABCDEF"@[b as int % 16],
{
    reveal_strlit("\\x");
    reveal_strlit("0123456789ABCDEF");
}

/// Bytes are shown one after the other.
pub proof fn law_bytes_text(bytes: Seq<u8>, b: u8)
    ensures
        bytes_text(Seq::empty()).len() == 0,
        bytes_text(bytes.push(b)) == bytes_text(bytes) + byte_text(b),
{
    assert(bytes.push(b).drop_last() == bytes);
}

} // verus!
