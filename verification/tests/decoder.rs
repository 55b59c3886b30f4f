use bytes::Bytes;
use core::slice;
use std::borrow::Cow;
use sse_core::debug::write_pieces;
use sse_core::{ByteSource, MessageEvent, PayloadTooLargeError, SseDecoder, SseEvent};

fn message(event: &'static str, data: &str, id: Option<&str>) -> SseEvent {
    SseEvent::Message(MessageEvent {
        event: event.into(),
        data: data.into(),
        last_event_id: id.map(|id| id.into()),
    })
}

/// Everything that a decoder hands out for some bytes, in one buffer.
fn decode(decoder: &mut SseDecoder, bytes: &[u8]) -> Vec<Result<SseEvent, PayloadTooLargeError>> {
    let mut buf = bytes;
    let mut items = vec![];
    loop {
        match decoder.next(&mut buf) {
            Ok(None) => {
                assert!(buf.is_empty());
                return items;
            }
            Ok(Some(event)) => items.push(Ok(event)),
            Err(error) => items.push(Err(error)),
        }
    }
}

fn events(bytes: &[u8]) -> Vec<SseEvent> {
    let mut decoder = SseDecoder::new();
    decode(&mut decoder, bytes)
        .into_iter()
        .map(|item| item.unwrap())
        .collect()
}

fn id_of(decoder: &SseDecoder) -> Option<&str> {
    decoder.last_event_id().map(|id| &**id)
}

#[test]
fn hard_parse() -> Result<(), PayloadTooLargeError> {
    let bytes = "

:

event: my-event\r
data:line1
data: line2
:
id: my-id
:should be ignored too\rretry:42
retry:

data:second

data:ignored
";

    let mut decoder = SseDecoder::new();

    let events = bytes
        .bytes()
        .filter_map(|b| decoder.next(&mut slice::from_ref(&b)).transpose())
        .collect::<Result<Vec<_>, PayloadTooLargeError>>()?;

    let id = Some("my-id".into());

    assert_eq!(
        events,
        &[
            SseEvent::Retry(42),
            SseEvent::Message(MessageEvent {
                event: "my-event".into(),
                data: "line1\nline2".into(),
                last_event_id: id.clone()
            }),
            SseEvent::Message(MessageEvent {
                event: "message".into(),
                data: "second".into(),
                last_event_id: id.clone()
            })
        ]
    );
    Ok(())
}

#[test]
fn fresh_decoder_has_no_id() {
    assert!(SseDecoder::new().last_event_id().is_none());
    assert!(SseDecoder::default().last_event_id().is_none());
}

#[test]
fn a_shared_buffer_is_read_to_its_end() {
    let mut decoder = SseDecoder::new();
    let mut buffer = Bytes::from("data: hello world\n\ndata: rest");
    assert_eq!(
        decoder.next(&mut buffer),
        Ok(Some(message("message", "hello world", None)))
    );
    assert_eq!(&buffer[..], b"data: rest");
    assert_eq!(decoder.next(&mut buffer), Ok(None));
    assert!(buffer.is_empty());
}

#[test]
fn byte_sources_advance() {
    let mut bytes = Bytes::from("abc");
    assert_eq!(ByteSource::chunk(&bytes), b"abc");
    ByteSource::advance(&mut bytes, 2);
    assert_eq!(ByteSource::chunk(&bytes), b"c");

    let mut slice: &[u8] = b"abc";
    ByteSource::advance(&mut slice, 1);
    assert_eq!(ByteSource::chunk(&slice), b"bc");
}

#[test]
fn lines_end_in_any_of_three_ways() {
    let expected = [message("e", "one\ntwo", Some("7"))];
    assert_eq!(events(b"id: 7\nevent: e\ndata: one\ndata: two\n\n"), expected);
    assert_eq!(events(b"id: 7\revent: e\rdata: one\rdata: two\r\r"), expected);
    assert_eq!(
        events(b"id: 7\r\nevent: e\r\ndata: one\r\ndata: two\r\n\r\n"),
        expected
    );
    assert_eq!(events(b"id: 7\revent: e\ndata: one\r\ndata: two\n\r"), expected);
}

#[test]
fn a_byte_order_mark_is_passed_over() {
    assert_eq!(
        events(b"\xef\xbb\xbfdata: x\n\n"),
        [message("message", "x", None)]
    );
    assert_eq!(events(b"data: x\n\n"), [message("message", "x", None)]);
    // Only at the start of the stream.
    assert_eq!(events(b"\n\xef\xbb\xbfdata: x\n\n"), []);
    // A part of one spoils the line that it starts.
    assert_eq!(
        events(b"\xef\xbbdata: x\ndata: y\n\n"),
        [message("message", "y", None)]
    );
}

#[test]
fn comments_and_unknown_fields_have_no_effect() {
    let expected = [message("message", "x", None)];
    assert_eq!(events(b":comment\ndata: x\n: another\n\n"), expected);
    assert_eq!(events(b"unknown: 1\ndata: x\n\n"), expected);
    assert_eq!(events(b"dat: 1\ndatas: 2\ndata: x\n\n"), expected);
    assert_eq!(events(b"foo\ndata: x\n\n"), expected);
    assert_eq!(events(b"foobar\ndata: x\n\n"), expected);
    assert_eq!(events(b"Data: 1\ndata: x\n\n"), expected);
}

#[test]
fn one_space_behind_the_colon_is_not_part_of_the_value() {
    assert_eq!(events(b"data:x\n\n"), [message("message", "x", None)]);
    assert_eq!(events(b"data: x\n\n"), [message("message", "x", None)]);
    assert_eq!(events(b"data:  x\n\n"), [message("message", " x", None)]);
    assert_eq!(events(b"data: a:b\n\n"), [message("message", "a:b", None)]);
}

#[test]
fn an_event_without_payload_yields_nothing_but_its_id_counts() {
    let mut decoder = SseDecoder::new();
    assert_eq!(decode(&mut decoder, b"id: 1\nevent: e\n\n"), []);
    assert_eq!(id_of(&decoder), Some("1"));
    assert_eq!(
        decode(&mut decoder, b"data: x\n\n"),
        [Ok(message("message", "x", Some("1")))]
    );
}

#[test]
fn an_empty_payload_line_is_a_payload() {
    assert_eq!(events(b"data\n\n"), [message("message", "", None)]);
    assert_eq!(events(b"data:\n\n"), [message("message", "", None)]);
    assert_eq!(events(b"data\ndata\n\n"), [message("message", "\n", None)]);
}

#[test]
fn ids_count_at_the_end_of_their_event() {
    let mut decoder = SseDecoder::new();
    assert_eq!(decode(&mut decoder, b"id: 1\n"), []);
    assert_eq!(id_of(&decoder), None);
    assert_eq!(decode(&mut decoder, b"\n"), []);
    assert_eq!(id_of(&decoder), Some("1"));
    // An empty ID takes it back.
    assert_eq!(
        decode(&mut decoder, b"id:\ndata: x\n\n"),
        [Ok(message("message", "x", None))]
    );
    assert_eq!(id_of(&decoder), None);
}

#[test]
fn an_id_with_a_nul_is_ignored() {
    let mut decoder = SseDecoder::new();
    assert_eq!(
        decode(&mut decoder, b"id: 1\n\nid: 2\x003\ndata: x\n\n"),
        [Ok(message("message", "x", Some("1")))]
    );
}

#[test]
fn reconnection_times_are_decimal_numbers() {
    assert_eq!(events(b"retry: 1500\n"), [SseEvent::Retry(1500)]);
    assert_eq!(events(b"retry:007\n"), [SseEvent::Retry(7)]);
    assert_eq!(events(b"retry: 4294967295\n"), [SseEvent::Retry(u32::MAX)]);
    assert_eq!(events(b"retry: 4294967296\n"), []);
    assert_eq!(events(b"retry: 12a\n"), []);
    assert_eq!(events(b"retry: -1\n"), []);
    assert_eq!(events(b"retry:\n"), []);
    assert_eq!(events(b"retry\n"), []);
}

#[test]
fn invalid_utf8_is_repaired() {
    assert_eq!(
        events(b"event: \xc3\xa9\ndata: a\xffb\n\n"),
        [message("\u{e9}", "a\u{fffd}b", None)]
    );
}

#[test]
fn the_way_a_stream_is_cut_makes_no_difference() {
    let bytes = b"\xef\xbb\xbfid: 1\r\nretry: 5\r\ndata: a\r\n\r\n:c\rdata: b\r\revent: n\ndata\n\n";
    let mut whole = SseDecoder::new();
    let expected = decode(&mut whole, bytes);
    assert_eq!(
        expected,
        [
            Ok(SseEvent::Retry(5)),
            Ok(message("message", "a", Some("1"))),
            Ok(message("message", "b", Some("1"))),
            Ok(message("n", "", Some("1"))),
        ]
    );
    for cut in 0..=bytes.len() {
        let mut decoder = SseDecoder::new();
        let mut items = decode(&mut decoder, &bytes[..cut]);
        items.extend(decode(&mut decoder, &bytes[cut..]));
        assert_eq!(items, expected, "cut at {cut}");
    }
}

#[test]
fn an_oversized_event_is_dropped_as_a_whole() {
    let mut decoder = SseDecoder::with_limit(4);
    let bytes = b"id: 1\ndata: ok\n\nid: 2\ndata: too long\nretry: 9\ndata: x\n\ndata: fine\n\n";
    assert_eq!(
        decode(&mut decoder, bytes),
        [
            Ok(message("message", "ok", Some("1"))),
            Err(PayloadTooLargeError),
            Ok(message("message", "fine", Some("1"))),
        ]
    );
    assert_eq!(id_of(&decoder), Some("1"));
}

#[test]
fn the_limit_holds_for_every_field() {
    let mut decoder = SseDecoder::with_limit(2);
    assert_eq!(
        decode(&mut decoder, b"data: ab\n\n"),
        [Ok(message("message", "ab", None))]
    );
    assert_eq!(
        decode(&mut decoder, b"data: abc\n\n"),
        [Err(PayloadTooLargeError)]
    );
    assert_eq!(
        decode(&mut decoder, b"event: abc\ndata\n\n"),
        [Err(PayloadTooLargeError)]
    );
    assert_eq!(
        decode(&mut decoder, b"id: abc\ndata\n\n"),
        [Err(PayloadTooLargeError)]
    );
    // The line feeds between the lines count.
    assert_eq!(
        decode(&mut decoder, b"data: a\ndata\n\n"),
        [Ok(message("message", "a\n", None))]
    );
    assert_eq!(
        decode(&mut decoder, b"data: a\ndata\ndata\n\n"),
        [Err(PayloadTooLargeError)]
    );
}

#[test]
fn an_oversized_value_is_noticed_before_it_ends() {
    let mut decoder = SseDecoder::with_limit(2);
    let mut chunk: &[u8] = b"data: abc";
    assert_eq!(decoder.next(&mut chunk), Err(PayloadTooLargeError));
    assert_eq!(decode(&mut decoder, b"def\ndata: x\n\ndata: y\n\n"), [Ok(message("message", "y", None))]);
}

#[test]
fn a_message_that_is_written_out_is_read_back() {
    assert_eq!(
        events("event: \u{e9}t\u{e9}\nid: \u{2116} 5\ndata:  two\ndata: \ndata: lines\n\n".as_bytes()),
        [message("\u{e9}t\u{e9}", " two\n\nlines", Some("\u{2116} 5"))]
    );
}

#[test]
fn a_reconnection_keeps_the_id_and_nothing_else() {
    let mut decoder = SseDecoder::new();
    assert_eq!(decode(&mut decoder, b"id: 1\n\nid: 2\nevent: e\ndata: cut"), []);
    decoder.reconnect();
    assert_eq!(id_of(&decoder), Some("1"));
    assert_eq!(
        decode(&mut decoder, b"\xef\xbb\xbfdata: x\n\n"),
        [Ok(message("message", "x", Some("1")))]
    );
}

#[test]
fn a_reconnection_can_bring_its_own_id() {
    let mut decoder = SseDecoder::new();
    assert_eq!(decode(&mut decoder, b"id: 1\n\ndata: cut"), []);
    decoder.reconnect_with_id(Some("saved".into()));
    assert_eq!(id_of(&decoder), Some("saved"));
    assert_eq!(
        decode(&mut decoder, b"data: x\n\n"),
        [Ok(message("message", "x", Some("saved")))]
    );
}

#[test]
fn clearing_drops_the_id() {
    let mut decoder = SseDecoder::with_limit(8);
    assert_eq!(decode(&mut decoder, b"id: 1\n\ndata: cut"), []);
    decoder.clear();
    assert_eq!(id_of(&decoder), None);
    assert_eq!(
        decode(&mut decoder, b"data: x\n\n"),
        [Ok(message("message", "x", None))]
    );
    // The limit stays.
    assert_eq!(
        decode(&mut decoder, b"data: 123456789\n\n"),
        [Err(PayloadTooLargeError)]
    );
}

#[test]
fn a_clone_goes_on_by_itself() {
    let mut decoder = SseDecoder::new();
    assert_eq!(decode(&mut decoder, b"id: 1\nevent: e\ndata: a"), []);
    let mut copy = decoder.clone();
    assert_eq!(
        decode(&mut copy, b"b\n\n"),
        [Ok(message("e", "ab", Some("1")))]
    );
    assert_eq!(
        decode(&mut decoder, b"c\n\n"),
        [Ok(message("e", "ac", Some("1")))]
    );
}

#[test]
fn events_are_cloned_with_their_text() {
    let event = message("e", "data", Some("1"));
    assert_eq!(event.clone(), event);
    assert_eq!(SseEvent::Retry(3).clone(), SseEvent::Retry(3));
    let unnamed = MessageEvent::new(None, "x".into(), None);
    assert_eq!(unnamed.event, "message");
    assert_eq!(unnamed.clone(), unnamed);
    let named = MessageEvent::new(Some("n".into()), "x".into(), Some("1".into()));
    assert_eq!(SseEvent::Message(named), message("n", "x", Some("1")));
    assert_eq!(PayloadTooLargeError::default(), PayloadTooLargeError);
}

#[test]
fn debug_strings_show_the_state() {
    let mut decoder = SseDecoder::new();
    assert_eq!(
        decoder.to_debug_string(),
        "SseDecoder { mode: Bom { bytes_read: 0 }, last_event_id: None, \
         staged_last_event_id: None, last_event_id_buf: \"\", event_buf: \"\", data_buf: \"\", \
         retry_buf: None, max_payload_size: 524288 }"
    );
    decode(&mut decoder, b"id: i\"1\n\nid: 2\nretry: 40\nevent: n\ndata: a\xff\tb\nda");
    assert_eq!(
        decoder.to_debug_string(),
        "SseDecoder { mode: Field(FieldMode(\"da\")), last_event_id: Some(\"i\\\"1\"), \
         staged_last_event_id: Some(\"2\"), last_event_id_buf: \"2\", event_buf: \"n\", \
         data_buf: \"a\\xFF\\tb\\n\", retry_buf: Some(40), max_payload_size: 524288 }"
    );
    decode(&mut decoder, b"ta:");
    assert!(decoder.to_debug_string().starts_with("SseDecoder { mode: PostColon(Data), "));
    decode(&mut decoder, b"x");
    assert!(decoder.to_debug_string().starts_with("SseDecoder { mode: Value(Data), "));
    decode(&mut decoder, b"\r");
    assert!(decoder.to_debug_string().starts_with("SseDecoder { mode: PostCr, "));
    decode(&mut decoder, b":");
    assert!(decoder.to_debug_string().starts_with("SseDecoder { mode: Ignore, "));
}

#[test]
fn debug_strings_cut_long_values_short() {
    let mut decoder = SseDecoder::new();
    let long = "a".repeat(199) + "\u{e9}bc";
    decode(&mut decoder, format!("id: {long}\n\ndata: {long}").as_bytes());
    let text = decoder.to_debug_string();
    let shown = format!("\"{}\"... (203 bytes total)", "a".repeat(199));
    assert!(text.contains(&format!("last_event_id: Some({shown})")), "{text}");
    assert!(text.contains(&format!("data_buf: {shown}")), "{text}");

    let mut decoder = SseDecoder::new();
    decode(&mut decoder, &[b"data: ".as_slice(), &[0xff; 201]].concat());
    let shown = format!("\"{}\"... (201 bytes total)", "\\xFF".repeat(199));
    assert!(decoder.to_debug_string().contains(&shown));
}

#[test]
fn an_unnamed_message_borrows_its_name() {
    let mut events = events(b"data: a\n\nevent: e\ndata: b\n\nevent: \xff\ndata: c\n\n");
    let repaired = events.pop().unwrap();
    let named = events.pop().unwrap();
    let unnamed = events.pop().unwrap();
    for copy in [unnamed.clone(), unnamed] {
        match copy {
            SseEvent::Message(message) => {
                assert!(matches!(message.event, Cow::Borrowed("message")))
            }
            other => panic!("no message: {other:?}"),
        }
    }
    for (event, name) in [(named.clone(), "e"), (named, "e"), (repaired, "\u{fffd}")] {
        match event {
            SseEvent::Message(message) => {
                assert!(matches!(message.event, Cow::Owned(_)));
                assert_eq!(message.event, name);
            }
            other => panic!("no message: {other:?}"),
        }
    }
}

/// The parts of the debug text that show the last ID and reconnection time.
fn buffers(decoder: &SseDecoder) -> (String, String) {
    let text = decoder.to_debug_string();
    let part = |name: &str| {
        let start = text.find(name).unwrap() + name.len();
        let end = text[start..].find(", ").unwrap();
        text[start..start + end].to_owned()
    };
    (part("last_event_id_buf: "), part("retry_buf: "))
}

#[test]
fn debug_strings_show_what_was_read_last() {
    let mut decoder = SseDecoder::new();
    decode(&mut decoder, b"retry:40\nid: 7\ndata: x\n\n");
    assert_eq!(buffers(&decoder), ("\"7\"".into(), "Some(40)".into()));
    assert_eq!(buffers(&decoder.clone()), ("\"7\"".into(), "Some(40)".into()));
    // A line without a colon starts them over.
    decode(&mut decoder, b"retry\n");
    assert_eq!(buffers(&decoder), ("\"7\"".into(), "None".into()));
    decode(&mut decoder, b"id\n");
    assert_eq!(buffers(&decoder), ("\"\"".into(), "None".into()));
    // The digits up to one that spoils the number stay.
    decode(&mut decoder, b"retry: 12x\nid: a\0b\n");
    assert_eq!(buffers(&decoder), ("\"a\\0b\"".into(), "Some(12)".into()));
    decoder.reconnect();
    assert_eq!(buffers(&decoder), ("\"\"".into(), "None".into()));

    let mut decoder = SseDecoder::with_limit(2);
    decode(&mut decoder, b"retry: 5\nid: 1\ndata: abc\nid: 2\nretry: 6\n");
    assert_eq!(buffers(&decoder), ("\"1\"".into(), "Some(5)".into()));
    decode(&mut decoder, b"\nid: 345\n");
    assert_eq!(buffers(&decoder), ("\"\"".into(), "Some(5)".into()));
}

#[test]
fn whole_streams_end_their_lines_in_any_of_three_ways() {
    let text = "id: 1\n:c\ndata: a\ndata: b\n\nretry: 3\nfoo\nevent: e\ndata\n\nid: 2\n\n";
    let mut results = vec![];
    for end in ["\n", "\r", "\r\n"] {
        let mut decoder = SseDecoder::new();
        let items = decode(&mut decoder, text.replace('\n', end).as_bytes());
        results.push((items, id_of(&decoder).map(|id| id.to_owned())));
    }
    assert_eq!(results[0].0.len(), 3);
    assert_eq!(results[0].1.as_deref(), Some("2"));
    assert_eq!(results[1], results[0]);
    assert_eq!(results[2], results[0]);
}

#[test]
fn a_message_has_the_id_that_was_sent_last() {
    let mut decoder = SseDecoder::new();
    decoder.reconnect_with_id(Some("0".into()));
    let items = decode(
        &mut decoder,
        b"\xef\xbb\xbfdata: a\n\nid: 1\rid: 2\r\ndata: b\r\rdata: c\n\nid: x\0\ndata: d\n\n\
          id:\ndata: e\n\n",
    );
    let ids: Vec<_> = items
        .into_iter()
        .map(|item| match item {
            Ok(SseEvent::Message(message)) => message.last_event_id.map(|id| id.to_string()),
            other => panic!("no message: {other:?}"),
        })
        .collect();
    let two = Some("2".to_owned());
    assert_eq!(ids, [Some("0".to_owned()), two.clone(), two.clone(), two, None]);
}

#[test]
fn texts_are_counted_in_bytes() {
    let mut decoder = SseDecoder::with_limit(4);
    // Two letters of two bytes each.
    assert_eq!(
        decode(&mut decoder, "id: \u{e9}\u{e9}\nevent: \u{e9}\u{e9}\ndata: \u{e9}\u{e9}\n\n".as_bytes()),
        [Ok(message("\u{e9}\u{e9}", "\u{e9}\u{e9}", Some("\u{e9}\u{e9}")))]
    );
    assert_eq!(
        decode(&mut decoder, "data: \u{e9}\u{e9}a\n\n".as_bytes()),
        [Err(PayloadTooLargeError)]
    );
}

#[test]
fn an_id_line_without_a_colon_takes_the_id_back() {
    let mut decoder = SseDecoder::new();
    assert_eq!(
        decode(&mut decoder, b"id: 1\ndata: a\n\nid\ndata: b\n\n"),
        [
            Ok(message("message", "a", Some("1"))),
            Ok(message("message", "b", None)),
        ]
    );
    assert_eq!(id_of(&decoder), None);
    assert_eq!(decode(&mut decoder, b"id: 2\r\n\r\nid\r\r"), []);
    assert_eq!(id_of(&decoder), None);
}

#[test]
fn pieces_are_written_with_their_invalid_bytes() {
    let pieces = vec![("a\n".to_owned(), vec![0xff, 0x0a]), ("b".to_owned(), vec![0xc3])];
    let mut out = "> ".to_owned();
    write_pieces(&mut out, &pieces, false);
    assert_eq!(out, "> a\\n\\xFF\\x0Ab\\xC3");
    // The end of what was cut short is left out.
    let mut out = String::new();
    write_pieces(&mut out, &pieces, true);
    assert_eq!(out, "a\\n\\xFF\\x0Ab");
}
