use bytes::Bytes;
use sse_core::{
    PayloadTooLargeError, SseDecoder, SseEvent, SseStream, SseStreamError, SseStreamResult,
    StreamPoll,
};
use std::collections::VecDeque;

type Body = VecDeque<Result<Bytes, &'static str>>;

/// Reads from the body until the stream yields an item or comes to its end.
fn poll(stream: &mut SseStream<Body, Bytes>) -> Option<SseStreamResult<SseEvent, &'static str>> {
    let mut step = stream.poll_buffered();
    loop {
        match step {
            StreamPoll::Ready(item) => return item,
            StreamPoll::NeedBytes => {
                let received = stream.inner_mut().unwrap().pop_front();
                step = stream.receive(received);
            }
        }
    }
}

fn body(chunks: &[&'static str]) -> Body {
    chunks.iter().map(|chunk| Ok(Bytes::from(*chunk))).collect()
}

fn data(item: Option<SseStreamResult<SseEvent, &'static str>>) -> String {
    match item {
        Some(Ok(SseEvent::Message(message))) => message.data,
        other => panic!("no message: {other:?}"),
    }
}

fn id_of(stream: &SseStream<Body, Bytes>) -> Option<&str> {
    stream.last_event_id().map(|id| &**id)
}

#[test]
fn a_disconnected_stream_is_at_its_end() {
    let mut stream = SseStream::<Body, Bytes>::disconnected();
    assert!(stream.is_closed());
    assert!(poll(&mut stream).is_none());
    assert!(stream.inner_mut().is_none());
}

#[test]
fn events_are_put_together_from_buffers() {
    let mut stream = SseStream::new(body(&["id: 1\nda", "ta: a\n\ndata: ", "b\n\nretry: 7\n", ""]));
    assert_eq!(data(poll(&mut stream)), "a");
    assert_eq!(id_of(&stream), Some("1"));
    assert_eq!(data(poll(&mut stream)), "b");
    assert_eq!(poll(&mut stream), Some(Ok(SseEvent::Retry(7))));
    assert!(!stream.is_closed());
    assert_eq!(poll(&mut stream), None);
    assert!(stream.is_closed());
    assert_eq!(poll(&mut stream), None);
}

#[test]
fn errors_are_passed_on() {
    let mut inner = body(&["data: cut"]);
    inner.push_back(Err("broken"));
    inner.push_back(Ok(Bytes::from(" short\n\n")));
    let mut stream = SseStream::new(inner);
    assert_eq!(poll(&mut stream), Some(Err(SseStreamError::Inner("broken"))));
    // The stream stays connected.
    assert_eq!(data(poll(&mut stream)), "cut short");
    assert_eq!(SseStreamError::from("broken"), SseStreamError::Inner("broken"));
}

#[test]
fn an_oversized_event_does_not_end_the_stream() {
    let mut stream = SseStream::with_decoder(SseDecoder::with_limit(4));
    stream.attach(body(&["data: 12345\n\ndata: 1\n\n"]));
    assert_eq!(
        poll(&mut stream),
        Some(Err(SseStreamError::PayloadTooLarge(PayloadTooLargeError)))
    );
    assert_eq!(data(poll(&mut stream)), "1");
}

#[test]
fn a_stream_is_resumed_with_its_id() {
    let mut stream = SseStream::new(body(&["id: 1\ndata: a\n\nid: 2\ndata: cut"]));
    assert_eq!(data(poll(&mut stream)), "a");
    stream.close();
    assert!(stream.is_closed());
    assert_eq!(poll(&mut stream), None);
    assert_eq!(id_of(&stream), Some("1"));
    stream.attach(body(&["data: b\n\n"]));
    assert_eq!(data(poll(&mut stream)), "b");
    assert_eq!(id_of(&stream), Some("1"));
}

#[test]
fn a_stream_is_resumed_with_another_id() {
    let mut stream = SseStream::new(body(&["id: 1\ndata: a\n\n"]));
    assert_eq!(data(poll(&mut stream)), "a");
    stream.close_with_id(Some("9".into()));
    assert_eq!(id_of(&stream), Some("9"));
    stream.attach(body(&["data: b\n\n"]));
    match poll(&mut stream) {
        Some(Ok(SseEvent::Message(message))) => {
            assert_eq!(message.last_event_id.as_deref(), Some("9"))
        }
        other => panic!("no message: {other:?}"),
    }
    stream.attach_with_id(body(&["data: c\n\n"]), Some("10".into()));
    assert_eq!(id_of(&stream), Some("10"));
    assert_eq!(data(poll(&mut stream)), "c");
}

#[test]
fn a_cleared_stream_starts_over() {
    let mut stream = SseStream::new(body(&["id: 1\ndata: a\n\ndata: b\n\n"]));
    assert_eq!(data(poll(&mut stream)), "a");
    stream.close_and_clear();
    assert!(stream.is_closed());
    assert_eq!(id_of(&stream), None);
    assert_eq!(poll(&mut stream), None);
}

#[test]
fn the_decoder_can_be_taken_out() {
    let mut stream = SseStream::new(body(&["id: 1\ndata: a\n\ndata: cut"]));
    assert_eq!(data(poll(&mut stream)), "a");
    let mut decoder = stream.take_decoder();
    assert_eq!(decoder.last_event_id().map(|id| &**id), Some("1"));
    let mut bytes: &[u8] = b"data: b\n\n";
    match decoder.next(&mut bytes) {
        Ok(Some(SseEvent::Message(message))) => assert_eq!(message.data, "b"),
        other => panic!("no message: {other:?}"),
    }
}

#[test]
fn a_stream_yields_what_a_decoder_yields() {
    let text = "id: 1\ndata: a\n\nretry: 5\r\ndata: b\r\n\r\nevent: e\rdata: c\r\r";
    let mut decoder = SseDecoder::new();
    let mut bytes = Bytes::from(text);
    let mut expected = vec![];
    while let Some(event) = decoder.next(&mut bytes).unwrap() {
        expected.push(event);
    }
    assert_eq!(expected.len(), 4);
    for size in 1..=text.len() {
        let chunks: Vec<_> = text.as_bytes().chunks(size).collect();
        let inner = chunks
            .iter()
            .map(|chunk| Ok(Bytes::copy_from_slice(chunk)))
            .collect();
        let mut stream: SseStream<Body, Bytes> = SseStream::new(inner);
        let mut items = vec![];
        while let Some(item) = poll(&mut stream) {
            items.push(item.unwrap());
        }
        assert_eq!(items, expected, "in pieces of {size}");
    }
}
