use bytes::Bytes;
use reqwest::{RequestBuilder, Response};
use sse_core::client::{Error, FromMessageEventError, ReadyState, SseErrorEvent, SseEvent};
use sse_core::connection::{Action, Answer, Reaction, Runtime};
use sse_core::content_type::is_event_stream;
use sse_core::header::connection_headers;
use sse_core::source::{EventSource, EventSourceBuilder, RequestBuilderExt};
use sse_core::{MessageEvent, PayloadTooLargeError};
use std::collections::VecDeque;
use std::time::Duration;

/// A runtime whose values the tests hold in their hands.
struct Local;

impl Runtime for Local {
    type Retry = &'static str;
    type Connect = u8;
    type Body = VecDeque<Bytes>;
    type Timer = u64;
}

fn request() -> RequestBuilder {
    reqwest::Client::new().get("http://localhost/events")
}

fn builder() -> EventSourceBuilder<Local> {
    EventSource::builder(request(), "retry")
}

fn response(status: u16, content_type: Option<&str>) -> Response {
    let mut response = http::Response::builder().status(status);
    if let Some(content_type) = content_type {
        response = response.header("Content-Type", content_type);
    }
    Response::from(response.body("").unwrap())
}

fn network_error() -> reqwest::Error {
    reqwest::Client::new().get("not a url").build().unwrap_err()
}

/// Brings a connection from its start to a body.
fn open(source: &mut EventSource<Local>, chunks: &[&str]) {
    assert_eq!(source.action(), Action::Send);
    source.start().unwrap();
    source.connecting(1);
    assert_eq!(source.action(), Action::AwaitResponse);
    assert_eq!(source.ready_state(), ReadyState::Connecting);
    match source.respond(response(200, Some("text/event-stream"))) {
        Answer::Accept(_) => {}
        _ => panic!("not accepted"),
    }
    let body = chunks
        .iter()
        .map(|chunk| Bytes::copy_from_slice(chunk.as_bytes()))
        .collect();
    assert!(matches!(source.open(body), SseEvent::Open));
    assert_eq!(source.action(), Action::Read);
    assert_eq!(source.ready_state(), ReadyState::Open);
}

/// Reads from the body until the stream yields an item or the connection is lost.
fn read(source: &mut EventSource<Local>) -> Result<Result<SseEvent, Error>, SseErrorEvent> {
    let mut reaction = source.poll_buffered();
    loop {
        reaction = match reaction {
            Reaction::NeedBytes => {
                let received = source.body_mut().unwrap().pop_front();
                source.receive(received.map(Ok))
            }
            Reaction::Continue => source.poll_buffered(),
            Reaction::Yield(item) => return Ok(item),
            Reaction::Lost(cause) => return Err(cause),
        };
    }
}

fn data(item: Result<Result<SseEvent, Error>, SseErrorEvent>) -> String {
    item.unwrap().unwrap().into_message().unwrap().data
}

fn id_of(source: &EventSource<Local>) -> Option<&str> {
    source.last_event_id().map(|id| &**id)
}

fn header_fields(source: &mut EventSource<Local>) -> Vec<(String, Vec<u8>)> {
    let (_, fields) = source.start().unwrap();
    fields
        .iter()
        .map(|field| (field.name.to_lowercase(), field.value.as_bytes().to_vec()))
        .collect()
}

#[test]
fn test_is_event_stream() {
    for ct in [
        "text/event-stream",
        "Text/Event-Stream",
        "TEXT/EVENT-STREAM",
        "text/event-stream;charset=utf-8",
        "Text/Event-Stream; charset=utf-8",
        "text/event-stream\tx",
        "text/event-stream ",
    ] {
        assert!(is_event_stream(ct.as_bytes()), "rejected {ct:?}");
    }

    for ct in [
        "",
        "text/plain",
        "text/event",
        "text/event-strea",
        "text/event-streamx",
        "application/json",
        " text/event-stream",
    ] {
        assert!(!is_event_stream(ct.as_bytes()), "accepted {ct:?}");
    }
}

fn oversized_event() -> String {
    format!(
        "id: 1\ndata: before\n\n\
         id: 2\ndata: {}\n\n\
         id: 3\ndata: after\n\n",
        "x".repeat(64),
    )
}

/// An oversized event must not take the connection down with it: the events
/// around it still arrive, in order, on the very same connection.
#[test]
fn oversized_event_is_discarded_without_dropping_the_connection() {
    let mut es = builder().max_payload_size(16).build();
    open(&mut es, &[&oversized_event()]);

    let mut seen = vec!["open".to_owned()];
    let mut id_at_discard = None;
    loop {
        match read(&mut es) {
            Ok(event) => match event.unwrap() {
                SseEvent::Open => seen.push("open".to_owned()),
                SseEvent::Message(msg) => seen.push(format!("msg:{}", msg.data)),
                SseEvent::Discarded(_) => {
                    seen.push("discarded".to_owned());
                    id_at_discard = es.last_event_id().map(|id| id.to_string());
                }
                SseEvent::Error(_) => unreachable!(),
            },
            // Reached once the server hangs up; stop before it reconnects.
            Err(cause) => {
                es.connection_lost();
                assert!(matches!(es.go_to_sleep(cause, Some(1)), Ok(SseEvent::Error(_))));
                break;
            }
        }
    }

    assert_eq!(seen, ["open", "msg:before", "discarded", "msg:after"]);

    // The discarded event's own `id: 2` is rolled back rather than committed, so
    // at that moment the resume point is still the last *delivered* event.
    assert_eq!(id_at_discard.as_deref(), Some("1"));

    // Parsing resynchronizes, so the following event commits its ID normally.
    assert_eq!(es.last_event_id().map(|id| &**id), Some("3"));

    // Backing off, not terminated: only `close()` (or an `Err`) ends the stream.
    assert!(!es.is_terminated());
    es.close();
    assert!(es.is_terminated());
}

/// With `fail_on_oversized_event`, the same stream stops at the oversized event
/// instead of resynchronizing past it.
#[test]
fn oversized_event_is_fatal_when_opted_in() {
    let mut es = builder()
        .max_payload_size(16)
        .fail_on_oversized_event(true)
        .build();
    open(&mut es, &[&oversized_event()]);

    let mut seen = vec!["open".to_owned()];
    let err = loop {
        match read(&mut es).expect("stream ended without an error") {
            Ok(SseEvent::Open) => seen.push("open".to_owned()),
            Ok(SseEvent::Message(msg)) => seen.push(format!("msg:{}", msg.data)),
            Ok(SseEvent::Discarded(_)) => panic!("Discarded is not emitted when opted in"),
            Ok(SseEvent::Error(err)) => panic!("unexpected connection error: {err:?}"),
            Err(err) => break err,
        }
    };

    // `id: 3` is never reached: the stream stops at the oversized event rather
    // than resynchronizing to the one after it.
    assert_eq!(seen, ["open", "msg:before"]);
    assert!(matches!(err, Error::PayloadTooLarge(_)), "got {err:?}");

    // The `Err` is genuinely terminal.
    assert!(es.is_terminated());
    assert_eq!(es.ready_state(), ReadyState::Closed);
    assert_eq!(es.action(), Action::Finish);

    // The resume point is still the last *delivered* event.
    assert_eq!(es.last_event_id().map(|id| &**id), Some("1"));
}

#[test]
fn a_stream_starts_out_disconnected() {
    let source: EventSource<Local> = EventSource::new(request(), "retry");
    assert_eq!(source.ready_state(), ReadyState::Connecting);
    assert_eq!(source.action(), Action::Send);
    assert_eq!(source.reconnection_time_ms(), 3000);
    assert_eq!(source.connection_attempt(), 0);
    assert_eq!(*source.retry_config(), "retry");
    assert!(!source.is_terminated());
    assert_eq!(id_of(&source), None);

    let source: EventSource<Local> = request().into_event_source("other");
    assert_eq!(*source.retry_config(), "other");
    let source: EventSourceBuilder<Local> = request().into_event_source_builder("other");
    let source = source
        .retry_config("third")
        .initial_reconnection_time(5000)
        .last_event_id("7".into())
        .build();
    assert_eq!(*source.retry_config(), "third");
    assert_eq!(source.reconnection_time_ms(), 5000);
    assert_eq!(id_of(&source), Some("7"));
    assert!(source.request().try_clone().is_some());
}

#[test]
fn requests_ask_for_an_event_stream() {
    let mut source = builder().build();
    let accept = ("accept".to_owned(), b"text/event-stream".to_vec());
    let cache = ("cache-control".to_owned(), b"no-store".to_vec());
    assert_eq!(header_fields(&mut source), [accept.clone(), cache.clone()]);

    let mut source = builder().last_event_id("\u{e9} 7".into()).build();
    let id = ("last-event-id".to_owned(), "\u{e9} 7".as_bytes().to_vec());
    assert_eq!(header_fields(&mut source), [accept, cache, id]);
    let (request, _) = source.start().unwrap();
    assert_eq!(request.build().unwrap().url().as_str(), "http://localhost/events");
}

#[test]
fn header_values_hold_no_control_characters() {
    assert!(connection_headers(None).is_ok());
    assert!(connection_headers(Some(&"tab\there".into())).is_ok());
    assert!(connection_headers(Some(&"bell\u{7}".into())).is_err());
    assert!(connection_headers(Some(&"del\u{7f}".into())).is_err());
}

#[test]
fn an_unusable_id_closes_the_stream() {
    let mut source = builder().last_event_id("\u{1}".into()).build();
    match source.start() {
        Err(Error::InvalidLastEventId(_)) => {}
        _ => panic!("not refused"),
    }
    assert!(source.is_terminated());
}

#[test]
fn a_request_that_cannot_be_cloned_closes_the_stream() {
    let bad = reqwest::Client::new().get("not a url");
    let mut source: EventSource<Local> = EventSource::new(bad, "retry");
    match source.start() {
        Err(Error::UncloneableRequest) => {}
        _ => panic!("not refused"),
    }
    assert!(source.is_terminated());

    let mut source = builder().build();
    assert!(matches!(source.start_with(None), Err(Error::UncloneableRequest)));
    assert!(source.is_terminated());
}

/// What comes of a response.
fn answer(builder: EventSourceBuilder<Local>, response: Response) -> (Answer, EventSource<Local>) {
    let mut source = builder.build();
    source.start().unwrap();
    source.connecting(1);
    let answer = source.respond(response);
    (answer, source)
}

#[test]
fn the_server_can_end_the_stream() {
    let (answer, source) = answer(builder().retry_transient_errors(true), response(204, None));
    assert!(matches!(answer, Answer::Finish));
    assert!(source.is_terminated());
}

#[test]
fn other_status_codes_close_the_stream() {
    for status in [100, 201, 301, 404, 408, 429, 500, 502, 503, 504, 999] {
        let (answer, source) = answer(builder(), response(status, Some("text/event-stream")));
        match answer {
            Answer::Fail(Error::Status(response)) => {
                assert_eq!(response.status().as_u16(), status)
            }
            _ => panic!("{status} was not refused"),
        }
        assert!(source.is_terminated());
    }
}

#[test]
fn transient_status_codes_can_be_retried() {
    for status in [408, 429, 502, 503, 504] {
        let (answer, source) = answer(
            builder().retry_transient_errors(true),
            response(status, Some("text/event-stream")),
        );
        match answer {
            Answer::Lost(SseErrorEvent::Http(code)) => assert_eq!(code, status),
            _ => panic!("{status} is not retried"),
        }
        assert!(!source.is_terminated());
    }
    let (answer, _) = answer(builder().retry_transient_errors(true), response(500, None));
    assert!(matches!(answer, Answer::Fail(Error::Status(_))));
}

#[test]
fn the_content_type_has_to_be_right() {
    let (missing, source) = answer(builder(), response(200, None));
    assert!(matches!(missing, Answer::Fail(Error::MissingContentType(_))));
    assert!(source.is_terminated());

    let (wrong, source) = answer(builder(), response(200, Some("text/html")));
    match wrong {
        Answer::Fail(Error::InvalidContentType(response)) => {
            assert_eq!(response.headers()["content-type"], "text/html")
        }
        _ => panic!("accepted"),
    }
    assert!(source.is_terminated());

    let (right, source) = answer(builder(), response(200, Some("Text/Event-Stream;x")));
    assert!(matches!(right, Answer::Accept(_)));
    assert_eq!(source.ready_state(), ReadyState::Connecting);

    let mut source = builder().build();
    source.start().unwrap();
    source.connecting(1);
    let given = source.respond_with(200, Some(b"text/plain"), response(204, None));
    assert!(matches!(given, Answer::Fail(Error::InvalidContentType(_))));
}

#[test]
fn a_lost_connection_is_resumed() {
    let mut source = builder().build();
    open(&mut source, &["retry: 10\nid: 5\ndata: a\n\ndata: cut"]);
    assert_eq!(data(read(&mut source)), "a");
    assert_eq!(source.reconnection_time_ms(), 10);

    let cause = read(&mut source).unwrap_err();
    assert!(matches!(cause, SseErrorEvent::Eof));
    source.connection_lost();
    match source.go_to_sleep(cause, Some(33)) {
        Ok(SseEvent::Error(SseErrorEvent::Eof)) => {}
        _ => panic!("not reported"),
    }
    assert_eq!(source.action(), Action::AwaitTimer);
    assert_eq!(source.ready_state(), ReadyState::Connecting);
    assert_eq!(source.timer_mut(), Some(&mut 33));
    assert_eq!(source.connect_mut(), None);
    assert_eq!(source.body_mut(), None);
    assert_eq!(source.connection_attempt(), 1);
    source.wake();
    assert_eq!(source.action(), Action::Send);

    assert_eq!(header_fields(&mut source)[2].1, b"5");
    source.connecting(8);
    assert_eq!(source.connect_mut(), Some(&mut 8));
    assert_eq!(source.timer_mut(), None);
    assert!(matches!(
        source.respond(response(200, Some("text/event-stream"))),
        Answer::Accept(_)
    ));
    source.open([Bytes::from("data: b\n\n")].into_iter().collect());
    let message = read(&mut source).unwrap().unwrap().into_message().unwrap();
    assert_eq!(message.data, "b");
    assert_eq!(message.last_event_id.as_deref(), Some("5"));
    assert_eq!(source.reconnection_time_ms(), 10);
}

#[test]
fn the_client_gives_up_without_a_delay() {
    let mut source = builder().build();
    source.start().unwrap();
    source.connecting(1);
    source.connection_lost();
    let failed = source.go_to_sleep(SseErrorEvent::Network(network_error()), Some(1));
    assert!(matches!(failed, Ok(SseEvent::Error(SseErrorEvent::Network(_)))));
    source.wake();
    source.start().unwrap();
    source.connecting(2);
    source.connection_lost();
    match source.go_to_sleep(SseErrorEvent::Http(503), None) {
        Err(Error::Timeout(attempts, SseErrorEvent::Http(503))) => assert_eq!(attempts, 2),
        _ => panic!("not given up"),
    }
    assert!(source.is_terminated());
}

#[test]
fn a_successful_connection_resets_the_counter() {
    let mut source = builder().successful_connection_threshold(100).build();
    for attempt in 1..4 {
        source.connection_lasted(None);
        source.go_to_sleep(SseErrorEvent::Eof, Some(1)).unwrap();
        assert_eq!(source.connection_attempt(), attempt);
        source.wake();
    }
    source.connection_lasted(Some(99));
    assert_eq!(source.connection_attempt(), 3);
    source.connection_lasted(Some(100));
    assert_eq!(source.connection_attempt(), 0);

    // No connection is too short for a threshold of nothing.
    let mut source = builder().successful_connection_threshold(0).build();
    source.go_to_sleep(SseErrorEvent::Eof, Some(1)).unwrap();
    source.wake();
    open(&mut source, &[]);
    source.connection_lost();
    assert_eq!(source.connection_attempt(), 0);

    // And none lasts for ages.
    let mut source = builder().successful_connection_threshold(u128::MAX).build();
    source.go_to_sleep(SseErrorEvent::Eof, Some(1)).unwrap();
    source.wake();
    open(&mut source, &[]);
    source.connection_lost();
    assert_eq!(source.connection_attempt(), 1);
}

#[test]
fn network_errors_lose_the_connection() {
    let mut source = builder().build();
    open(&mut source, &[]);
    match source.receive(Some(Err(network_error()))) {
        Reaction::Lost(SseErrorEvent::Network(error)) => assert!(error.is_builder()),
        _ => panic!("not lost"),
    }
}

#[test]
fn closing_is_idempotent_and_can_be_undone() {
    let mut source = builder().build();
    open(&mut source, &["id: 1\ndata: a\n\n"]);
    assert_eq!(data(read(&mut source)), "a");
    source.close();
    assert_eq!(source.ready_state(), ReadyState::Closed);
    assert_eq!(source.action(), Action::Finish);
    assert_eq!(source.body_mut(), None);
    source.close();
    assert_eq!(source.ready_state(), ReadyState::Closed);

    source.force_reconnect();
    assert_eq!(source.ready_state(), ReadyState::Connecting);
    assert_eq!(source.action(), Action::Send);
    assert_eq!(id_of(&source), Some("1"));
}

#[test]
fn a_forced_reconnection_starts_from_scratch() {
    let mut source = builder().build();
    open(&mut source, &["id: 1\ndata: a\n\n"]);
    assert_eq!(data(read(&mut source)), "a");
    source.connection_lost();
    source.go_to_sleep(SseErrorEvent::Eof, Some(1)).unwrap();
    assert_eq!(source.connection_attempt(), 1);
    source.force_reconnect();
    assert_eq!(source.connection_attempt(), 0);
    assert_eq!(source.action(), Action::Send);
    assert_eq!(id_of(&source), Some("1"));

    source.force_reconnect_with_id(Some("0".into()));
    assert_eq!(id_of(&source), Some("0"));
    assert_eq!(header_fields(&mut source)[2].1, b"0");
    source.force_reconnect_with_id(None);
    assert_eq!(id_of(&source), None);
    assert_eq!(header_fields(&mut source).len(), 2);
}

#[test]
fn messages_are_told_from_other_events() {
    let message = MessageEvent::new(None, "x".into(), None);
    let mut event = SseEvent::from(message.clone());
    assert_eq!(event.as_message(), Some(&message));
    event.as_message_mut().unwrap().data = "y".into();
    assert_eq!(event.as_message().unwrap().data, "y");
    assert_eq!(event.into_message().unwrap().data, "y");
    assert_eq!(
        MessageEvent::try_from(SseEvent::from(message.clone())).unwrap(),
        message
    );

    let mut other = SseEvent::from(PayloadTooLargeError);
    assert!(other.as_message().is_none());
    assert!(other.as_message_mut().is_none());
    assert!(matches!(
        MessageEvent::try_from(other),
        Err(FromMessageEventError(SseEvent::Discarded(_)))
    ));
    assert!(SseEvent::Open.into_message().is_none());
    assert!(matches!(
        SseEvent::from(SseErrorEvent::from(network_error())),
        SseEvent::Error(SseErrorEvent::Network(_))
    ));
    assert!(matches!(
        Error::from(PayloadTooLargeError),
        Error::PayloadTooLarge(_)
    ));
}

#[test]
fn only_an_open_connection_has_a_time() {
    let mut source = builder()
        .retry_transient_errors(true)
        .fail_on_oversized_event(true)
        .build();
    assert!(source.retry_transient_errors());
    assert!(source.fail_on_oversized_event());
    assert_eq!(source.connected_since(), None);
    assert_eq!(source.state_text("33ms"), "Disconnected");
    open(&mut source, &[]);
    assert!(source.connected_since().is_some());
    assert_eq!(source.state_text("33ms"), "Open");
    source.close();
    assert_eq!(source.connected_since(), None);
    assert_eq!(source.state_text("33ms"), "Closed");
    source.force_reconnect();
    source.start().unwrap();
    source.connecting(1);
    assert_eq!(source.state_text("33ms"), "Connecting(_)");
    assert_eq!(source.timer(), None);
    source.go_to_sleep(SseErrorEvent::Eof, Some(33)).unwrap();
    assert_eq!(source.timer(), Some(&33));
    assert_eq!(source.state_text("33ms"), "Sleeping(33ms)");
    assert_eq!(source.connected_since(), None);
}

#[test]
fn the_time_of_the_loss_decides_about_the_counter() {
    for (lasted, attempts) in [(0, 1), (99, 1), (100, 0), (5000, 0)] {
        let mut source = builder().successful_connection_threshold(100).build();
        source.go_to_sleep(SseErrorEvent::Eof, Some(1)).unwrap();
        source.wake();
        open(&mut source, &[]);
        let since = source.connected_since().unwrap();
        source.connection_lost_at(since + Duration::from_nanos(lasted));
        assert_eq!(source.connection_attempt(), attempts);
        assert_eq!(source.connected_since(), None);
    }
    // A clock that runs backwards counts as no time at all.
    let mut source = builder().successful_connection_threshold(1).build();
    source.go_to_sleep(SseErrorEvent::Eof, Some(1)).unwrap();
    source.wake();
    open(&mut source, &[]);
    let since = source.connected_since().unwrap();
    source.connection_lost_at(since - Duration::from_nanos(5));
    assert_eq!(source.connection_attempt(), 1);
}
