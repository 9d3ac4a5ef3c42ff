use eventsource_client::check_header_name;
use eventsource_client::Client;
use eventsource_client::Error;
use eventsource_client::ErrorCause;
use eventsource_client::ReconnectOptions;
use eventsource_client::ReconnectingRequest;
use eventsource_client::State;
use eventsource_client::StreamAction;
use eventsource_client::StreamEvent;

fn client_with(opts: ReconnectOptions) -> Client {
    Client::for_url("http://example.com/stream")
        .expect("url must parse")
        .reconnect(opts)
        .build_client()
}

fn expect_backoff(action: StreamAction) -> u64 {
    match action {
        StreamAction::Backoff(ms) => ms,
        other => panic!("expected a backoff, got {:?}", other),
    }
}

fn expect_send(action: StreamAction) -> eventsource_client::OutgoingRequest {
    match action {
        StreamAction::SendRequest(req) => req,
        other => panic!("expected a request, got {:?}", other),
    }
}

fn fail_connect(stream: &mut ReconnectingRequest) -> u64 {
    let delay = expect_backoff(stream.step(StreamEvent::ConnectFailed));
    expect_send(stream.step(StreamEvent::TimerExpired));
    delay
}

#[test]
fn backoff_grows_doubling_until_capped_and_resets_on_success() {
    let opts = ReconnectOptions::reconnect(true)
        .retry_initial(true)
        .delay(100)
        .delay_max(400)
        .backoff_factor(2)
        .build();
    let mut stream = client_with(opts).stream();
    expect_send(stream.step(StreamEvent::Poll));
    assert_eq!(fail_connect(&mut stream), 100);
    assert_eq!(fail_connect(&mut stream), 200);
    assert_eq!(fail_connect(&mut stream), 400);
    assert_eq!(fail_connect(&mut stream), 400);
    // A success collapses the backoff back to the initial delay.
    assert!(matches!(stream.step(StreamEvent::Response(200)), StreamAction::Continue));
    assert_eq!(expect_backoff(stream.step(StreamEvent::BodyEnd)), 100);
}

#[test]
fn success_after_second_failure_resets_wait_to_initial() {
    let opts = ReconnectOptions::reconnect(true)
        .retry_initial(true)
        .delay(100)
        .delay_max(400)
        .backoff_factor(2)
        .build();
    let mut stream = client_with(opts).stream();
    expect_send(stream.step(StreamEvent::Poll));
    assert_eq!(fail_connect(&mut stream), 100);
    assert_eq!(fail_connect(&mut stream), 200);
    assert!(matches!(stream.step(StreamEvent::Response(204)), StreamAction::Continue));
    assert_eq!(expect_backoff(stream.step(StreamEvent::BodyFailed)), 100);
}

#[test]
fn clean_end_without_reconnect_ends_gracefully() {
    let opts = ReconnectOptions::reconnect(false).build();
    let mut stream = client_with(opts).stream();
    expect_send(stream.step(StreamEvent::Poll));
    assert!(matches!(stream.step(StreamEvent::Response(200)), StreamAction::Continue));
    assert!(matches!(
        stream.step(StreamEvent::Chunk(b"data: x\n\n".to_vec())),
        StreamAction::Continue
    ));
    let event = stream.next_queued_event().expect("one event is ready");
    assert_eq!(event.data, b"x".to_vec());
    assert!(matches!(stream.step(StreamEvent::BodyEnd), StreamAction::End));
}

#[test]
fn clean_end_with_reconnect_issues_new_attempt_and_continues() {
    let opts = ReconnectOptions::reconnect(true).delay(50).build();
    let mut stream = client_with(opts).stream();
    expect_send(stream.step(StreamEvent::Poll));
    assert!(matches!(stream.step(StreamEvent::Response(200)), StreamAction::Continue));
    assert!(matches!(
        stream.step(StreamEvent::Chunk(b"data: x\n\n".to_vec())),
        StreamAction::Continue
    ));
    assert!(stream.next_queued_event().is_some());
    assert_eq!(expect_backoff(stream.step(StreamEvent::BodyEnd)), 50);
    expect_send(stream.step(StreamEvent::TimerExpired));
    assert!(matches!(stream.step(StreamEvent::Response(200)), StreamAction::Continue));
    assert!(matches!(
        stream.step(StreamEvent::Chunk(b"data: y\n\n".to_vec())),
        StreamAction::Continue
    ));
    let event = stream.next_queued_event().expect("the stream keeps producing");
    assert_eq!(event.data, b"y".to_vec());
}

#[test]
fn broken_body_without_reconnect_is_fatal() {
    let opts = ReconnectOptions::reconnect(false).build();
    let mut stream = client_with(opts).stream();
    expect_send(stream.step(StreamEvent::Poll));
    assert!(matches!(stream.step(StreamEvent::Response(200)), StreamAction::Continue));
    match stream.step(StreamEvent::BodyFailed) {
        StreamAction::Fail(e) => assert_eq!(e, Error::HttpStream(ErrorCause::Transport)),
        other => panic!("expected a fatal error, got {:?}", other),
    }
}

#[test]
fn non_success_status_is_fatal_even_with_retry_initial() {
    for retry_initial in [false, true] {
        let opts = ReconnectOptions::reconnect(true).retry_initial(retry_initial).build();
        let mut stream = client_with(opts).stream();
        expect_send(stream.step(StreamEvent::Poll));
        match stream.step(StreamEvent::Response(404)) {
            StreamAction::Fail(e) => {
                assert_eq!(e, Error::HttpRequest(ErrorCause::UnexpectedStatus(404)));
            }
            other => panic!("expected a fatal error, got {:?}", other),
        }
    }
}

#[test]
fn failing_first_attempt_without_retry_is_fatal_and_never_waits() {
    let opts = ReconnectOptions::reconnect(true).retry_initial(false).build();
    let mut stream = client_with(opts).stream();
    expect_send(stream.step(StreamEvent::Poll));
    match stream.step(StreamEvent::ConnectFailed) {
        StreamAction::Fail(e) => assert_eq!(e, Error::HttpStream(ErrorCause::Transport)),
        other => panic!("expected a fatal error, got {:?}", other),
    }
    assert!(matches!(stream.state, State::Connecting { retry: false }));
}

#[test]
fn reconnect_attempts_after_the_first_retry_even_without_retry_initial() {
    let opts = ReconnectOptions::reconnect(true).retry_initial(false).delay(10).build();
    let mut stream = client_with(opts).stream();
    expect_send(stream.step(StreamEvent::Poll));
    assert!(matches!(stream.step(StreamEvent::Response(200)), StreamAction::Continue));
    assert_eq!(expect_backoff(stream.step(StreamEvent::BodyEnd)), 10);
    expect_send(stream.step(StreamEvent::TimerExpired));
    // This attempt is a reconnection, so a failure now is retried; no success
    // intervened, so the backoff has grown past the disconnect's 10ms wait.
    assert_eq!(expect_backoff(stream.step(StreamEvent::ConnectFailed)), 20);
}

#[test]
fn emitted_id_is_announced_on_next_reconnect() {
    let opts = ReconnectOptions::reconnect(true).build();
    let mut stream = client_with(opts).stream();
    let first = expect_send(stream.step(StreamEvent::Poll));
    assert_eq!(first.last_event_id, None);
    assert!(matches!(stream.step(StreamEvent::Response(200)), StreamAction::Continue));
    assert!(matches!(
        stream.step(StreamEvent::Chunk(b"id: 99\ndata: x\n\n".to_vec())),
        StreamAction::Continue
    ));
    let event = stream.next_queued_event().unwrap();
    assert_eq!(event.id, b"99".to_vec());
    expect_backoff(stream.step(StreamEvent::BodyEnd));
    let second = expect_send(stream.step(StreamEvent::TimerExpired));
    assert_eq!(second.last_event_id, Some(b"99".to_vec()));
}

#[test]
fn event_without_id_keeps_previous_resumption_id() {
    let opts = ReconnectOptions::reconnect(true).build();
    let mut stream = client_with(opts).stream();
    expect_send(stream.step(StreamEvent::Poll));
    assert!(matches!(stream.step(StreamEvent::Response(200)), StreamAction::Continue));
    assert!(matches!(
        stream.step(StreamEvent::Chunk(b"id: 7\ndata: a\n\ndata: b\n\n".to_vec())),
        StreamAction::Continue
    ));
    assert!(stream.next_queued_event().is_some());
    assert!(stream.next_queued_event().is_some());
    expect_backoff(stream.step(StreamEvent::BodyEnd));
    let req = expect_send(stream.step(StreamEvent::TimerExpired));
    assert_eq!(req.last_event_id, Some(b"7".to_vec()));
}

#[test]
fn seeded_last_event_id_is_announced_on_first_attempt() {
    let client = Client::for_url("http://example.com/stream")
        .expect("url must parse")
        .last_event_id("start-here".to_string())
        .build_client();
    let mut stream = client.stream();
    let req = expect_send(stream.step(StreamEvent::Poll));
    assert_eq!(req.last_event_id, Some(b"start-here".to_vec()));
}

#[test]
fn without_seed_no_resumption_id_is_announced() {
    let mut stream = client_with(ReconnectOptions::reconnect(true).build()).stream();
    let req = expect_send(stream.step(StreamEvent::Poll));
    assert_eq!(req.last_event_id, None);
}

#[test]
fn two_streams_from_one_client_are_independent() {
    let opts = ReconnectOptions::reconnect(true).delay(100).backoff_factor(2).delay_max(400).build();
    let client = client_with(opts);
    let mut one = client.stream();
    let mut two = client.stream();
    expect_send(one.step(StreamEvent::Poll));
    assert!(matches!(one.step(StreamEvent::Response(200)), StreamAction::Continue));
    assert!(matches!(
        one.step(StreamEvent::Chunk(b"id: 5\ndata: x\n\n".to_vec())),
        StreamAction::Continue
    ));
    assert!(one.next_queued_event().is_some());
    expect_backoff(one.step(StreamEvent::BodyEnd));
    // The sibling stream saw none of that: fresh state, no events, its own backoff.
    assert!(matches!(two.state, State::New));
    assert!(two.next_queued_event().is_none());
    assert_eq!(two.next_reconnect_delay, 100);
    assert_eq!(two.last_event_id, Vec::<u8>::new());
    let req = expect_send(two.step(StreamEvent::Poll));
    assert_eq!(req.last_event_id, None);
}

#[test]
fn request_carries_default_and_user_headers() {
    let builder = Client::for_url("http://example.com/stream").expect("url must parse");
    let builder = builder.header("authorization", "token abc").expect("valid header");
    let client = builder.build_client();
    let mut stream = client.stream();
    let req = expect_send(stream.step(StreamEvent::Poll));
    let names: Vec<&str> = req.headers.iter().map(|h| h.name.as_str()).collect();
    assert_eq!(names, vec!["Accept", "Cache-Control", "authorization"]);
    assert_eq!(req.headers[0].value, "text/event-stream");
    assert_eq!(req.headers[1].value, "no-cache");
    assert_eq!(req.headers[2].value, "token abc");
    assert_eq!(req.url, "http://example.com/stream");
}

#[test]
fn header_overwrites_existing_name() {
    let builder = Client::for_url("http://example.com/stream").expect("url must parse");
    let builder = builder.header("Accept", "application/json").expect("valid header");
    let client = builder.build_client();
    assert_eq!(client.props.headers.len(), 2);
    assert_eq!(client.props.headers[0].name, "Accept");
    assert_eq!(client.props.headers[0].value, "application/json");
}

#[test]
fn invalid_header_value_is_rejected() {
    let builder = Client::for_url("http://example.com/stream").expect("url must parse");
    let r = builder.header("authorization", "bad\nvalue");
    match r {
        Err(e) => assert_eq!(e, Error::HttpRequest(ErrorCause::InvalidHeaderValue)),
        Ok(_) => panic!("a header value with a line feed must be rejected"),
    }
}

#[test]
fn invalid_url_is_rejected() {
    match Client::for_url("not a url") {
        Err(e) => assert_eq!(e, Error::HttpRequest(ErrorCause::InvalidUrl)),
        Ok(_) => panic!("a URL with spaces must be rejected"),
    }
}

#[test]
fn header_name_checker_matches_token_rule() {
    assert!(check_header_name("authorization"));
    assert!(check_header_name("X-Custom-Header"));
    assert!(!check_header_name(""));
    assert!(!check_header_name("bad header"));
    assert!(!check_header_name("bad:header"));
}

#[test]
fn unsendable_resumption_id_fails_request_construction() {
    let client = Client::for_url("http://example.com/stream")
        .expect("url must parse")
        .last_event_id("bad\u{1}id".to_string())
        .build_client();
    let mut stream = client.stream();
    match stream.step(StreamEvent::Poll) {
        StreamAction::Fail(e) => {
            assert_eq!(e, Error::HttpRequest(ErrorCause::InvalidLastEventId));
        }
        other => panic!("expected a construction failure, got {:?}", other),
    }
}

#[test]
fn bad_id_mid_stream_is_fatal() {
    let mut stream = client_with(ReconnectOptions::reconnect(true).build()).stream();
    expect_send(stream.step(StreamEvent::Poll));
    assert!(matches!(stream.step(StreamEvent::Response(200)), StreamAction::Continue));
    let mut chunk = b"id: ".to_vec();
    chunk.push(0xfe);
    chunk.extend_from_slice(b"\n\n");
    match stream.step(StreamEvent::Chunk(chunk)) {
        StreamAction::Fail(e) => assert_eq!(e, Error::HttpStream(ErrorCause::InvalidEventId)),
        other => panic!("expected a fatal decoding error, got {:?}", other),
    }
}

#[test]
fn partial_record_continues_across_reconnect() {
    // One parser lives for the stream's whole lifetime, so a record cut off
    // by a disconnection keeps accumulating when the new body resumes it.
    let opts = ReconnectOptions::reconnect(true).build();
    let mut stream = client_with(opts).stream();
    expect_send(stream.step(StreamEvent::Poll));
    assert!(matches!(stream.step(StreamEvent::Response(200)), StreamAction::Continue));
    assert!(matches!(
        stream.step(StreamEvent::Chunk(b"data: first-ha".to_vec())),
        StreamAction::Continue
    ));
    assert!(stream.next_queued_event().is_none());
    expect_backoff(stream.step(StreamEvent::BodyFailed));
    expect_send(stream.step(StreamEvent::TimerExpired));
    assert!(matches!(stream.step(StreamEvent::Response(200)), StreamAction::Continue));
    assert!(matches!(
        stream.step(StreamEvent::Chunk(b"lf-second-half\n\n".to_vec())),
        StreamAction::Continue
    ));
    let event = stream.next_queued_event().expect("the joined record completes");
    assert_eq!(event.data, b"first-half-second-half".to_vec());
}

#[test]
fn state_names_are_stable() {
    assert_eq!(State::New.name(), "new");
    assert_eq!(State::Connecting { retry: false }.name(), "connecting(no-retry)");
    assert_eq!(State::Connecting { retry: true }.name(), "connecting(retry)");
    assert_eq!(State::Connected.name(), "connected");
    assert_eq!(State::WaitingToReconnect.name(), "waiting-to-reconnect");
}

#[test]
fn default_reconnect_options() {
    let opts = ReconnectOptions::default();
    assert!(!opts.retry_initial);
    assert!(opts.reconnect);
    assert_eq!(opts.delay_ms, 1000);
    assert_eq!(opts.delay_max_ms, 60000);
    assert_eq!(opts.backoff_factor, 2);
}
