use chat_tty::client::{Decoder, Response, Role, parse_role};
use chat_tty::errors::Errors;
use chat_tty::state::{CompleteMessage, IncompleteMessage, Message, Messages, time};

fn complete_at(m: &Messages, i: usize) -> CompleteMessage {
    match m.get(i) {
        Message::Complete(c) => c.clone(),
        Message::InProgress(p) => panic!("message {} still in progress: {:?}", i, p),
    }
}

#[test]
fn hello_stream_builds_one_complete_message() {
    let mut m = Messages::new();
    let events = vec![
        Response::BeginResponse { role: Role::Assistant, response_index: 0 },
        Response::Content { delta: "Hel".to_string(), response_index: 0 },
        Response::Content { delta: "lo".to_string(), response_index: 0 },
        Response::CloseResponse { response_index: 0 },
        Response::Done,
    ];
    assert!(m.apply_events(&events, 42).is_ok());
    assert_eq!(m.len(), 1);
    let c = complete_at(&m, 0);
    assert_eq!(c.direction, Role::Assistant);
    assert_eq!(c.text, "Hello");
    assert_eq!(c.time, 42);
}

#[test]
fn content_without_begin_is_protocol_violation() {
    let mut m = Messages::new();
    let ev = Response::Content { delta: "x".to_string(), response_index: 0 };
    assert_eq!(m.apply_event(&ev, 1).unwrap_err(), Errors::ProtocolViolation);
    // The conversation is unchanged.
    assert_eq!(m.len(), 0);
}

#[test]
fn begin_while_open_is_protocol_violation() {
    let mut m = Messages::new();
    let begin = Response::BeginResponse { role: Role::Assistant, response_index: 0 };
    assert!(m.apply_event(&begin, 1).is_ok());
    assert_eq!(m.apply_event(&begin, 2).unwrap_err(), Errors::ProtocolViolation);
    assert_eq!(m.len(), 1);
    assert!(m.has_open());
}

#[test]
fn close_without_open_is_protocol_violation() {
    let mut m = Messages::new();
    let close = Response::CloseResponse { response_index: 0 };
    assert_eq!(m.apply_event(&close, 1).unwrap_err(), Errors::ProtocolViolation);
    m.push_user_message("hi".to_string(), 1);
    assert_eq!(m.apply_event(&close, 2).unwrap_err(), Errors::ProtocolViolation);
    assert_eq!(m.len(), 1);
}

#[test]
fn done_without_open_is_a_no_op() {
    let mut m = Messages::new();
    assert!(m.apply_event(&Response::Done, 1).is_ok());
    assert_eq!(m.len(), 0);
    m.push_user_message("hi".to_string(), 1);
    assert!(m.apply_event(&Response::Done, 2).is_ok());
    let c = complete_at(&m, 0);
    assert_eq!(c.time, 1, "a complete message keeps the timestamp it was completed with");
}

#[test]
fn done_finalizes_a_still_open_message() {
    let mut m = Messages::new();
    let begin = Response::BeginResponse { role: Role::Assistant, response_index: 0 };
    let content = Response::Content { delta: "partial".to_string(), response_index: 0 };
    assert!(m.apply_event(&begin, 1).is_ok());
    assert!(m.apply_event(&content, 2).is_ok());
    assert!(m.apply_event(&Response::Done, 3).is_ok());
    let c = complete_at(&m, 0);
    assert_eq!(c.text, "partial");
    assert_eq!(c.time, 3);
}

#[test]
fn completing_a_message_happens_exactly_once() {
    let open = Message::InProgress(IncompleteMessage {
        direction: Role::Assistant,
        partial_text: "draft".to_string(),
    });
    let first = open.into_complete(10);
    assert_eq!(first.text, "draft");
    assert_eq!(first.time, 10);
    // Converting an already complete message at a later time is a no-op:
    // identical content and timestamp.
    let again = Message::Complete(first.clone()).into_complete(99);
    assert_eq!(again.text, first.text);
    assert_eq!(again.time, first.time);
    assert_eq!(again.direction, first.direction);
}

#[test]
fn payload_keeps_complete_messages_in_order_and_skips_open_ones() {
    let mut m = Messages::new();
    m.push_user_message("first".to_string(), 1);
    let events = vec![
        Response::BeginResponse { role: Role::Assistant, response_index: 0 },
        Response::Content { delta: "reply".to_string(), response_index: 0 },
        Response::CloseResponse { response_index: 0 },
    ];
    assert!(m.apply_events(&events, 2).is_ok());
    m.push_user_message("second".to_string(), 3);
    // Leave one message open: it must not be replayed to the server.
    let begin = Response::BeginResponse { role: Role::Assistant, response_index: 0 };
    assert!(m.apply_event(&begin, 4).is_ok());

    let payload = m.to_payload();
    assert_eq!(payload.len(), 3);
    assert_eq!(payload[0].role, "user");
    assert_eq!(payload[0].content, "first");
    assert_eq!(payload[1].role, "assistant");
    assert_eq!(payload[1].content, "reply");
    assert_eq!(payload[2].role, "user");
    assert_eq!(payload[2].content, "second");
}

#[test]
fn payload_entry_round_trips_as_a_user_message() {
    let mut m = Messages::new();
    m.push_user_message("hello there".to_string(), 7);
    let payload = m.to_payload();
    assert_eq!(payload.len(), 1);
    // Decoding the entry's role gives back the role it was written from.
    assert_eq!(parse_role(&payload[0].role).unwrap(), Role::User);
    // Resubmitting the entry's content as a new user message preserves the
    // literal text.
    let mut again = Messages::new();
    again.push_user_message(payload[0].content.clone(), 8);
    let second = again.to_payload();
    assert_eq!(second[0].content, "hello there");
}

#[test]
fn apply_events_stops_at_the_first_error() {
    let mut m = Messages::new();
    m.push_user_message("hi".to_string(), 1);
    let events = vec![
        Response::BeginResponse { role: Role::Assistant, response_index: 0 },
        Response::Content { delta: "ok".to_string(), response_index: 0 },
        Response::CloseResponse { response_index: 0 },
        // Content with nothing open: the error transition.
        Response::Content { delta: "late".to_string(), response_index: 0 },
    ];
    assert_eq!(m.apply_events(&events, 2).unwrap_err(), Errors::ProtocolViolation);
    // Partial progress is kept, not rolled back.
    assert_eq!(m.len(), 2);
    assert_eq!(complete_at(&m, 1).text, "ok");
}

#[test]
fn request_payload_always_asks_for_a_stream() {
    let mut m = Messages::new();
    m.push_user_message("hi".to_string(), 1);
    let p = m.request_payload("gpt-4");
    assert_eq!(p.model, "gpt-4");
    assert!(p.stream);
    assert_eq!(p.messages.len(), 1);
    assert_eq!(p.messages[0].role, "user");
}

#[test]
fn decoder_drives_the_accumulator_end_to_end() {
    let payloads = [
        "{\"choices\":[{\"index\":0,\"delta\":{\"role\":\"assistant\"}}]}",
        "{\"choices\":[{\"index\":0,\"delta\":{\"content\":\"Hel\"}}]}",
        "{\"choices\":[{\"index\":0,\"delta\":{\"content\":\"lo\"}}]}",
        "{\"choices\":[{\"index\":0,\"delta\":{}}]}",
        "[DONE]",
    ];
    let mut decoder = Decoder::new();
    let mut m = Messages::new();
    for payload in payloads {
        match decoder.next_event(payload) {
            Some(Ok(ev)) => assert!(m.apply_event(&ev, 5).is_ok()),
            Some(Err(e)) => panic!("decode failed: {:?}", e),
            None => panic!("decoder ended early"),
        }
    }
    assert!(decoder.next_event("[DONE]").is_none());
    let c = complete_at(&m, 0);
    assert_eq!(c.direction, Role::Assistant);
    assert_eq!(c.text, "Hello");
}

#[test]
fn clock_reads_after_the_epoch() {
    let t = time();
    assert!(t > 0);
}
