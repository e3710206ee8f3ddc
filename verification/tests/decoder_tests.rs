use chat_tty::client::{Decoder, InboundChunkPayload, Response, Role, decode_payload, parse_role};
use chat_tty::errors::Errors;

#[test]
fn done_sentinel_yields_done_then_ends() {
    let mut d = Decoder::new();
    let first = d.next_event("[DONE]");
    assert!(matches!(first, Some(Ok(Response::Done))));
    // The sequence has ended: nothing further is yielded, even for a
    // payload that would otherwise decode.
    assert!(d.next_event("[DONE]").is_none());
    assert!(d.next_event("{\"choices\":[{\"index\":0,\"delta\":{}}]}").is_none());
}

#[test]
fn malformed_payload_ends_stream() {
    let mut d = Decoder::new();
    let first = d.next_event("{not json");
    assert!(matches!(first, Some(Err(Errors::DecodeError))));
    assert!(d.next_event("[DONE]").is_none());
}

#[test]
fn begin_response_payload_decodes() {
    let r = decode_payload("{\"choices\":[{\"index\":0,\"delta\":{\"role\":\"assistant\"}}]}");
    match r {
        Ok(Response::BeginResponse { role, response_index }) => {
            assert_eq!(role, Role::Assistant);
            assert_eq!(response_index, 0);
        }
        other => panic!("expected BeginResponse, got {:?}", other),
    }
}

#[test]
fn content_payload_decodes() {
    let r = decode_payload("{\"choices\":[{\"index\":0,\"delta\":{\"content\":\"Hel\"}}]}");
    match r {
        Ok(Response::Content { delta, response_index }) => {
            assert_eq!(delta, "Hel");
            assert_eq!(response_index, 0);
        }
        other => panic!("expected Content, got {:?}", other),
    }
}

#[test]
fn empty_delta_closes() {
    let r = decode_payload("{\"choices\":[{\"index\":2,\"delta\":{}}]}");
    match r {
        Ok(Response::CloseResponse { response_index }) => assert_eq!(response_index, 2),
        other => panic!("expected CloseResponse, got {:?}", other),
    }
}

#[test]
fn extra_fields_are_tolerated() {
    let r = decode_payload(
        "{\"id\":\"c-1\",\"model\":\"gpt-4\",\"choices\":[{\"index\":0,\"delta\":{\"content\":\"hi\"},\"finish_reason\":null}]}",
    );
    assert!(matches!(r, Ok(Response::Content { .. })));
}

#[test]
fn missing_choices_is_decode_error() {
    assert_eq!(
        decode_payload("{\"id\":\"c-1\"}").unwrap_err(),
        Errors::DecodeError
    );
}

#[test]
fn empty_choices_is_decode_error() {
    assert_eq!(
        decode_payload("{\"choices\":[]}").unwrap_err(),
        Errors::DecodeError
    );
}

#[test]
fn missing_index_is_decode_error() {
    assert_eq!(
        decode_payload("{\"choices\":[{\"delta\":{\"content\":\"x\"}}]}").unwrap_err(),
        Errors::DecodeError
    );
}

#[test]
fn unknown_role_is_invalid_role() {
    assert_eq!(
        decode_payload("{\"choices\":[{\"index\":0,\"delta\":{\"role\":\"robot\"}}]}").unwrap_err(),
        Errors::InvalidRole
    );
}

#[test]
fn non_string_content_falls_back_to_close() {
    // A delta whose `content` is not a string matches neither the role nor
    // the content shape, so it closes the message.
    let r = decode_payload("{\"choices\":[{\"index\":0,\"delta\":{\"content\":5}}]}");
    assert!(matches!(r, Ok(Response::CloseResponse { .. })));
}

#[test]
fn parse_role_accepts_the_three_roles() {
    assert_eq!(parse_role("user").unwrap(), Role::User);
    assert_eq!(parse_role("assistant").unwrap(), Role::Assistant);
    assert_eq!(parse_role("system").unwrap(), Role::System);
}

#[test]
fn parse_role_rejects_other_strings() {
    assert_eq!(parse_role("admin").unwrap_err(), Errors::InvalidRole);
    assert_eq!(parse_role("User").unwrap_err(), Errors::InvalidRole);
    assert_eq!(parse_role("").unwrap_err(), Errors::InvalidRole);
}

#[test]
fn role_spelling_round_trips() {
    for role in [Role::System, Role::Assistant, Role::User] {
        assert_eq!(parse_role(role.as_str()).unwrap(), role);
    }
}

#[test]
fn chunk_payload_shapes_are_distinguished() {
    // The same discrimination the decoder applies, seen on the wire types.
    let begin = decode_payload("{\"choices\":[{\"index\":0,\"delta\":{\"role\":\"user\"}}]}");
    assert!(matches!(begin, Ok(Response::BeginResponse { role: Role::User, .. })));
    let _ = InboundChunkPayload::Close {};
}
