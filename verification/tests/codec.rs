//! The wire codec, held against the daemon's own protocol library:
//! greetd_ipc encodes with serde_json, so its frames are exactly what a
//! real daemon reads and writes.

use greeters::codec::{
    decode_request, decode_response, encode_request, encode_response, frame_json, frame_length,
    DecodeError,
};
use greeters::message::{AuthMessageType, ErrorType, Request, Response};

use greetd_ipc::codec::SyncCodec;

/// The reference bytes greetd_ipc would put on the wire.
fn reference_request_frame(r: &greetd_ipc::Request) -> Vec<u8> {
    let mut buf: Vec<u8> = Vec::new();
    r.write_to(&mut buf).unwrap();
    buf
}

fn reference_response_frame(r: &greetd_ipc::Response) -> Vec<u8> {
    let mut buf: Vec<u8> = Vec::new();
    r.write_to(&mut buf).unwrap();
    buf
}

/// Our frame for a request: JSON text wrapped with the length prefix.
fn our_request_frame(r: &Request) -> Vec<u8> {
    frame_json(encode_request(r).as_str()).unwrap()
}

fn our_response_payload(r: &Response) -> Vec<u8> {
    encode_response(r).into_bytes()
}

fn request_fixtures() -> Vec<(Request, greetd_ipc::Request)> {
    vec![
        (
            Request::CreateSession { username: String::from("alice") },
            greetd_ipc::Request::CreateSession { username: String::from("alice") },
        ),
        (
            Request::PostAuthMessageResponse { response: Some(String::from("hunter2")) },
            greetd_ipc::Request::PostAuthMessageResponse {
                response: Some(String::from("hunter2")),
            },
        ),
        (
            Request::PostAuthMessageResponse { response: None },
            greetd_ipc::Request::PostAuthMessageResponse { response: None },
        ),
        (
            Request::StartSession {
                cmd: vec![String::from("/bin/sh"), String::from("-l")],
                env: vec![String::from("XDG_SESSION_TYPE=wayland")],
            },
            greetd_ipc::Request::StartSession {
                cmd: vec![String::from("/bin/sh"), String::from("-l")],
                env: vec![String::from("XDG_SESSION_TYPE=wayland")],
            },
        ),
        (
            Request::StartSession { cmd: vec![], env: vec![] },
            greetd_ipc::Request::StartSession { cmd: vec![], env: vec![] },
        ),
        (Request::CancelSession, greetd_ipc::Request::CancelSession),
    ]
}

fn response_fixtures() -> Vec<(Response, greetd_ipc::Response)> {
    vec![
        (Response::Success, greetd_ipc::Response::Success),
        (
            Response::Error {
                error_type: ErrorType::AuthError,
                description: String::from("Authentication failed"),
            },
            greetd_ipc::Response::Error {
                error_type: greetd_ipc::ErrorType::AuthError,
                description: String::from("Authentication failed"),
            },
        ),
        (
            Response::Error {
                error_type: ErrorType::Error,
                description: String::from("broken \"quote\" and \\slash\nnewline"),
            },
            greetd_ipc::Response::Error {
                error_type: greetd_ipc::ErrorType::Error,
                description: String::from("broken \"quote\" and \\slash\nnewline"),
            },
        ),
        (
            Response::AuthMessage {
                auth_message_type: AuthMessageType::Secret,
                auth_message: String::from("Password:"),
            },
            greetd_ipc::Response::AuthMessage {
                auth_message_type: greetd_ipc::AuthMessageType::Secret,
                auth_message: String::from("Password:"),
            },
        ),
        (
            Response::AuthMessage {
                auth_message_type: AuthMessageType::Visible,
                auth_message: String::from("Login:"),
            },
            greetd_ipc::Response::AuthMessage {
                auth_message_type: greetd_ipc::AuthMessageType::Visible,
                auth_message: String::from("Login:"),
            },
        ),
        (
            Response::AuthMessage {
                auth_message_type: AuthMessageType::Info,
                auth_message: String::from("tea is ready \u{1F375} \u{1}"),
            },
            greetd_ipc::Response::AuthMessage {
                auth_message_type: greetd_ipc::AuthMessageType::Info,
                auth_message: String::from("tea is ready \u{1F375} \u{1}"),
            },
        ),
        (
            Response::AuthMessage {
                auth_message_type: AuthMessageType::Error,
                auth_message: String::from(""),
            },
            greetd_ipc::Response::AuthMessage {
                auth_message_type: greetd_ipc::AuthMessageType::Error,
                auth_message: String::from(""),
            },
        ),
    ]
}

#[test]
fn request_frames_match_the_daemon_library_byte_for_byte() {
    for (ours, reference) in request_fixtures() {
        assert_eq!(
            our_request_frame(&ours),
            reference_request_frame(&reference),
            "frame mismatch for {:?}",
            ours
        );
    }
}

#[test]
fn response_payloads_match_the_daemon_library_byte_for_byte() {
    for (ours, reference) in response_fixtures() {
        let reference_frame = reference_response_frame(&reference);
        let mut framed = frame_json(encode_response(&ours).as_str()).unwrap();
        assert_eq!(framed, reference_frame, "frame mismatch for {:?}", ours);
        // And the length prefix reads back as the payload's length.
        let n = frame_length(framed[0], framed[1], framed[2], framed[3]);
        let payload = framed.split_off(4);
        assert_eq!(n as usize, payload.len());
    }
}

#[test]
fn requests_round_trip() {
    for (ours, _) in request_fixtures() {
        let payload = encode_request(&ours).into_bytes();
        assert_eq!(decode_request(payload), Ok(ours.clone()), "round trip of {:?}", ours);
    }
}

#[test]
fn responses_round_trip() {
    for (ours, _) in response_fixtures() {
        let payload = our_response_payload(&ours);
        assert_eq!(decode_response(payload), Ok(ours.clone()), "round trip of {:?}", ours);
    }
}

#[test]
fn daemon_encoded_responses_decode() {
    // Frames produced by the daemon's own library, decoded by us.
    for (ours, reference) in response_fixtures() {
        let frame = reference_response_frame(&reference);
        let payload = frame[4..].to_vec();
        assert_eq!(decode_response(payload), Ok(ours.clone()));
    }
}

#[test]
fn our_requests_decode_with_the_daemon_library() {
    // Frames produced by us, decoded by the daemon's own library.
    for (ours, _) in request_fixtures() {
        let frame = our_request_frame(&ours);
        let mut cursor = std::io::Cursor::new(frame);
        let decoded = greetd_ipc::Request::read_from(&mut cursor).unwrap();
        let re_encoded = reference_request_frame(&decoded);
        assert_eq!(re_encoded, our_request_frame(&ours));
    }
}

#[test]
fn invalid_utf8_is_a_utf8_error() {
    assert_eq!(decode_response(vec![0xff, 0xfe, b'{']), Err(DecodeError::Utf8));
}

#[test]
fn malformed_json_is_a_json_error() {
    assert_eq!(decode_response(b"{\"type\":".to_vec()), Err(DecodeError::Json));
    assert_eq!(decode_response(b"".to_vec()), Err(DecodeError::Json));
    assert_eq!(decode_response(b"42".to_vec()), Err(DecodeError::Json));
    assert_eq!(
        decode_response(b"{\"type\":\"success\"} trailing".to_vec()),
        Err(DecodeError::Json)
    );
}

#[test]
fn unknown_shapes_are_a_shape_error() {
    assert_eq!(decode_response(b"{\"type\":\"nope\"}".to_vec()), Err(DecodeError::Shape));
    // A known tag with an extra field does not match the shape.
    assert_eq!(
        decode_response(b"{\"type\":\"success\",\"extra\":\"x\"}".to_vec()),
        Err(DecodeError::Shape)
    );
    // A duplicated tag leaves a required field missing.
    assert_eq!(
        decode_response(b"{\"type\":\"error\",\"type\":\"error\",\"description\":\"d\"}".to_vec()),
        Err(DecodeError::Shape)
    );
    // A prompt kind outside the enumeration is refused.
    assert_eq!(
        decode_response(
            b"{\"type\":\"auth_message\",\"auth_message_type\":\"loud\",\"auth_message\":\"m\"}"
                .to_vec()
        ),
        Err(DecodeError::Shape)
    );
}

#[test]
fn field_order_and_whitespace_are_insignificant() {
    let payload =
        b" { \"description\" : \"oops\" , \"error_type\" : \"auth_error\" , \"type\" : \"error\" } "
            .to_vec();
    assert_eq!(
        decode_response(payload),
        Ok(Response::Error {
            error_type: ErrorType::AuthError,
            description: String::from("oops"),
        })
    );
}

#[test]
fn optional_fields_default_as_the_daemon_defaults_them() {
    // A missing `response` is no response; a missing `env` is empty.
    assert_eq!(
        decode_request(b"{\"type\":\"post_auth_message_response\"}".to_vec()),
        Ok(Request::PostAuthMessageResponse { response: None })
    );
    assert_eq!(
        decode_request(b"{\"type\":\"start_session\",\"cmd\":[\"/bin/sh\"]}".to_vec()),
        Ok(Request::StartSession { cmd: vec![String::from("/bin/sh")], env: vec![] })
    );
}

#[test]
fn unicode_escapes_decode() {
    let payload = b"{\"type\":\"auth_message\",\"auth_message_type\":\"info\",\"auth_message\":\"\\u0041\\u00e9\\t\"}"
        .to_vec();
    assert_eq!(
        decode_response(payload),
        Ok(Response::AuthMessage {
            auth_message_type: AuthMessageType::Info,
            auth_message: String::from("A\u{e9}\t"),
        })
    );
    // A lone surrogate escape is not a scalar and is refused.
    let bad = b"{\"type\":\"auth_message\",\"auth_message_type\":\"info\",\"auth_message\":\"\\ud800\"}"
        .to_vec();
    assert_eq!(decode_response(bad), Err(DecodeError::Json));
}

#[test]
fn control_characters_escape_exactly_like_the_daemon_library() {
    let text: String = (1u8..0x20).map(|b| b as char).collect();
    let ours = Response::AuthMessage {
        auth_message_type: AuthMessageType::Info,
        auth_message: text.clone(),
    };
    let reference = greetd_ipc::Response::AuthMessage {
        auth_message_type: greetd_ipc::AuthMessageType::Info,
        auth_message: text,
    };
    let framed = frame_json(encode_response(&ours).as_str()).unwrap();
    assert_eq!(framed, reference_response_frame(&reference));
    let payload = framed[4..].to_vec();
    assert_eq!(decode_response(payload), Ok(ours));
}
