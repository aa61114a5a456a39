//! The wire codec: protocol messages to and from length-prefixed JSON
//! frames.
//!
//! A frame is a 32-bit little-endian byte length followed by a compact
//! JSON document, UTF-8 encoded.  (The daemon reads the length in the
//! machine's native byte order, which is little-endian on the platforms
//! this greeter targets.)  The document is a `"type"`-discriminated
//! object; field names and the `kind` strings below are byte-for-byte
//! part of the daemon's contract.  Anything that does not match one of
//! the known shapes decodes to an error, never to a guessed message.

use vstd::prelude::*;

use crate::json::JsonValue;
use crate::json::JsonValueView;
use crate::json::chars_to_string;
use crate::json::e_lookup;
use crate::json::e_parse_document;
use crate::json::is_lit;
use crate::json::jobj;
use crate::json::jobj_items;
use crate::json::lookup;
use crate::json::pairs_view;
use crate::json::parse_document;
use crate::json::push_jarr;
use crate::json::push_jstr;
use crate::json::str_chars;
use crate::message::AuthMessageType;
use crate::message::ErrorType;
use crate::message::Request;
use crate::message::RequestView;
use crate::message::Response;
use crate::message::ResponseView;

verus! {

use vstd::utf8::encode_utf8;
use vstd::utf8::valid_utf8;
use vstd::utf8::decode_utf8;
use vstd::string::StrSliceExecFns;

/// Why a payload failed to decode.
#[derive(Clone, Copy, Debug, PartialEq, Eq, Structural)]
pub enum DecodeError {
    /// The payload is not valid UTF-8.
    Utf8,
    /// The payload is not a JSON document of the protocol's shape.
    Json,
    /// The document is JSON but matches no known message shape.
    Shape,
}

// ---------------------------------------------------------------------
// Encoding, spec side
// ---------------------------------------------------------------------

/// The wire name of an error kind.
pub open spec fn error_type_text(e: ErrorType) -> Seq<char> {
    match e {
        ErrorType::AuthError => "auth_error"@,
        ErrorType::Error => "error"@,
    }
}

/// The wire name of an auth message kind.
pub open spec fn auth_message_type_text(t: AuthMessageType) -> Seq<char> {
    match t {
        AuthMessageType::Visible => "visible"@,
        AuthMessageType::Secret => "secret"@,
        AuthMessageType::Info => "info"@,
        AuthMessageType::Error => "error"@,
    }
}

/// The members of a request's JSON object, in canonical order.
pub open spec fn request_pairs(r: RequestView) -> Seq<(Seq<char>, JsonValueView)> {
    match r {
        RequestView::CreateSession { username } => seq![
            ("type"@, JsonValueView::Str("create_session"@)),
            ("username"@, JsonValueView::Str(username)),
        ],
        RequestView::PostAuthMessageResponse { response } => match response {
            Some(t) => seq![
                ("type"@, JsonValueView::Str("post_auth_message_response"@)),
                ("response"@, JsonValueView::Str(t)),
            ],
            None => seq![
                ("type"@, JsonValueView::Str("post_auth_message_response"@)),
                ("response"@, JsonValueView::Null),
            ],
        },
        RequestView::StartSession { cmd, env } => seq![
            ("type"@, JsonValueView::Str("start_session"@)),
            ("cmd"@, JsonValueView::Arr(cmd)),
            ("env"@, JsonValueView::Arr(env)),
        ],
        RequestView::CancelSession => seq![("type"@, JsonValueView::Str("cancel_session"@))],
    }
}

/// The canonical JSON text of a request.
pub open spec fn encode_request_chars(r: RequestView) -> Seq<char> {
    jobj(request_pairs(r))
}

/// The members of a response's JSON object, in canonical order.
pub open spec fn response_pairs(r: ResponseView) -> Seq<(Seq<char>, JsonValueView)> {
    match r {
        ResponseView::Success => seq![("type"@, JsonValueView::Str("success"@))],
        ResponseView::Error { error_type, description } => seq![
            ("type"@, JsonValueView::Str("error"@)),
            ("error_type"@, JsonValueView::Str(error_type_text(error_type))),
            ("description"@, JsonValueView::Str(description)),
        ],
        ResponseView::AuthMessage { auth_message_type, auth_message } => seq![
            ("type"@, JsonValueView::Str("auth_message"@)),
            ("auth_message_type"@, JsonValueView::Str(auth_message_type_text(auth_message_type))),
            ("auth_message"@, JsonValueView::Str(auth_message)),
        ],
    }
}

/// The canonical JSON text of a response.
pub open spec fn encode_response_chars(r: ResponseView) -> Seq<char> {
    jobj(response_pairs(r))
}

// ---------------------------------------------------------------------
// Decoding, spec side
// ---------------------------------------------------------------------

/// The error kind named by a wire string, if any.
pub open spec fn error_type_of(t: Seq<char>) -> Option<ErrorType> {
    if t == "auth_error"@ {
        Some(ErrorType::AuthError)
    } else if t == "error"@ {
        Some(ErrorType::Error)
    } else {
        None
    }
}

/// The auth message kind named by a wire string, if any.
pub open spec fn auth_message_type_of(t: Seq<char>) -> Option<AuthMessageType> {
    if t == "visible"@ {
        Some(AuthMessageType::Visible)
    } else if t == "secret"@ {
        Some(AuthMessageType::Secret)
    } else if t == "info"@ {
        Some(AuthMessageType::Info)
    } else if t == "error"@ {
        Some(AuthMessageType::Error)
    } else {
        None
    }
}

/// The response named by a parsed JSON object, if it matches a known
/// shape exactly: the tag, every required field, and nothing else.
pub open spec fn response_of_pairs(ms: Seq<(Seq<char>, JsonValueView)>) -> Option<ResponseView> {
    match lookup(ms, "type"@) {
        Some(JsonValueView::Str(t)) => if t == "success"@ {
            if ms.len() == 1 {
                Some(ResponseView::Success)
            } else {
                None
            }
        } else if t == "error"@ {
            if ms.len() == 3 {
                match lookup(ms, "error_type"@) {
                    Some(JsonValueView::Str(et)) => match lookup(ms, "description"@) {
                        Some(JsonValueView::Str(d)) => match error_type_of(et) {
                            Some(e) => Some(ResponseView::Error { error_type: e, description: d }),
                            None => None,
                        },
                        _ => None,
                    },
                    _ => None,
                }
            } else {
                None
            }
        } else if t == "auth_message"@ {
            if ms.len() == 3 {
                match lookup(ms, "auth_message_type"@) {
                    Some(JsonValueView::Str(mt)) => match lookup(ms, "auth_message"@) {
                        Some(JsonValueView::Str(m)) => match auth_message_type_of(mt) {
                            Some(k) => Some(
                                ResponseView::AuthMessage {
                                    auth_message_type: k,
                                    auth_message: m,
                                },
                            ),
                            None => None,
                        },
                        _ => None,
                    },
                    _ => None,
                }
            } else {
                None
            }
        } else {
            None
        },
        _ => None,
    }
}

/// The request named by a parsed JSON object, if it matches a known
/// shape exactly.  As the daemon does, a missing `response` counts as
/// no response and a missing `env` as an empty environment.
pub open spec fn request_of_pairs(ms: Seq<(Seq<char>, JsonValueView)>) -> Option<RequestView> {
    match lookup(ms, "type"@) {
        Some(JsonValueView::Str(t)) => if t == "create_session"@ {
            if ms.len() == 2 {
                match lookup(ms, "username"@) {
                    Some(JsonValueView::Str(u)) => Some(RequestView::CreateSession { username: u }),
                    _ => None,
                }
            } else {
                None
            }
        } else if t == "post_auth_message_response"@ {
            if ms.len() == 1 {
                Some(RequestView::PostAuthMessageResponse { response: None })
            } else if ms.len() == 2 {
                match lookup(ms, "response"@) {
                    Some(JsonValueView::Str(x)) => Some(
                        RequestView::PostAuthMessageResponse { response: Some(x) },
                    ),
                    Some(JsonValueView::Null) => Some(
                        RequestView::PostAuthMessageResponse { response: None },
                    ),
                    _ => None,
                }
            } else {
                None
            }
        } else if t == "start_session"@ {
            if ms.len() == 2 {
                match lookup(ms, "cmd"@) {
                    Some(JsonValueView::Arr(cmd)) => Some(
                        RequestView::StartSession { cmd, env: Seq::empty() },
                    ),
                    _ => None,
                }
            } else if ms.len() == 3 {
                match lookup(ms, "cmd"@) {
                    Some(JsonValueView::Arr(cmd)) => match lookup(ms, "env"@) {
                        Some(JsonValueView::Arr(env)) => Some(
                            RequestView::StartSession { cmd, env },
                        ),
                        _ => None,
                    },
                    _ => None,
                }
            } else {
                None
            }
        } else if t == "cancel_session"@ {
            if ms.len() == 1 {
                Some(RequestView::CancelSession)
            } else {
                None
            }
        } else {
            None
        },
        _ => None,
    }
}

/// Decoding a response from the characters of a JSON document.
pub open spec fn decode_response_chars(s: Seq<char>) -> Option<ResponseView> {
    match parse_document(s) {
        Some(ms) => response_of_pairs(ms),
        None => None,
    }
}

/// Decoding a request from the characters of a JSON document.
pub open spec fn decode_request_chars(s: Seq<char>) -> Option<RequestView> {
    match parse_document(s) {
        Some(ms) => request_of_pairs(ms),
        None => None,
    }
}

/// Decoding a response from the bytes of a frame's payload.
pub open spec fn spec_decode_response(payload: Seq<u8>) -> Result<ResponseView, DecodeError> {
    if !valid_utf8(payload) {
        Err(DecodeError::Utf8)
    } else {
        match parse_document(decode_utf8(payload)) {
            None => Err(DecodeError::Json),
            Some(ms) => match response_of_pairs(ms) {
                Some(r) => Ok(r),
                None => Err(DecodeError::Shape),
            },
        }
    }
}

/// Decoding a request from the bytes of a frame's payload.
pub open spec fn spec_decode_request(payload: Seq<u8>) -> Result<RequestView, DecodeError> {
    if !valid_utf8(payload) {
        Err(DecodeError::Utf8)
    } else {
        match parse_document(decode_utf8(payload)) {
            None => Err(DecodeError::Json),
            Some(ms) => match request_of_pairs(ms) {
                Some(r) => Ok(r),
                None => Err(DecodeError::Shape),
            },
        }
    }
}

// ---------------------------------------------------------------------
// Framing, spec side
// ---------------------------------------------------------------------

/// A 32-bit length as four little-endian bytes.
pub open spec fn le32(n: int) -> Seq<u8> {
    seq![
        (n % 256) as u8,
        ((n / 256) % 256) as u8,
        ((n / 256 / 256) % 256) as u8,
        ((n / 256 / 256 / 256) % 256) as u8,
    ]
}

/// A whole frame: the payload's byte length, then the payload.
pub open spec fn spec_frame(payload: Seq<u8>) -> Seq<u8> {
    le32(payload.len() as int) + payload
}

/// The canonical frame of a request: what the client writes to the
/// daemon's socket.
pub open spec fn request_frame(r: RequestView) -> Seq<u8> {
    spec_frame(encode_utf8(encode_request_chars(r)))
}

// ---------------------------------------------------------------------
// Round trip: decoding an encoding yields the original message
// ---------------------------------------------------------------------

/// Reading the members of an encoded response back as a response yields
/// the response itself.
pub proof fn lemma_response_of_pairs_inverse(r: ResponseView)
    ensures
        response_of_pairs(response_pairs(r)) == Some(r),
{
    reveal_with_fuel(lookup, 4);
    reveal_strlit("type");
    reveal_strlit("success");
    reveal_strlit("error");
    reveal_strlit("auth_message");
    reveal_strlit("error_type");
    reveal_strlit("description");
    reveal_strlit("auth_error");
    reveal_strlit("auth_message_type");
    reveal_strlit("visible");
    reveal_strlit("secret");
    reveal_strlit("info");
    assert("type"@.len() == 4);
    assert("success"@.len() == 7);
    assert("error"@.len() == 5);
    assert("auth_message"@.len() == 12);
    assert("error_type"@.len() == 10);
    assert("description"@.len() == 11);
    assert("auth_error"@.len() == 10);
    assert("auth_message_type"@.len() == 17);
    assert("visible"@.len() == 7);
    assert("secret"@.len() == 6);
    assert("info"@.len() == 4);
    let ps = response_pairs(r);
    match r {
        ResponseView::Success => {
            assert(lookup(ps, "type"@) == Some(JsonValueView::Str("success"@)));
        },
        ResponseView::Error { error_type, description } => {
            assert(ps[0].0 == "type"@);
            assert(ps[1].0 == "error_type"@);
            assert(ps[2].0 == "description"@);
            assert(ps.drop_first() =~= seq![ps[1], ps[2]]);
            assert(seq![ps[1], ps[2]].drop_first() =~= seq![ps[2]]);
            assert(ps.drop_first()[0] == ps[1]);
            assert(lookup(ps, "type"@) == Some(JsonValueView::Str("error"@)));
            assert(lookup(ps, "error_type"@) == Some(
                JsonValueView::Str(error_type_text(error_type)),
            ));
            assert(lookup(ps, "description"@) == Some(JsonValueView::Str(description)));
            assert(error_type_of(error_type_text(error_type)) == Some(error_type));
        },
        ResponseView::AuthMessage { auth_message_type, auth_message } => {
            assert(ps[0].0 == "type"@);
            assert(ps[1].0 == "auth_message_type"@);
            assert(ps[2].0 == "auth_message"@);
            assert(ps.drop_first() =~= seq![ps[1], ps[2]]);
            assert(seq![ps[1], ps[2]].drop_first() =~= seq![ps[2]]);
            assert(ps.drop_first()[0] == ps[1]);
            assert(lookup(ps, "type"@) == Some(JsonValueView::Str("auth_message"@)));
            assert(lookup(ps, "auth_message_type"@) == Some(
                JsonValueView::Str(auth_message_type_text(auth_message_type)),
            ));
            assert(lookup(ps, "auth_message"@) == Some(JsonValueView::Str(auth_message)));
            assert(auth_message_type_of(auth_message_type_text(auth_message_type)) == Some(
                auth_message_type,
            ));
        },
    }
}

/// Reading the members of an encoded request back as a request yields
/// the request itself.
pub proof fn lemma_request_of_pairs_inverse(r: RequestView)
    ensures
        request_of_pairs(request_pairs(r)) == Some(r),
{
    reveal_with_fuel(lookup, 4);
    reveal_strlit("type");
    reveal_strlit("create_session");
    reveal_strlit("post_auth_message_response");
    reveal_strlit("start_session");
    reveal_strlit("cancel_session");
    reveal_strlit("username");
    reveal_strlit("response");
    reveal_strlit("cmd");
    reveal_strlit("env");
    assert("type"@.len() == 4);
    assert("create_session"@.len() == 14);
    assert("post_auth_message_response"@.len() == 26);
    assert("start_session"@.len() == 13);
    assert("cancel_session"@.len() == 14);
    assert("username"@.len() == 8);
    assert("response"@.len() == 8);
    assert("cmd"@.len() == 3);
    assert("env"@.len() == 3);
    let ps = request_pairs(r);
    match r {
        RequestView::CreateSession { username } => {
            assert(ps[0].0 == "type"@);
            assert(ps[1].0 == "username"@);
            assert(ps.drop_first() =~= seq![ps[1]]);
            assert(ps.drop_first()[0] == ps[1]);
            assert(lookup(ps, "type"@) == Some(JsonValueView::Str("create_session"@)));
            assert(lookup(ps, "username"@) == Some(JsonValueView::Str(username)));
        },
        RequestView::PostAuthMessageResponse { response } => {
            assert(ps[0].0 == "type"@);
            assert(ps[1].0 == "response"@);
            assert(ps.drop_first() =~= seq![ps[1]]);
            assert(ps.drop_first()[0] == ps[1]);
            assert(lookup(ps, "type"@) == Some(
                JsonValueView::Str("post_auth_message_response"@),
            ));
            match response {
                Some(t) => {
                    assert(lookup(ps, "response"@) == Some(JsonValueView::Str(t)));
                },
                None => {
                    assert(lookup(ps, "response"@) == Some(JsonValueView::Null));
                },
            }
        },
        RequestView::StartSession { cmd, env } => {
            assert(ps[0].0 == "type"@);
            assert(ps[1].0 == "cmd"@);
            assert(ps[2].0 == "env"@);
            assert(ps.drop_first() =~= seq![ps[1], ps[2]]);
            assert(seq![ps[1], ps[2]].drop_first() =~= seq![ps[2]]);
            assert(ps.drop_first()[0] == ps[1]);
            assert(lookup(ps, "type"@) == Some(JsonValueView::Str("start_session"@)));
            assert(lookup(ps, "cmd"@) == Some(JsonValueView::Arr(cmd)));
            assert("cmd"@[0] != "env"@[0]);
            assert("cmd"@ != "env"@);
            assert(lookup(ps, "env"@) == Some(JsonValueView::Arr(env)));
        },
        RequestView::CancelSession => {
            assert("create_session"@[1] != "cancel_session"@[1]);
            assert("create_session"@ != "cancel_session"@);
            assert(lookup(ps, "type"@) == Some(JsonValueView::Str("cancel_session"@)));
        },
    }
}

/// The codec is lossless: decoding the UTF-8 bytes of a request's
/// canonical encoding yields that request, for every request.
pub proof fn lemma_request_round_trip(r: RequestView)
    ensures
        spec_decode_request(encode_utf8(encode_request_chars(r))) == Ok::<
            RequestView,
            DecodeError,
        >(r),
{
    let chars = encode_request_chars(r);
    vstd::utf8::encode_utf8_valid_utf8(chars);
    vstd::utf8::encode_utf8_decode_utf8(chars);
    crate::json::lemma_parse_jobj_document(request_pairs(r));
    lemma_request_of_pairs_inverse(r);
}

/// The codec is lossless: decoding the UTF-8 bytes of a response's
/// canonical encoding yields that response, for every response.
pub proof fn lemma_response_round_trip(r: ResponseView)
    ensures
        spec_decode_response(encode_utf8(encode_response_chars(r))) == Ok::<
            ResponseView,
            DecodeError,
        >(r),
{
    let chars = encode_response_chars(r);
    vstd::utf8::encode_utf8_valid_utf8(chars);
    vstd::utf8::encode_utf8_decode_utf8(chars);
    crate::json::lemma_parse_jobj_document(response_pairs(r));
    lemma_response_of_pairs_inverse(r);
}

// ---------------------------------------------------------------------
// Exec side
// ---------------------------------------------------------------------

/// Relies on `String::from_utf8`: `Some` exactly for valid UTF-8 input,
/// yielding the string those bytes encode.
#[verifier::external_body]
fn bytes_to_string(v: Vec<u8>) -> (r: Option<String>)
    ensures
        r matches Some(s) ==> encode_utf8(s@) == v@,
        r is None ==> !valid_utf8(v@),
{
    match String::from_utf8(v) {
        Ok(s) => Some(s),
        Err(_) => None,
    }
}

/// Encodes a request as its canonical JSON text.
#[verifier::rlimit(60)]
pub fn encode_request(req: &Request) -> (r: String)
    ensures
        r@ == encode_request_chars(req@),
{
    let mut out: Vec<char> = Vec::new();
    out.push('{');
    match req {
        Request::CreateSession { username } => {
            push_jstr(&mut out, "type");
            out.push(':');
            push_jstr(&mut out, "create_session");
            out.push(',');
            push_jstr(&mut out, "username");
            out.push(':');
            push_jstr(&mut out, username.as_str());
            out.push('}');
            proof {
                reveal_with_fuel(jobj_items, 3);
                let ps = request_pairs(req@);
                assert(ps.drop_first() =~= seq![ps[1]]);
                assert(out@ =~= encode_request_chars(req@));
            }
        },
        Request::PostAuthMessageResponse { response } => {
            push_jstr(&mut out, "type");
            out.push(':');
            push_jstr(&mut out, "post_auth_message_response");
            out.push(',');
            push_jstr(&mut out, "response");
            out.push(':');
            match response {
                Some(text) => {
                    push_jstr(&mut out, text.as_str());
                },
                None => {
                    out.push('n');
                    out.push('u');
                    out.push('l');
                    out.push('l');
                },
            }
            out.push('}');
            proof {
                reveal_with_fuel(jobj_items, 3);
                let ps = request_pairs(req@);
                assert(ps.drop_first() =~= seq![ps[1]]);
                assert(out@ =~= encode_request_chars(req@));
            }
        },
        Request::StartSession { cmd, env } => {
            push_jstr(&mut out, "type");
            out.push(':');
            push_jstr(&mut out, "start_session");
            out.push(',');
            push_jstr(&mut out, "cmd");
            out.push(':');
            push_jarr(&mut out, cmd);
            out.push(',');
            push_jstr(&mut out, "env");
            out.push(':');
            push_jarr(&mut out, env);
            out.push('}');
            proof {
                reveal_with_fuel(jobj_items, 4);
                let ps = request_pairs(req@);
                assert(ps.drop_first() =~= seq![ps[1], ps[2]]);
                assert(ps.drop_first().drop_first() =~= seq![ps[2]]);
                assert(out@ =~= encode_request_chars(req@));
            }
        },
        Request::CancelSession => {
            push_jstr(&mut out, "type");
            out.push(':');
            push_jstr(&mut out, "cancel_session");
            out.push('}');
            proof {
                assert(out@ =~= encode_request_chars(req@));
            }
        },
    }
    chars_to_string(&out)
}

/// Encodes a response as its canonical JSON text: what the daemon
/// itself would send.
#[verifier::rlimit(60)]
pub fn encode_response(resp: &Response) -> (r: String)
    ensures
        r@ == encode_response_chars(resp@),
{
    let mut out: Vec<char> = Vec::new();
    out.push('{');
    match resp {
        Response::Success => {
            push_jstr(&mut out, "type");
            out.push(':');
            push_jstr(&mut out, "success");
            out.push('}');
            proof {
                assert(out@ =~= encode_response_chars(resp@));
            }
        },
        Response::Error { error_type, description } => {
            push_jstr(&mut out, "type");
            out.push(':');
            push_jstr(&mut out, "error");
            out.push(',');
            push_jstr(&mut out, "error_type");
            out.push(':');
            match error_type {
                ErrorType::AuthError => push_jstr(&mut out, "auth_error"),
                ErrorType::Error => push_jstr(&mut out, "error"),
            }
            out.push(',');
            push_jstr(&mut out, "description");
            out.push(':');
            push_jstr(&mut out, description.as_str());
            out.push('}');
            proof {
                reveal_with_fuel(jobj_items, 4);
                let ps = response_pairs(resp@);
                assert(ps.drop_first() =~= seq![ps[1], ps[2]]);
                assert(ps.drop_first().drop_first() =~= seq![ps[2]]);
                assert(out@ =~= encode_response_chars(resp@));
            }
        },
        Response::AuthMessage { auth_message_type, auth_message } => {
            push_jstr(&mut out, "type");
            out.push(':');
            push_jstr(&mut out, "auth_message");
            out.push(',');
            push_jstr(&mut out, "auth_message_type");
            out.push(':');
            match auth_message_type {
                AuthMessageType::Visible => push_jstr(&mut out, "visible"),
                AuthMessageType::Secret => push_jstr(&mut out, "secret"),
                AuthMessageType::Info => push_jstr(&mut out, "info"),
                AuthMessageType::Error => push_jstr(&mut out, "error"),
            }
            out.push(',');
            push_jstr(&mut out, "auth_message");
            out.push(':');
            push_jstr(&mut out, auth_message.as_str());
            out.push('}');
            proof {
                reveal_with_fuel(jobj_items, 4);
                let ps = response_pairs(resp@);
                assert(ps.drop_first() =~= seq![ps[1], ps[2]]);
                assert(ps.drop_first().drop_first() =~= seq![ps[2]]);
                assert(out@ =~= encode_response_chars(resp@));
            }
        },
    }
    chars_to_string(&out)
}

/// Builds the strings of a parsed array.
fn strings_of(chars: &Vec<Vec<char>>) -> (r: Vec<String>)
    ensures
        r.deep_view() == chars.deep_view(),
{
    let mut out: Vec<String> = Vec::new();
    let mut i: usize = 0;
    while i < chars.len()
        invariant
            i <= chars@.len(),
            out@.len() == i,
            forall|k: int| 0 <= k < i ==> out@[k]@ == chars@[k]@,
        decreases chars@.len() - i,
    {
        let s = chars_to_string(&chars[i]);
        out.push(s);
        i = i + 1;
    }
    proof {
        assert forall|k: int| 0 <= k < out.deep_view().len() implies out.deep_view()[k]
            == chars.deep_view()[k] by {
            assert(out.deep_view()[k] == out@[k]@);
            assert(chars.deep_view()[k] =~= chars@[k]@);
        }
        assert(out.deep_view() =~= chars.deep_view());
    }
    out
}

/// The response named by a parsed JSON object, if any.
fn e_response_of_pairs(ms: &Vec<(Vec<char>, JsonValue)>) -> (r: Option<Response>)
    ensures
        (match r {
            Some(resp) => response_of_pairs(pairs_view(ms@)) == Some(resp@),
            None => response_of_pairs(pairs_view(ms@)) is None,
        }),
{
    proof {
        assert(pairs_view(ms@).skip(0) =~= pairs_view(ms@));
    }
    let ti = match e_lookup(ms, 0, "type") {
        Some(k) => k,
        None => {
            return None;
        },
    };
    let t = match &ms[ti].1 {
        JsonValue::Str(t) => t,
        _ => {
            return None;
        },
    };
    if is_lit(t, "success") {
        if ms.len() == 1 {
            Some(Response::Success)
        } else {
            None
        }
    } else if is_lit(t, "error") {
        if ms.len() != 3 {
            return None;
        }
        let ei = match e_lookup(ms, 0, "error_type") {
            Some(k) => k,
            None => {
                return None;
            },
        };
        let et = match &ms[ei].1 {
            JsonValue::Str(x) => x,
            _ => {
                return None;
            },
        };
        let di = match e_lookup(ms, 0, "description") {
            Some(k) => k,
            None => {
                return None;
            },
        };
        let d = match &ms[di].1 {
            JsonValue::Str(x) => x,
            _ => {
                return None;
            },
        };
        let error_type = if is_lit(et, "auth_error") {
            ErrorType::AuthError
        } else if is_lit(et, "error") {
            ErrorType::Error
        } else {
            return None;
        };
        let description = chars_to_string(d);
        Some(Response::Error { error_type, description })
    } else if is_lit(t, "auth_message") {
        if ms.len() != 3 {
            return None;
        }
        let ki = match e_lookup(ms, 0, "auth_message_type") {
            Some(k) => k,
            None => {
                return None;
            },
        };
        let mt = match &ms[ki].1 {
            JsonValue::Str(x) => x,
            _ => {
                return None;
            },
        };
        let mi = match e_lookup(ms, 0, "auth_message") {
            Some(k) => k,
            None => {
                return None;
            },
        };
        let m = match &ms[mi].1 {
            JsonValue::Str(x) => x,
            _ => {
                return None;
            },
        };
        let auth_message_type = if is_lit(mt, "visible") {
            AuthMessageType::Visible
        } else if is_lit(mt, "secret") {
            AuthMessageType::Secret
        } else if is_lit(mt, "info") {
            AuthMessageType::Info
        } else if is_lit(mt, "error") {
            AuthMessageType::Error
        } else {
            return None;
        };
        let auth_message = chars_to_string(m);
        Some(Response::AuthMessage { auth_message_type, auth_message })
    } else {
        None
    }
}

/// The request named by a parsed JSON object, if any.
fn e_request_of_pairs(ms: &Vec<(Vec<char>, JsonValue)>) -> (r: Option<Request>)
    ensures
        (match r {
            Some(req) => request_of_pairs(pairs_view(ms@)) == Some(req@),
            None => request_of_pairs(pairs_view(ms@)) is None,
        }),
{
    proof {
        assert(pairs_view(ms@).skip(0) =~= pairs_view(ms@));
    }
    let ti = match e_lookup(ms, 0, "type") {
        Some(k) => k,
        None => {
            return None;
        },
    };
    let t = match &ms[ti].1 {
        JsonValue::Str(t) => t,
        _ => {
            return None;
        },
    };
    if is_lit(t, "create_session") {
        if ms.len() != 2 {
            return None;
        }
        let ui = match e_lookup(ms, 0, "username") {
            Some(k) => k,
            None => {
                return None;
            },
        };
        let u = match &ms[ui].1 {
            JsonValue::Str(x) => x,
            _ => {
                return None;
            },
        };
        let username = chars_to_string(u);
        Some(Request::CreateSession { username })
    } else if is_lit(t, "post_auth_message_response") {
        if ms.len() == 1 {
            return Some(Request::PostAuthMessageResponse { response: None });
        }
        if ms.len() != 2 {
            return None;
        }
        let ri = match e_lookup(ms, 0, "response") {
            Some(k) => k,
            None => {
                return None;
            },
        };
        match &ms[ri].1 {
            JsonValue::Str(x) => {
                let text = chars_to_string(x);
                Some(Request::PostAuthMessageResponse { response: Some(text) })
            },
            JsonValue::Null => Some(Request::PostAuthMessageResponse { response: None }),
            _ => None,
        }
    } else if is_lit(t, "start_session") {
        if ms.len() == 2 {
            let ci = match e_lookup(ms, 0, "cmd") {
                Some(k) => k,
                None => {
                    return None;
                },
            };
            let cmd_chars = match &ms[ci].1 {
                JsonValue::Arr(a) => a,
                _ => {
                    return None;
                },
            };
            let cmd = strings_of(cmd_chars);
            let env: Vec<String> = Vec::new();
            proof {
                assert(env.deep_view() =~~= Seq::<Seq<char>>::empty());
            }
            Some(Request::StartSession { cmd, env })
        } else if ms.len() == 3 {
            let ci = match e_lookup(ms, 0, "cmd") {
                Some(k) => k,
                None => {
                    return None;
                },
            };
            let cmd_chars = match &ms[ci].1 {
                JsonValue::Arr(a) => a,
                _ => {
                    return None;
                },
            };
            let vi = match e_lookup(ms, 0, "env") {
                Some(k) => k,
                None => {
                    return None;
                },
            };
            let env_chars = match &ms[vi].1 {
                JsonValue::Arr(a) => a,
                _ => {
                    return None;
                },
            };
            let cmd = strings_of(cmd_chars);
            let env = strings_of(env_chars);
            Some(Request::StartSession { cmd, env })
        } else {
            None
        }
    } else if is_lit(t, "cancel_session") {
        if ms.len() == 1 {
            Some(Request::CancelSession)
        } else {
            None
        }
    } else {
        None
    }
}

/// Decodes a response from a frame's payload bytes.
pub fn decode_response(payload: Vec<u8>) -> (r: Result<Response, DecodeError>)
    ensures
        (match r {
            Ok(resp) => spec_decode_response(payload@) == Ok::<ResponseView, DecodeError>(resp@),
            Err(e) => spec_decode_response(payload@) == Err::<ResponseView, DecodeError>(e),
        }),
{
    let ghost pv = payload@;
    let text = match bytes_to_string(payload) {
        Some(s) => s,
        None => {
            return Err(DecodeError::Utf8);
        },
    };
    proof {
        vstd::utf8::encode_utf8_valid_utf8(text@);
        vstd::utf8::encode_utf8_decode_utf8(text@);
    }
    let chars = str_chars(text.as_str());
    let ms = match e_parse_document(&chars) {
        Some(ms) => ms,
        None => {
            return Err(DecodeError::Json);
        },
    };
    match e_response_of_pairs(&ms) {
        Some(resp) => Ok(resp),
        None => Err(DecodeError::Shape),
    }
}

/// Decodes a request from a frame's payload bytes.
pub fn decode_request(payload: Vec<u8>) -> (r: Result<Request, DecodeError>)
    ensures
        (match r {
            Ok(req) => spec_decode_request(payload@) == Ok::<RequestView, DecodeError>(req@),
            Err(e) => spec_decode_request(payload@) == Err::<RequestView, DecodeError>(e),
        }),
{
    let ghost pv = payload@;
    let text = match bytes_to_string(payload) {
        Some(s) => s,
        None => {
            return Err(DecodeError::Utf8);
        },
    };
    proof {
        vstd::utf8::encode_utf8_valid_utf8(text@);
        vstd::utf8::encode_utf8_decode_utf8(text@);
    }
    let chars = str_chars(text.as_str());
    let ms = match e_parse_document(&chars) {
        Some(ms) => ms,
        None => {
            return Err(DecodeError::Json);
        },
    };
    match e_request_of_pairs(&ms) {
        Some(req) => Ok(req),
        None => Err(DecodeError::Shape),
    }
}

/// Wraps a JSON text into a frame: little-endian byte length, then the
/// UTF-8 bytes.  `None` when the text is too long for a 32-bit length.
pub fn frame_json(json: &str) -> (r: Option<Vec<u8>>)
    ensures
        (match r {
            Some(f) => encode_utf8(json@).len() <= 0xFFFF_FFFF && f@ == spec_frame(
                encode_utf8(json@),
            ),
            None => encode_utf8(json@).len() > 0xFFFF_FFFF,
        }),
{
    let mut bytes = json.as_bytes_vec();
    if bytes.len() > 0xFFFF_FFFF_usize {
        return None;
    }
    let n = bytes.len() as u32;
    let mut out: Vec<u8> = Vec::new();
    out.push((n % 256) as u8);
    out.push(((n / 256) % 256) as u8);
    out.push((n / 256 / 256 % 256) as u8);
    out.push((n / 256 / 256 / 256 % 256) as u8);
    out.append(&mut bytes);
    proof {
        assert(out@ =~= spec_frame(encode_utf8(json@)));
    }
    Some(out)
}

/// Reads a frame length from its four header bytes, little-endian.
pub fn frame_length(b0: u8, b1: u8, b2: u8, b3: u8) -> (n: u32)
    ensures
        le32(n as int) == seq![b0, b1, b2, b3],
        n == b0 + 256 * (b1 as int) + 65536 * (b2 as int) + 16777216 * (b3 as int),
{
    let n = b0 as u32 + 256 * (b1 as u32) + 65536 * (b2 as u32) + 16777216 * (b3 as u32);
    proof {
        let x = n as int;
        let q1 = (b1 as int) + 256 * (b2 as int) + 65536 * (b3 as int);
        let q2 = (b2 as int) + 256 * (b3 as int);
        vstd::arithmetic::div_mod::lemma_fundamental_div_mod_converse(x, 256, q1, b0 as int);
        vstd::arithmetic::div_mod::lemma_fundamental_div_mod_converse(q1, 256, q2, b1 as int);
        vstd::arithmetic::div_mod::lemma_fundamental_div_mod_converse(q2, 256, b3 as int, b2 as int);
        vstd::arithmetic::div_mod::lemma_fundamental_div_mod_converse(b3 as int, 256, 0, b3 as int);
        assert(le32(n as int) =~= seq![b0, b1, b2, b3]);
    }
    n
}

} // verus!
