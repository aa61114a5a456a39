//! The client facade: the four protocol operations, the read-only
//! queries, and the response handler that drives the state machine.
//!
//! The facade owns no socket.  An operation either produces the exact
//! frame to write to the daemon (after which the caller reads exactly
//! one response frame and feeds its payload back in) or rejects locally
//! with the notification to show.  Transport itself stays with the
//! caller; everything up to the bytes is verified here.
//!
//! The caller must finish one exchange before starting another: each
//! operation requires that no request is in flight, and
//! [`GreetdClient::handle_response`] or [`GreetdClient::abort_exchange`]
//! ends the exchange.

use vstd::prelude::*;

use crate::codec::encode_request;
use crate::codec::encode_request_chars;
use crate::codec::frame_json;
use crate::codec::request_frame;
use crate::message::AuthMessageType;
use crate::message::ErrorType;
use crate::message::MessageKind;
use crate::message::Notification;
use crate::message::NotificationView;
use crate::message::PromptKind;
use crate::message::Request;
use crate::message::RequestView;
use crate::message::Response;
use crate::state::AuthState;
use crate::state::Operation;
use crate::state::check_operation;
use crate::state::daemon_violation;
use crate::state::op_legal;
use crate::state::rejection_text;
use crate::state::step;

verus! {

use vstd::utf8::encode_utf8;
use vstd::string::StringExecFns;

impl DeepView for Notification {
    type V = NotificationView;

    open spec fn deep_view(&self) -> NotificationView {
        self.view()
    }
}

/// The message shown when the daemon's socket was never reached.
pub open spec fn no_connection_text() -> Seq<char> {
    "connect to greetd service failed"@
}

/// The message shown when the connection broke during an exchange.
pub open spec fn io_error_text() -> Seq<char> {
    "lost the connection to greetd"@
}

/// The message shown for a request too long for the wire format.
pub open spec fn oversize_text() -> Seq<char> {
    "request too large for the greetd protocol"@
}

/// Whether a request fits the wire format's 32-bit length prefix.
pub open spec fn sendable(r: RequestView) -> bool {
    encode_utf8(encode_request_chars(r)).len() <= 0xFFFF_FFFF
}

/// What a caller must do after asking for an operation.
pub enum OpStart {
    /// The operation is legal: write this frame to the daemon, read one
    /// response frame, and feed it to [`GreetdClient::handle_response`].
    Send(Vec<u8>),
    /// The operation was not performed: show this notification and
    /// report failure to the caller.
    Rejected(Notification),
}

/// The outcome of one completed request/response exchange.
pub struct Handled {
    /// Whether the exchange counts as a success for the caller.
    pub favorable: bool,
    /// The notifications to fan out, in order.
    pub notifications: Vec<Notification>,
}

/// The daemon sent a prompt after a session-start request; the protocol
/// defines no recovery, so the caller must abort.
#[derive(Clone, Copy, Debug, PartialEq, Eq, Structural)]
pub struct DaemonViolation;

/// The mathematical state of a client.
pub struct ClientView {
    /// Whether the daemon's socket was reached at construction.
    pub connected: bool,
    /// The authentication state.
    pub state: AuthState,
    /// The username under (or transiently entering) authentication.
    pub user: Option<Seq<char>>,
    /// The operation whose response is still outstanding.
    pub pending: Option<Operation>,
}

impl ClientView {
    /// The client's invariant: a username is remembered only while a
    /// session is under way (or transiently while one is being
    /// created), and an in-flight operation was legal when it was sent.
    pub open spec fn wf(self) -> bool {
        &&& (self.user is Some ==> (self.state != AuthState::NotStarted || self.pending
            == Some(Operation::CreateSession)))
        &&& (self.pending matches Some(op) ==> op_legal(self.state, op))
    }
}

/// The protocol client: the authentication state machine plus the
/// codec, up to (but not including) the socket.
pub struct GreetdClient {
    connected: bool,
    state: AuthState,
    user: Option<String>,
    pending: Option<Operation>,
}

impl View for GreetdClient {
    type V = ClientView;

    closed spec fn view(&self) -> ClientView {
        ClientView {
            connected: self.connected,
            state: self.state,
            user: match &self.user {
                Some(u) => Some(u@),
                None => None,
            },
            pending: self.pending,
        }
    }
}

impl GreetdClient {
    /// A fresh client.  `connected` records whether the caller obtained
    /// the daemon's socket; a client without a connection stays usable
    /// for queries, and every operation fails with a connectivity
    /// message.
    pub fn new(connected: bool) -> (r: GreetdClient)
        ensures
            r@ == (ClientView {
                connected,
                state: AuthState::NotStarted,
                user: None,
                pending: None,
            }),
            r@.wf(),
    {
        GreetdClient { connected, state: AuthState::NotStarted, user: None, pending: None }
    }

    /// The username under authentication, if any.
    pub fn authentication_user(&self) -> (r: Option<&str>)
        ensures
            (match r {
                Some(u) => self@.user == Some(u@),
                None => self@.user is None,
            }),
    {
        match &self.user {
            Some(u) => Some(u.as_str()),
            None => None,
        }
    }

    /// Whether a request is in flight: sent, its response not yet
    /// handled.  No operation may start while this holds.
    pub fn in_flight(&self) -> (r: bool)
        ensures
            r == (self@.pending is Some),
    {
        self.pending.is_some()
    }

    /// Whether a session is in authentication.
    pub fn in_authentication(&self) -> (r: bool)
        ensures
            r == (self@.state == AuthState::InAuthentication),
    {
        self.state == AuthState::InAuthentication
    }

    /// Whether the session is authenticated.
    pub fn is_authenticated(&self) -> (r: bool)
        ensures
            r == (self@.state == AuthState::Authenticated),
    {
        self.state == AuthState::Authenticated
    }

    /// Begins a login attempt for `username`.
    ///
    /// Legal only in `NotStarted`.  On `Send`, the returned frame holds
    /// `CreateSession{username}`, the username is remembered, and the
    /// response must be fed back before any further operation.
    pub fn create_session(&mut self, username: String) -> (r: OpStart)
        requires
            old(self)@.pending is None,
            old(self)@.wf(),
        ensures
            final(self)@.wf(),
            final(self)@.connected == old(self)@.connected,
            ({
                let v = old(self)@;
                let reqv = RequestView::CreateSession { username: username@ };
                if !op_legal(v.state, Operation::CreateSession) {
                    final(self)@ == v && (r matches OpStart::Rejected(n)
                        && n@ == (NotificationView::ShowMessage {
                        kind: MessageKind::Error,
                        text: rejection_text(v.state, Operation::CreateSession),
                    }))
                } else if !v.connected {
                    final(self)@ == v && (r matches OpStart::Rejected(n)
                        && n@ == (NotificationView::ShowMessage {
                        kind: MessageKind::Error,
                        text: no_connection_text(),
                    }))
                } else if !sendable(reqv) {
                    final(self)@ == v && (r matches OpStart::Rejected(n)
                        && n@ == (NotificationView::ShowMessage {
                        kind: MessageKind::Error,
                        text: oversize_text(),
                    }))
                } else {
                    final(self)@ == (ClientView {
                        user: Some(username@),
                        pending: Some(Operation::CreateSession),
                        ..v
                    }) && (r matches OpStart::Send(f) && f@ == request_frame(reqv))
                }
            }),
    {
        if let Some(msg) = check_operation(self.state, Operation::CreateSession) {
            return OpStart::Rejected(
                Notification::ShowMessage {
                    kind: MessageKind::Error,
                    text: String::from_str(msg),
                },
            );
        }
        if !self.connected {
            return OpStart::Rejected(
                Notification::ShowMessage {
                    kind: MessageKind::Error,
                    text: String::from_str("connect to greetd service failed"),
                },
            );
        }
        let user = username.clone();
        let req = Request::CreateSession { username };
        let json = encode_request(&req);
        match frame_json(json.as_str()) {
            Some(f) => {
                self.user = Some(user);
                self.pending = Some(Operation::CreateSession);
                OpStart::Send(f)
            },
            None => OpStart::Rejected(
                Notification::ShowMessage {
                    kind: MessageKind::Error,
                    text: String::from_str("request too large for the greetd protocol"),
                },
            ),
        }
    }

    /// Answers the most recent prompt.
    ///
    /// Legal only in `InAuthentication`.  On `Send`, the returned frame
    /// holds `PostAuthMessageResponse{response}`.
    pub fn post_response(&mut self, response: Option<String>) -> (r: OpStart)
        requires
            old(self)@.pending is None,
            old(self)@.wf(),
        ensures
            final(self)@.wf(),
            final(self)@.connected == old(self)@.connected,
            ({
                let v = old(self)@;
                let reqv = RequestView::PostAuthMessageResponse {
                    response: response.deep_view(),
                };
                if !op_legal(v.state, Operation::PostResponse) {
                    final(self)@ == v && (r matches OpStart::Rejected(n)
                        && n@ == (NotificationView::ShowMessage {
                        kind: MessageKind::Error,
                        text: rejection_text(v.state, Operation::PostResponse),
                    }))
                } else if !v.connected {
                    final(self)@ == v && (r matches OpStart::Rejected(n)
                        && n@ == (NotificationView::ShowMessage {
                        kind: MessageKind::Error,
                        text: no_connection_text(),
                    }))
                } else if !sendable(reqv) {
                    final(self)@ == v && (r matches OpStart::Rejected(n)
                        && n@ == (NotificationView::ShowMessage {
                        kind: MessageKind::Error,
                        text: oversize_text(),
                    }))
                } else {
                    final(self)@ == (ClientView {
                        pending: Some(Operation::PostResponse),
                        ..v
                    }) && (r matches OpStart::Send(f) && f@ == request_frame(reqv))
                }
            }),
    {
        if let Some(msg) = check_operation(self.state, Operation::PostResponse) {
            return OpStart::Rejected(
                Notification::ShowMessage {
                    kind: MessageKind::Error,
                    text: String::from_str(msg),
                },
            );
        }
        if !self.connected {
            return OpStart::Rejected(
                Notification::ShowMessage {
                    kind: MessageKind::Error,
                    text: String::from_str("connect to greetd service failed"),
                },
            );
        }
        let req = Request::PostAuthMessageResponse { response };
        let json = encode_request(&req);
        match frame_json(json.as_str()) {
            Some(f) => {
                self.pending = Some(Operation::PostResponse);
                OpStart::Send(f)
            },
            None => OpStart::Rejected(
                Notification::ShowMessage {
                    kind: MessageKind::Error,
                    text: String::from_str("request too large for the greetd protocol"),
                },
            ),
        }
    }

    /// Starts the authenticated session.
    ///
    /// Legal only in `Authenticated`.  On `Send`, the returned frame
    /// holds `StartSession{cmd, env}`.  When the daemon answers
    /// `Success`, the caller is expected to exit into the new session.
    pub fn start_session(&mut self, cmd: Vec<String>, env: Vec<String>) -> (r: OpStart)
        requires
            old(self)@.pending is None,
            old(self)@.wf(),
        ensures
            final(self)@.wf(),
            final(self)@.connected == old(self)@.connected,
            ({
                let v = old(self)@;
                let reqv = RequestView::StartSession {
                    cmd: cmd.deep_view(),
                    env: env.deep_view(),
                };
                if !op_legal(v.state, Operation::StartSession) {
                    final(self)@ == v && (r matches OpStart::Rejected(n)
                        && n@ == (NotificationView::ShowMessage {
                        kind: MessageKind::Error,
                        text: rejection_text(v.state, Operation::StartSession),
                    }))
                } else if !v.connected {
                    final(self)@ == v && (r matches OpStart::Rejected(n)
                        && n@ == (NotificationView::ShowMessage {
                        kind: MessageKind::Error,
                        text: no_connection_text(),
                    }))
                } else if !sendable(reqv) {
                    final(self)@ == v && (r matches OpStart::Rejected(n)
                        && n@ == (NotificationView::ShowMessage {
                        kind: MessageKind::Error,
                        text: oversize_text(),
                    }))
                } else {
                    final(self)@ == (ClientView {
                        pending: Some(Operation::StartSession),
                        ..v
                    }) && (r matches OpStart::Send(f) && f@ == request_frame(reqv))
                }
            }),
    {
        if let Some(msg) = check_operation(self.state, Operation::StartSession) {
            return OpStart::Rejected(
                Notification::ShowMessage {
                    kind: MessageKind::Error,
                    text: String::from_str(msg),
                },
            );
        }
        if !self.connected {
            return OpStart::Rejected(
                Notification::ShowMessage {
                    kind: MessageKind::Error,
                    text: String::from_str("connect to greetd service failed"),
                },
            );
        }
        let req = Request::StartSession { cmd, env };
        let json = encode_request(&req);
        match frame_json(json.as_str()) {
            Some(f) => {
                self.pending = Some(Operation::StartSession);
                OpStart::Send(f)
            },
            None => OpStart::Rejected(
                Notification::ShowMessage {
                    kind: MessageKind::Error,
                    text: String::from_str("request too large for the greetd protocol"),
                },
            ),
        }
    }

    /// Abandons the session under authentication.
    ///
    /// Always legal; the daemon decides what to make of it.  The client
    /// resets its own state at once, so that the postcondition of a
    /// cancellation never depends on the daemon's reply.
    pub fn cancel_session(&mut self) -> (r: OpStart)
        requires
            old(self)@.pending is None,
            old(self)@.wf(),
        ensures
            final(self)@.wf(),
            final(self)@.connected == old(self)@.connected,
            ({
                let v = old(self)@;
                let reqv = RequestView::CancelSession;
                if !v.connected {
                    final(self)@ == v && (r matches OpStart::Rejected(n)
                        && n@ == (NotificationView::ShowMessage {
                        kind: MessageKind::Error,
                        text: no_connection_text(),
                    }))
                } else if !sendable(reqv) {
                    final(self)@ == v && (r matches OpStart::Rejected(n)
                        && n@ == (NotificationView::ShowMessage {
                        kind: MessageKind::Error,
                        text: oversize_text(),
                    }))
                } else {
                    final(self)@ == (ClientView {
                        state: AuthState::NotStarted,
                        user: None,
                        pending: Some(Operation::CancelSession),
                        ..v
                    }) && (r matches OpStart::Send(f) && f@ == request_frame(reqv))
                }
            }),
    {
        if !self.connected {
            return OpStart::Rejected(
                Notification::ShowMessage {
                    kind: MessageKind::Error,
                    text: String::from_str("connect to greetd service failed"),
                },
            );
        }
        let req = Request::CancelSession;
        let json = encode_request(&req);
        match frame_json(json.as_str()) {
            Some(f) => {
                self.state = AuthState::NotStarted;
                self.user = None;
                self.pending = Some(Operation::CancelSession);
                OpStart::Send(f)
            },
            None => OpStart::Rejected(
                Notification::ShowMessage {
                    kind: MessageKind::Error,
                    text: String::from_str("request too large for the greetd protocol"),
                },
            ),
        }
    }

    /// Feeds the daemon's decoded response to the state machine.
    ///
    /// Ends the in-flight exchange.  `Err` reports a prompt after a
    /// session-start request, which the protocol leaves unrecoverable;
    /// the state is then untouched and the caller must abort.
    pub fn handle_response(&mut self, resp: &Response) -> (r: Result<Handled, DaemonViolation>)
        requires
            old(self)@.pending is Some,
            old(self)@.wf(),
        ensures
            final(self)@.wf(),
            final(self)@.pending is None,
            final(self)@.connected == old(self)@.connected,
            r is Err <==> daemon_violation(old(self)@.pending->0, resp@),
            r is Err ==> final(self)@.state == old(self)@.state && final(self)@.user == old(
                self,
            )@.user,
            (r matches Ok(h) ==> ({
                let st = step(old(self)@.state, old(self)@.user, old(self)@.pending->0, resp@);
                &&& final(self)@.state == st.state
                &&& final(self)@.user == st.user
                &&& h.notifications.deep_view() == st.notifications
                &&& h.favorable == st.favorable
            })),
    {
        let op = self.pending.unwrap();
        self.pending = None;
        let ghost v = old(self)@;
        let ghost st = step(v.state, v.user, op, resp@);
        match op {
            Operation::CancelSession => {
                self.state = AuthState::NotStarted;
                self.user = None;
                let mut notifications: Vec<Notification> = Vec::new();
                let favorable = match resp {
                    Response::Error { error_type, description } => {
                        let kind = match error_type {
                            ErrorType::AuthError => MessageKind::AuthError,
                            ErrorType::Error => MessageKind::Error,
                        };
                        notifications.push(
                            Notification::ShowMessage { kind, text: description.clone() },
                        );
                        false
                    },
                    _ => true,
                };
                proof {
                    assert(notifications.deep_view() =~= st.notifications);
                }
                Ok(Handled { favorable, notifications })
            },
            Operation::StartSession => {
                match resp {
                    Response::AuthMessage { .. } => {
                        return Err(DaemonViolation);
                    },
                    Response::Success => {
                        let notifications: Vec<Notification> = Vec::new();
                        proof {
                            assert(notifications.deep_view() =~= st.notifications);
                        }
                        Ok(Handled { favorable: true, notifications })
                    },
                    Response::Error { error_type, description } => {
                        self.state = AuthState::NotStarted;
                        self.user = None;
                        let kind = match error_type {
                            ErrorType::AuthError => MessageKind::AuthError,
                            ErrorType::Error => MessageKind::Error,
                        };
                        let mut notifications: Vec<Notification> = Vec::new();
                        notifications.push(
                            Notification::ShowMessage { kind, text: description.clone() },
                        );
                        proof {
                            assert(notifications.deep_view() =~= st.notifications);
                        }
                        Ok(Handled { favorable: false, notifications })
                    },
                }
            },
            _ => {
                // CreateSession or PostResponse.
                match resp {
                    Response::Success => {
                        self.state = AuthState::Authenticated;
                        let mut notifications: Vec<Notification> = Vec::new();
                        notifications.push(Notification::AuthenticationComplete);
                        proof {
                            assert(notifications.deep_view() =~= st.notifications);
                        }
                        Ok(Handled { favorable: true, notifications })
                    },
                    Response::AuthMessage { auth_message_type, auth_message } => {
                        self.state = AuthState::InAuthentication;
                        let mut notifications: Vec<Notification> = Vec::new();
                        match auth_message_type {
                            AuthMessageType::Visible => {
                                notifications.push(
                                    Notification::ShowPrompt {
                                        kind: PromptKind::Visible,
                                        text: auth_message.clone(),
                                    },
                                );
                            },
                            AuthMessageType::Secret => {
                                notifications.push(
                                    Notification::ShowPrompt {
                                        kind: PromptKind::Secret,
                                        text: auth_message.clone(),
                                    },
                                );
                            },
                            AuthMessageType::Info => {
                                notifications.push(
                                    Notification::ShowMessage {
                                        kind: MessageKind::Info,
                                        text: auth_message.clone(),
                                    },
                                );
                            },
                            AuthMessageType::Error => {
                                notifications.push(
                                    Notification::ShowMessage {
                                        kind: MessageKind::Error,
                                        text: auth_message.clone(),
                                    },
                                );
                            },
                        }
                        proof {
                            assert(notifications.deep_view() =~= st.notifications);
                        }
                        Ok(Handled { favorable: true, notifications })
                    },
                    Response::Error { error_type, description } => {
                        self.state = AuthState::NotStarted;
                        self.user = None;
                        let kind = match error_type {
                            ErrorType::AuthError => MessageKind::AuthError,
                            ErrorType::Error => MessageKind::Error,
                        };
                        let mut notifications: Vec<Notification> = Vec::new();
                        notifications.push(
                            Notification::ShowMessage { kind, text: description.clone() },
                        );
                        proof {
                            assert(notifications.deep_view() =~= st.notifications);
                        }
                        Ok(Handled { favorable: false, notifications })
                    },
                }
            },
        }
    }

    /// Ends an exchange whose transport failed: the frame could not be
    /// written, or no response frame could be read.  Returns the
    /// notification to show.
    pub fn abort_exchange(&mut self) -> (n: Notification)
        ensures
            final(self)@.wf(),
            final(self)@.pending is None,
            final(self)@.connected == old(self)@.connected,
            final(self)@.state == old(self)@.state,
            final(self)@.user == (if old(self)@.state == AuthState::NotStarted {
                None::<Seq<char>>
            } else {
                old(self)@.user
            }),
            n@ == (NotificationView::ShowMessage {
                kind: MessageKind::Error,
                text: io_error_text(),
            }),
    {
        self.pending = None;
        if self.state == AuthState::NotStarted {
            self.user = None;
        }
        Notification::ShowMessage {
            kind: MessageKind::Error,
            text: String::from_str("lost the connection to greetd"),
        }
    }
}

} // verus!
