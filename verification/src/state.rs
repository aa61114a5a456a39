//! The authentication-lifecycle state machine: the legal-operation table
//! and the transition function driven by decoded daemon responses.
//!
//! The client is in exactly one of three states.  Each of the four
//! protocol operations is either legal in the current state (a request is
//! sent to the daemon) or rejected locally with a fixed message and no
//! wire traffic.  The transition function maps the response to an
//! in-flight operation to the next state, the next remembered username
//! and the notifications to fan out.

use vstd::prelude::*;

use crate::message::AuthMessageType;
use crate::message::ErrorType;
use crate::message::MessageKind;
use crate::message::NotificationView;
use crate::message::PromptKind;
use crate::message::ResponseView;

verus! {

/// The client-local authentication state.
#[derive(Clone, Copy, Debug, PartialEq, Eq, Structural)]
pub enum AuthState {
    /// No session is under authentication.
    NotStarted,
    /// A session was created and the daemon may still ask questions.
    InAuthentication,
    /// Authentication completed; the session may be started.
    Authenticated,
}

/// The four protocol operations a caller can attempt.
#[derive(Clone, Copy, Debug, PartialEq, Eq, Structural)]
pub enum Operation {
    CreateSession,
    PostResponse,
    StartSession,
    CancelSession,
}

/// The legal-operation table: in which states an operation may be sent
/// to the daemon.  `CancelSession` is always sent; the daemon decides.
pub open spec fn op_legal(state: AuthState, op: Operation) -> bool {
    match op {
        Operation::CreateSession => state == AuthState::NotStarted,
        Operation::PostResponse => state == AuthState::InAuthentication,
        Operation::StartSession => state == AuthState::Authenticated,
        Operation::CancelSession => true,
    }
}

/// The message shown to the user when an operation is rejected locally;
/// the empty sequence for legal pairs.
pub open spec fn rejection_text(state: AuthState, op: Operation) -> Seq<char> {
    if op_legal(state, op) {
        Seq::empty()
    } else {
        match op {
            Operation::CreateSession => "a session is already in authentication"@,
            Operation::PostResponse => if state == AuthState::Authenticated {
                "session is already authenticated"@
            } else {
                "no session under authentication"@
            },
            Operation::StartSession => "session is not ready"@,
            Operation::CancelSession => Seq::empty(),
        }
    }
}

/// Checks an operation against the legal-operation table.
///
/// Returns `None` when the operation may be sent to the daemon and
/// `Some(text)` with the fixed rejection message when it must be
/// rejected locally.  The table is total: no pair panics.
pub fn check_operation(state: AuthState, op: Operation) -> (r: Option<&'static str>)
    ensures
        r is None <==> op_legal(state, op),
        r matches Some(text) ==> text@ == rejection_text(state, op),
{
    match op {
        Operation::CreateSession => {
            if state == AuthState::NotStarted {
                None
            } else {
                Some("a session is already in authentication")
            }
        },
        Operation::PostResponse => {
            if state == AuthState::InAuthentication {
                None
            } else if state == AuthState::Authenticated {
                Some("session is already authenticated")
            } else {
                Some("no session under authentication")
            }
        },
        Operation::StartSession => {
            if state == AuthState::Authenticated {
                None
            } else {
                Some("session is not ready")
            }
        },
        Operation::CancelSession => None,
    }
}

/// A response the daemon must never send: a prompt after a session-start
/// request.  The protocol defines no recovery; the caller must abort.
pub open spec fn daemon_violation(op: Operation, resp: ResponseView) -> bool {
    op == Operation::StartSession && resp is AuthMessage
}

/// The prompt kind carried by a `Visible` or `Secret` auth message.
pub open spec fn prompt_kind_of(t: AuthMessageType) -> PromptKind {
    if t == AuthMessageType::Secret {
        PromptKind::Secret
    } else {
        PromptKind::Visible
    }
}

/// Whether an auth message is a prompt (needs an answer) rather than an
/// advisory message.
pub open spec fn is_prompt(t: AuthMessageType) -> bool {
    t == AuthMessageType::Visible || t == AuthMessageType::Secret
}

/// The message kind carried by an `Info` or `Error` auth message.
pub open spec fn message_kind_of_auth(t: AuthMessageType) -> MessageKind {
    if t == AuthMessageType::Info {
        MessageKind::Info
    } else {
        MessageKind::Error
    }
}

/// The message kind carried by an `Error` response.
pub open spec fn message_kind_of_error(e: ErrorType) -> MessageKind {
    match e {
        ErrorType::AuthError => MessageKind::AuthError,
        ErrorType::Error => MessageKind::Error,
    }
}

/// What one transition of the state machine produces.
pub struct StepResult {
    /// The state after the transition.
    pub state: AuthState,
    /// The remembered username after the transition.
    pub user: Option<Seq<char>>,
    /// The notifications to fan out, in order.
    pub notifications: Seq<NotificationView>,
    /// Whether the exchange counts as a success for the caller.
    pub favorable: bool,
}

/// The transition function: the state machine's reaction to the daemon's
/// response `resp` to the in-flight operation `op`, starting from
/// `state` with remembered username `user`.
pub open spec fn step(
    state: AuthState,
    user: Option<Seq<char>>,
    op: Operation,
    resp: ResponseView,
) -> StepResult
    recommends
        !daemon_violation(op, resp),
{
    if op == Operation::CancelSession {
        // Cancellation always leaves a clean slate, whatever the daemon said.
        StepResult {
            state: AuthState::NotStarted,
            user: None,
            notifications: match resp {
                ResponseView::Error { error_type, description } => seq![
                    NotificationView::ShowMessage {
                        kind: message_kind_of_error(error_type),
                        text: description,
                    },
                ],
                _ => Seq::empty(),
            },
            favorable: !(resp is Error),
        }
    } else if op == Operation::StartSession {
        match resp {
            // Handoff complete; the caller is expected to exit the process.
            ResponseView::Success => StepResult {
                state,
                user,
                notifications: Seq::empty(),
                favorable: true,
            },
            ResponseView::Error { error_type, description } => StepResult {
                state: AuthState::NotStarted,
                user: None,
                notifications: seq![
                    NotificationView::ShowMessage {
                        kind: message_kind_of_error(error_type),
                        text: description,
                    },
                ],
                favorable: false,
            },
            // A daemon violation; the value here is never relied upon.
            ResponseView::AuthMessage { .. } => StepResult {
                state,
                user,
                notifications: Seq::empty(),
                favorable: false,
            },
        }
    } else {
        // CreateSession or PostResponse.
        match resp {
            ResponseView::Success => StepResult {
                state: AuthState::Authenticated,
                user,
                notifications: seq![NotificationView::AuthenticationComplete],
                favorable: true,
            },
            ResponseView::AuthMessage { auth_message_type, auth_message } => StepResult {
                state: AuthState::InAuthentication,
                user,
                notifications: if is_prompt(auth_message_type) {
                    seq![
                        NotificationView::ShowPrompt {
                            kind: prompt_kind_of(auth_message_type),
                            text: auth_message,
                        },
                    ]
                } else {
                    seq![
                        NotificationView::ShowMessage {
                            kind: message_kind_of_auth(auth_message_type),
                            text: auth_message,
                        },
                    ]
                },
                favorable: true,
            },
            // The daemon has abandoned the attempt: behave as an implicit
            // cancellation after showing the reported error.
            ResponseView::Error { error_type, description } => StepResult {
                state: AuthState::NotStarted,
                user: None,
                notifications: seq![
                    NotificationView::ShowMessage {
                        kind: message_kind_of_error(error_type),
                        text: description,
                    },
                ],
                favorable: false,
            },
        }
    }
}

} // verus!
