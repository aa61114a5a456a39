//! Protocol messages exchanged with the greetd daemon, and the
//! notifications the client fans out to its observers.
//!
//! The wire shapes (field names and the `kind` enumerations) are part of
//! the daemon's IPC contract; the codec in [`crate::codec`] produces and
//! consumes exactly these.

use vstd::prelude::*;

verus! {

/// Kind of an `AuthMessage` response: what the daemon wants the greeter
/// to do with the accompanying text.
#[derive(Clone, Copy, Debug, PartialEq, Eq, Structural)]
pub enum AuthMessageType {
    /// A question whose answer may stay visible while typed.
    Visible,
    /// A question whose answer must be hidden while typed (a password).
    Secret,
    /// An informational message; no answer is expected.
    Info,
    /// An error message; no answer is expected.
    Error,
}

/// Kind of an `Error` response.
#[derive(Clone, Copy, Debug, PartialEq, Eq, Structural)]
pub enum ErrorType {
    /// Authentication itself failed (a wrong password, a locked account).
    AuthError,
    /// Any other failure reported by the daemon.
    Error,
}

/// A request from the greeter to the daemon.
#[derive(Clone, Debug, PartialEq, Eq)]
pub enum Request {
    /// Begin a login attempt for the given user.
    CreateSession { username: String },
    /// Answer the most recent auth message prompt.
    PostAuthMessageResponse { response: Option<String> },
    /// Start the session of a successfully authenticated user.
    StartSession { cmd: Vec<String>, env: Vec<String> },
    /// Abandon the session under authentication.
    CancelSession,
}

/// The mathematical shape of a [`Request`].
pub enum RequestView {
    CreateSession { username: Seq<char> },
    PostAuthMessageResponse { response: Option<Seq<char>> },
    StartSession { cmd: Seq<Seq<char>>, env: Seq<Seq<char>> },
    CancelSession,
}

impl View for Request {
    type V = RequestView;

    open spec fn view(&self) -> RequestView {
        match self {
            Request::CreateSession { username } => RequestView::CreateSession {
                username: username@,
            },
            Request::PostAuthMessageResponse { response } => RequestView::PostAuthMessageResponse {
                response: response.deep_view(),
            },
            Request::StartSession { cmd, env } => RequestView::StartSession {
                cmd: cmd.deep_view(),
                env: env.deep_view(),
            },
            Request::CancelSession => RequestView::CancelSession,
        }
    }
}

/// A response from the daemon; exactly one arrives per request.
#[derive(Clone, Debug, PartialEq, Eq)]
pub enum Response {
    /// The request succeeded.
    Success,
    /// The request failed; the daemon has abandoned the in-flight
    /// authentication attempt.
    Error { error_type: ErrorType, description: String },
    /// The daemon needs the text shown to the user and, for the
    /// `Visible` and `Secret` kinds, answered via
    /// [`Request::PostAuthMessageResponse`].
    AuthMessage { auth_message_type: AuthMessageType, auth_message: String },
}

/// The mathematical shape of a [`Response`].
pub enum ResponseView {
    Success,
    Error { error_type: ErrorType, description: Seq<char> },
    AuthMessage { auth_message_type: AuthMessageType, auth_message: Seq<char> },
}

impl View for Response {
    type V = ResponseView;

    open spec fn view(&self) -> ResponseView {
        match self {
            Response::Success => ResponseView::Success,
            Response::Error { error_type, description } => ResponseView::Error {
                error_type: *error_type,
                description: description@,
            },
            Response::AuthMessage { auth_message_type, auth_message } => ResponseView::AuthMessage {
                auth_message_type: *auth_message_type,
                auth_message: auth_message@,
            },
        }
    }
}

/// Kind of a prompt notification: how the answer should be echoed.
#[derive(Clone, Copy, Debug, PartialEq, Eq, Structural)]
pub enum PromptKind {
    Visible,
    Secret,
}

/// Kind of a message notification.
#[derive(Clone, Copy, Debug, PartialEq, Eq, Structural)]
pub enum MessageKind {
    Info,
    Error,
    AuthError,
}

/// A notification fanned out to the registered observers; derived from a
/// response and the pre-transition state, never persisted.
#[derive(Clone, Debug, PartialEq, Eq)]
pub enum Notification {
    /// The daemon asks a question that must be answered.
    ShowPrompt { kind: PromptKind, text: String },
    /// The daemon has something to tell the user.
    ShowMessage { kind: MessageKind, text: String },
    /// Authentication has just completed; the session may be started.
    AuthenticationComplete,
}

/// The mathematical shape of a [`Notification`].
pub enum NotificationView {
    ShowPrompt { kind: PromptKind, text: Seq<char> },
    ShowMessage { kind: MessageKind, text: Seq<char> },
    AuthenticationComplete,
}

impl View for Notification {
    type V = NotificationView;

    open spec fn view(&self) -> NotificationView {
        match self {
            Notification::ShowPrompt { kind, text } => NotificationView::ShowPrompt {
                kind: *kind,
                text: text@,
            },
            Notification::ShowMessage { kind, text } => NotificationView::ShowMessage {
                kind: *kind,
                text: text@,
            },
            Notification::AuthenticationComplete => NotificationView::AuthenticationComplete,
        }
    }
}

} // verus!
