//! The client facade and the state machine, driven as a daemon would.

use greeters::client::{GreetdClient, OpStart};
use greeters::message::{
    AuthMessageType, ErrorType, MessageKind, Notification, PromptKind, Response,
};

fn sent(r: OpStart) -> Vec<u8> {
    match r {
        OpStart::Send(frame) => frame,
        OpStart::Rejected(n) => panic!("operation rejected: {:?}", n),
    }
}

fn rejected(r: OpStart) -> Notification {
    match r {
        OpStart::Send(_) => panic!("operation unexpectedly sent"),
        OpStart::Rejected(n) => n,
    }
}

fn rejection_message(n: &Notification) -> (MessageKind, String) {
    match n {
        Notification::ShowMessage { kind, text } => (*kind, text.clone()),
        other => panic!("expected a message notification, got {:?}", other),
    }
}

#[test]
fn fresh_client_is_idle() {
    let client = GreetdClient::new(true);
    assert!(!client.in_authentication());
    assert!(!client.is_authenticated());
    assert!(!client.in_flight());
    assert_eq!(client.authentication_user(), None);
}

#[test]
fn secret_prompt_enters_authentication() {
    // A login attempt that the daemon answers with a password prompt.
    let mut client = GreetdClient::new(true);
    let frame = sent(client.create_session(String::from("alice")));
    assert!(!frame.is_empty());
    assert!(client.in_flight());
    let resp = Response::AuthMessage {
        auth_message_type: AuthMessageType::Secret,
        auth_message: String::from("Password:"),
    };
    let handled = client.handle_response(&resp).unwrap();
    assert!(handled.favorable);
    assert_eq!(
        handled.notifications,
        vec![Notification::ShowPrompt {
            kind: PromptKind::Secret,
            text: String::from("Password:"),
        }]
    );
    assert!(client.in_authentication());
    assert!(!client.is_authenticated());
    assert_eq!(client.authentication_user(), Some("alice"));
}

#[test]
fn wrong_password_resets_to_not_started() {
    // Continuing the prompt flow with a wrong answer.
    let mut client = GreetdClient::new(true);
    sent(client.create_session(String::from("alice")));
    client
        .handle_response(&Response::AuthMessage {
            auth_message_type: AuthMessageType::Secret,
            auth_message: String::from("Password:"),
        })
        .unwrap();
    sent(client.post_response(Some(String::from("wrong-pw"))));
    let handled = client
        .handle_response(&Response::Error {
            error_type: ErrorType::AuthError,
            description: String::from("Authentication failed"),
        })
        .unwrap();
    assert!(!handled.favorable);
    assert_eq!(
        handled.notifications,
        vec![Notification::ShowMessage {
            kind: MessageKind::AuthError,
            text: String::from("Authentication failed"),
        }]
    );
    assert!(!client.in_authentication());
    assert!(!client.is_authenticated());
    assert_eq!(client.authentication_user(), None);
}

#[test]
fn immediate_success_authenticates() {
    // A user the daemon lets in without questions.
    let mut client = GreetdClient::new(true);
    sent(client.create_session(String::from("bob")));
    let handled = client.handle_response(&Response::Success).unwrap();
    assert!(handled.favorable);
    assert_eq!(handled.notifications, vec![Notification::AuthenticationComplete]);
    assert!(client.is_authenticated());
    assert_eq!(client.authentication_user(), Some("bob"));
}

#[test]
fn create_session_rejected_while_authenticating() {
    // A second login attempt while one is under way stays local.
    let mut client = GreetdClient::new(true);
    sent(client.create_session(String::from("alice")));
    client
        .handle_response(&Response::AuthMessage {
            auth_message_type: AuthMessageType::Secret,
            auth_message: String::from("Password:"),
        })
        .unwrap();
    let n = rejected(client.create_session(String::from("carol")));
    let (kind, text) = rejection_message(&n);
    assert_eq!(kind, MessageKind::Error);
    assert_eq!(text, "a session is already in authentication");
    assert!(client.in_authentication());
    assert_eq!(client.authentication_user(), Some("alice"));
    assert!(!client.in_flight());
}

#[test]
fn start_session_hands_off() {
    // An authenticated session starts; the daemon's success is the
    // handoff signal and changes nothing further.
    let mut client = GreetdClient::new(true);
    sent(client.create_session(String::from("bob")));
    client.handle_response(&Response::Success).unwrap();
    let frame = sent(client.start_session(
        vec![String::from("/bin/sh")],
        vec![String::from("XDG_SESSION_TYPE=wayland")],
    ));
    assert!(!frame.is_empty());
    let handled = client.handle_response(&Response::Success).unwrap();
    assert!(handled.favorable);
    assert!(handled.notifications.is_empty());
    assert!(client.is_authenticated());
}

#[test]
fn cancel_resets_whatever_the_daemon_says() {
    let mut client = GreetdClient::new(true);
    sent(client.create_session(String::from("alice")));
    client
        .handle_response(&Response::AuthMessage {
            auth_message_type: AuthMessageType::Secret,
            auth_message: String::from("Password:"),
        })
        .unwrap();
    sent(client.cancel_session());
    let handled = client.handle_response(&Response::Success).unwrap();
    assert!(handled.favorable);
    assert!(handled.notifications.is_empty());
    assert!(!client.in_authentication());
    assert!(!client.is_authenticated());
    assert_eq!(client.authentication_user(), None);

    // The same with the daemon objecting: the reset still holds.
    sent(client.create_session(String::from("alice")));
    client.handle_response(&Response::Success).unwrap();
    sent(client.cancel_session());
    let handled = client
        .handle_response(&Response::Error {
            error_type: ErrorType::Error,
            description: String::from("no session"),
        })
        .unwrap();
    assert!(!handled.favorable);
    assert_eq!(handled.notifications.len(), 1);
    assert!(!client.is_authenticated());
    assert_eq!(client.authentication_user(), None);
}

#[test]
fn local_rejections_cover_the_table() {
    let mut client = GreetdClient::new(true);
    let (_, text) = rejection_message(&rejected(client.post_response(None)));
    assert_eq!(text, "no session under authentication");
    let (_, text) = rejection_message(&rejected(client.start_session(vec![], vec![])));
    assert_eq!(text, "session is not ready");

    sent(client.create_session(String::from("bob")));
    client.handle_response(&Response::Success).unwrap();
    let (_, text) = rejection_message(&rejected(client.post_response(None)));
    assert_eq!(text, "session is already authenticated");
    let (_, text) = rejection_message(&rejected(client.create_session(String::from("eve"))));
    assert_eq!(text, "a session is already in authentication");
}

#[test]
fn unconnected_client_rejects_with_connectivity_error() {
    let mut client = GreetdClient::new(false);
    let (kind, text) = rejection_message(&rejected(client.create_session(String::from("alice"))));
    assert_eq!(kind, MessageKind::Error);
    assert_eq!(text, "connect to greetd service failed");
    let (_, text) = rejection_message(&rejected(client.cancel_session()));
    assert_eq!(text, "connect to greetd service failed");
    assert!(!client.in_flight());
    assert_eq!(client.authentication_user(), None);
}

#[test]
fn info_and_error_messages_stay_in_authentication() {
    let mut client = GreetdClient::new(true);
    sent(client.create_session(String::from("alice")));
    let handled = client
        .handle_response(&Response::AuthMessage {
            auth_message_type: AuthMessageType::Info,
            auth_message: String::from("Welcome"),
        })
        .unwrap();
    assert!(handled.favorable);
    assert_eq!(
        handled.notifications,
        vec![Notification::ShowMessage {
            kind: MessageKind::Info,
            text: String::from("Welcome"),
        }]
    );
    assert!(client.in_authentication());

    sent(client.post_response(None));
    let handled = client
        .handle_response(&Response::AuthMessage {
            auth_message_type: AuthMessageType::Error,
            auth_message: String::from("Try again soon"),
        })
        .unwrap();
    assert!(handled.favorable);
    assert_eq!(
        handled.notifications,
        vec![Notification::ShowMessage {
            kind: MessageKind::Error,
            text: String::from("Try again soon"),
        }]
    );
    assert!(client.in_authentication());
}

#[test]
fn prompt_after_start_is_a_daemon_violation() {
    let mut client = GreetdClient::new(true);
    sent(client.create_session(String::from("bob")));
    client.handle_response(&Response::Success).unwrap();
    sent(client.start_session(vec![String::from("/bin/sh")], vec![]));
    let r = client.handle_response(&Response::AuthMessage {
        auth_message_type: AuthMessageType::Visible,
        auth_message: String::from("why?"),
    });
    assert!(r.is_err());
    assert!(!client.in_flight());
}

#[test]
fn abort_exchange_clears_the_flight() {
    let mut client = GreetdClient::new(true);
    sent(client.create_session(String::from("alice")));
    assert!(client.in_flight());
    let n = client.abort_exchange();
    let (kind, text) = rejection_message(&n);
    assert_eq!(kind, MessageKind::Error);
    assert_eq!(text, "lost the connection to greetd");
    assert!(!client.in_flight());
    // The transient username of the unfinished creation is dropped.
    assert_eq!(client.authentication_user(), None);
}
