//! The data managers around the protocol core, and the notification
//! sink's fan-out.

use std::cell::RefCell;
use std::rc::Rc;

use greeters::language::{Language, LanguageManager};
use greeters::layout::{Layout, LayoutManager};
use greeters::message::{MessageKind, Notification, PromptKind};
use greeters::power::PowerManager;
use greeters::session::{session_entry_usable, session_key, Session, SessionManager};
use greeters::sink::{GreeterObserver, NotificationSink};

fn s(text: &str) -> String {
    String::from(text)
}

#[test]
fn session_getters_return_what_was_given() {
    let session = Session::new(
        s("sway"),
        s("wayland"),
        s("Sway"),
        s("A tiling compositor"),
        s("/usr/bin/sway"),
    );
    assert_eq!(session.key(), "sway");
    assert_eq!(session.type_(), "wayland");
    assert_eq!(session.name(), "Sway");
    assert_eq!(session.comment(), "A tiling compositor");
    assert_eq!(session.command(), "/usr/bin/sway");
}

#[test]
fn sessions_come_back_sorted_by_key() {
    let manager = SessionManager::new(vec![
        Session::new(s("zzz"), s("x"), s("Last"), s(""), s("l")),
        Session::new(s("gnome"), s("wayland"), s("GNOME"), s(""), s("g")),
        Session::new(s("plasma"), s("wayland"), s("Plasma"), s(""), s("p")),
        Session::new(s("gnome"), s("x"), s("GNOME on X"), s(""), s("gx")),
    ]);
    let sorted = manager.sessions();
    let keys: Vec<&str> = sorted.iter().map(|e| e.key()).collect();
    assert_eq!(keys, vec!["gnome", "gnome", "plasma", "zzz"]);
    // Entries sharing a key keep the order given at construction.
    assert_eq!(sorted[0].name(), "GNOME");
    assert_eq!(sorted[1].name(), "GNOME on X");
}

#[test]
fn session_lookup_finds_the_first_match() {
    let manager = SessionManager::new(vec![
        Session::new(s("plasma"), s("x"), s("Plasma (X11)"), s(""), s("startplasma-x11")),
        Session::new(s("sway"), s("wayland"), s("Sway"), s(""), s("sway")),
        Session::new(s("sway"), s("x"), s("Sway again"), s(""), s("sway2")),
    ]);
    assert_eq!(manager.sessions().len(), 3);
    let found = manager.session("sway").expect("sway should be found");
    assert_eq!(found.name(), "Sway");
    assert_eq!(found.type_(), "wayland");
    assert!(manager.session("gnome").is_none());
}

#[test]
fn desktop_entries_filter_and_name_like_a_session_loader() {
    // Usable unless hidden, suppressed, or missing its TryExec program.
    assert!(session_entry_usable(None, None, None));
    assert!(session_entry_usable(Some(false), Some(false), Some(true)));
    assert!(!session_entry_usable(Some(true), None, None));
    assert!(!session_entry_usable(None, Some(true), None));
    assert!(!session_entry_usable(None, None, Some(false)));
    // The key drops every trailing .desktop suffix, as the loader does.
    assert_eq!(session_key("sway.desktop"), "sway");
    assert_eq!(session_key("a.desktop.desktop"), "a");
    assert_eq!(session_key("plain"), "plain");
    assert_eq!(session_key("desktop"), "desktop");
}

#[test]
fn layout_selection_follows_names() {
    let mut manager = LayoutManager::new(vec![
        Layout::new(s("us"), Some(s("en")), s("English (US)")),
        Layout::new(s("de"), None, s("German")),
    ]);
    assert_eq!(manager.layouts().len(), 2);
    assert_eq!(manager.layout().name(), "us");
    assert_eq!(manager.layout().short_description(), Some("en"));
    assert!(manager.set_layout("de"));
    assert_eq!(manager.layout().name(), "de");
    assert_eq!(manager.layout().short_description(), None);
    assert_eq!(manager.layout().description(), "German");
    // An unknown name changes nothing.
    assert!(!manager.set_layout("fr"));
    assert_eq!(manager.layout().name(), "de");
}

#[test]
fn language_matching_ignores_the_encoding_suffix() {
    let manager = LanguageManager::new(vec![
        Language::new(s("de_DE.utf8"), s("German"), s("Germany")),
        Language::new(s("en_US.utf8"), s("English"), s("United States")),
    ]);
    assert_eq!(manager.languages().len(), 2);
    let current = manager.current("en_US.UTF-8").expect("en_US should match");
    assert_eq!(current.code(), "en_US.utf8");
    assert_eq!(current.name(), "English");
    assert_eq!(current.territory(), "United States");
    assert!(manager.current("fr_FR.utf8").is_none());
}

#[test]
fn power_capabilities_require_a_literal_yes() {
    let manager = PowerManager::new(
        Some(s("yes")),
        Some(s("no")),
        Some(s("challenge")),
        None,
    );
    assert!(manager.can_hibernate());
    assert!(!manager.can_power_off());
    assert!(!manager.can_reboot());
    assert!(!manager.can_suspend());
}

/// An observer that writes down everything it is told.
struct Recorder {
    log: Rc<RefCell<Vec<String>>>,
}

impl GreeterObserver for Recorder {
    fn on_prompt(&self, kind: PromptKind, text: &str) {
        self.log.borrow_mut().push(format!("prompt {:?} {}", kind, text));
    }

    fn on_message(&self, kind: MessageKind, text: &str) {
        self.log.borrow_mut().push(format!("message {:?} {}", kind, text));
    }

    fn on_auth_complete(&self) {
        self.log.borrow_mut().push(String::from("complete"));
    }
}

#[test]
fn sink_delivers_in_order() {
    let log = Rc::new(RefCell::new(Vec::new()));
    let second = Rc::new(RefCell::new(Vec::new()));
    let mut sink: NotificationSink<Recorder> = NotificationSink::new();
    sink.subscribe(Recorder { log: log.clone() });
    sink.subscribe(Recorder { log: second.clone() });
    let batch = vec![
        Notification::ShowPrompt { kind: PromptKind::Secret, text: String::from("Password:") },
        Notification::ShowMessage { kind: MessageKind::Info, text: String::from("hello") },
        Notification::AuthenticationComplete,
    ];
    sink.dispatch_all(&batch);
    sink.dispatch(&Notification::ShowMessage {
        kind: MessageKind::AuthError,
        text: String::from("nope"),
    });
    let expected = vec![
        String::from("prompt Secret Password:"),
        String::from("message Info hello"),
        String::from("complete"),
        String::from("message AuthError nope"),
    ];
    assert_eq!(*log.borrow(), expected);
    // Every registered observer saw the same notifications.
    assert_eq!(*second.borrow(), expected);
}
