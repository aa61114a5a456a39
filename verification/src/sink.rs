//! The notification sink: a registration point for observers that
//! receive prompts, messages and the authentication-complete signal.
//!
//! Observers are registered once and never removed; each notification
//! is delivered to every observer in registration order.  The sink
//! keeps a ghost history of everything dispatched, so that statements
//! about emissions can be made against it.

use vstd::prelude::*;

use crate::message::MessageKind;
use crate::message::Notification;
use crate::message::NotificationView;
use crate::message::PromptKind;

verus! {

/// The capability set a greeter front end implements to receive the
/// client's notifications.  Handlers take `&self`; an observer that
/// records what it saw uses interior mutability of its own.
pub trait GreeterObserver {
    /// A question to show; its answer goes back to the daemon.
    fn on_prompt(&self, kind: PromptKind, text: &str);

    /// A message to show.
    fn on_message(&self, kind: MessageKind, text: &str);

    /// Authentication has just completed.
    fn on_auth_complete(&self);
}

/// Fans notifications out to the registered observers.
pub struct NotificationSink<O: GreeterObserver> {
    observers: Vec<O>,
    history: Ghost<Seq<NotificationView>>,
}

impl<O: GreeterObserver> NotificationSink<O> {
    /// Every notification this sink has dispatched, in order.
    pub closed spec fn history(self) -> Seq<NotificationView> {
        self.history@
    }

    /// How many observers are registered.
    pub closed spec fn observer_count(self) -> nat {
        self.observers@.len()
    }

    /// A sink with no observers and an empty history.
    pub fn new() -> (r: Self)
        ensures
            r.history() == Seq::<NotificationView>::empty(),
            r.observer_count() == 0,
    {
        NotificationSink { observers: Vec::new(), history: Ghost(Seq::empty()) }
    }

    /// Registers one more observer, for the sink's whole lifetime.
    pub fn subscribe(&mut self, observer: O)
        ensures
            final(self).history() == old(self).history(),
            final(self).observer_count() == old(self).observer_count() + 1,
    {
        self.observers.push(observer);
    }

    /// Delivers one notification to every observer, in registration
    /// order, and records it in the history.
    pub fn dispatch(&mut self, n: &Notification)
        ensures
            final(self).history() == old(self).history().push(n@),
            final(self).observer_count() == old(self).observer_count(),
    {
        let mut i: usize = 0;
        while i < self.observers.len()
            invariant
                i <= self.observers@.len(),
                *self == *old(self),
            decreases self.observers@.len() - i,
        {
            let o = &self.observers[i];
            match n {
                Notification::ShowPrompt { kind, text } => o.on_prompt(*kind, text.as_str()),
                Notification::ShowMessage { kind, text } => o.on_message(*kind, text.as_str()),
                Notification::AuthenticationComplete => o.on_auth_complete(),
            }
            i = i + 1;
        }
        proof {
            self.history@ = self.history@.push(n@);
        }
    }

    /// Delivers a batch of notifications, in order.
    pub fn dispatch_all(&mut self, ns: &Vec<Notification>)
        ensures
            final(self).history() == old(self).history() + ns.deep_view(),
            final(self).observer_count() == old(self).observer_count(),
    {
        let mut i: usize = 0;
        while i < ns.len()
            invariant
                i <= ns@.len(),
                self.history() == old(self).history() + ns.deep_view().take(i as int),
                self.observer_count() == old(self).observer_count(),
            decreases ns@.len() - i,
        {
            self.dispatch(&ns[i]);
            proof {
                assert(ns.deep_view().take(i as int).push(ns@[i as int]@) =~= ns.deep_view().take(
                    i as int + 1,
                ));
            }
            i = i + 1;
        }
        proof {
            assert(ns.deep_view().take(ns@.len() as int) =~= ns.deep_view());
        }
    }
}

} // verus!
