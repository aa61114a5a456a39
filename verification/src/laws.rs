//! Laws of the authentication state machine, stated once for all
//! inputs and proved from the definitions in [`crate::state`].
//!
//! The codec's companion laws — that decoding an encoding yields the
//! original message — live next to the codec, as
//! [`crate::codec::lemma_request_round_trip`] and
//! [`crate::codec::lemma_response_round_trip`].

use vstd::prelude::*;

use crate::message::NotificationView;
use crate::message::ResponseView;
use crate::state::AuthState;
use crate::state::Operation;
use crate::state::daemon_violation;
use crate::state::op_legal;
use crate::state::rejection_text;
use crate::state::step;

verus! {

/// The legal-operation table is total: every pair of a state and an
/// operation is either legal — a request goes to the daemon — or
/// rejected locally with a fixed, non-empty message.  There is no
/// third case, so no operation can ever hit an unhandled pair.
pub proof fn lemma_operation_table_total(s: AuthState, op: Operation)
    ensures
        op_legal(s, op) || rejection_text(s, op).len() > 0,
{
    reveal_strlit("a session is already in authentication");
    reveal_strlit("no session under authentication");
    reveal_strlit("session is already authenticated");
    reveal_strlit("session is not ready");
}

/// `AuthenticationComplete` is emitted exactly on the transition into
/// `Authenticated`: precisely when a `CreateSession` or
/// `PostAuthMessageResponse` exchange ends in `Success`.  Both are
/// illegal once `Authenticated`, so the signal cannot repeat within a
/// login flow; and it never accompanies a transition to `NotStarted`.
pub proof fn lemma_auth_complete_once(
    s: AuthState,
    user: Option<Seq<char>>,
    op: Operation,
    resp: ResponseView,
)
    requires
        op_legal(s, op),
        !daemon_violation(op, resp),
    ensures
        ({
            let st = step(s, user, op, resp);
            &&& st.notifications.contains(NotificationView::AuthenticationComplete) <==> (resp
                is Success && (op == Operation::CreateSession || op == Operation::PostResponse))
            &&& st.notifications.contains(NotificationView::AuthenticationComplete) ==> (
            st.state == AuthState::Authenticated && s != AuthState::Authenticated
                && st.notifications == seq![NotificationView::AuthenticationComplete])
            &&& st.notifications.len() <= 1
            &&& st.state == AuthState::NotStarted ==> !st.notifications.contains(
                NotificationView::AuthenticationComplete,
            )
        }),
{
    let st = step(s, user, op, resp);
    if resp is Success && (op == Operation::CreateSession || op == Operation::PostResponse) {
        assert(st.notifications[0] == NotificationView::AuthenticationComplete);
        assert(st.notifications.contains(NotificationView::AuthenticationComplete));
    } else {
        if st.notifications.contains(NotificationView::AuthenticationComplete) {
            let i = choose|i: int|
                0 <= i < st.notifications.len() && st.notifications[i]
                    == NotificationView::AuthenticationComplete;
            assert(st.notifications[i] is AuthenticationComplete);
            assert(false);
        }
    }
}

/// After any `Error` response the daemon has abandoned the attempt, so
/// whatever the prior state and the operation in flight, the machine
/// lands in `NotStarted` with no remembered username.
pub proof fn lemma_error_resets(
    s: AuthState,
    user: Option<Seq<char>>,
    op: Operation,
    resp: ResponseView,
)
    requires
        resp is Error,
    ensures
        step(s, user, op, resp).state == AuthState::NotStarted,
        step(s, user, op, resp).user is None,
{
}

/// A cancellation always resets: whatever the daemon's response holds,
/// the machine lands in `NotStarted` with no remembered username.
pub proof fn lemma_cancel_resets(s: AuthState, user: Option<Seq<char>>, resp: ResponseView)
    ensures
        step(s, user, Operation::CancelSession, resp).state == AuthState::NotStarted,
        step(s, user, Operation::CancelSession, resp).user is None,
{
}

/// No failure is silent: an exchange that the machine reports as
/// unfavorable emits exactly one notification, and it is a message to
/// show the user.
pub proof fn lemma_unfavorable_notifies(
    s: AuthState,
    user: Option<Seq<char>>,
    op: Operation,
    resp: ResponseView,
)
    requires
        op_legal(s, op),
        !daemon_violation(op, resp),
    ensures
        ({
            let st = step(s, user, op, resp);
            !st.favorable ==> st.notifications.len() == 1 && st.notifications[0] is ShowMessage
        }),
{
}

} // verus!
