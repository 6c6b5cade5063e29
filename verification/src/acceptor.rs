//! The accept loop of one listener.
//!
//! The loop never ends on its own. After every accept the caller asks
//! [`on_accept`] what to do with the outcome, does it, and accepts again at
//! once: a connection gets a handler task of its own, which the loop does not
//! wait for, and a failed accept is reported and otherwise ignored.

use crate::address::AddressFamily;
use vstd::prelude::*;

verus! {

/// What one accept on the listener returned.
#[derive(Clone, Copy, Debug, PartialEq, Eq, Structural)]
pub enum AcceptOutcome {
    /// A peer connected.
    Connected,
    /// The accept reported an I/O error.
    Failed,
}

/// What the loop does with the outcome of an accept before it accepts again.
/// There is no action that ends the loop.
#[derive(Clone, Copy, Debug, PartialEq, Eq, Structural)]
pub enum ServeAction {
    /// Start an echo handler for the new connection as a task of its own.
    SpawnHandler,
    /// Report that the listener of this family failed to accept.
    ReportError(AddressFamily),
}

/// The action that answers an accept on the listener of `family`.
pub open spec fn serve_action(family: AddressFamily, accepted: AcceptOutcome) -> ServeAction {
    match accepted {
        AcceptOutcome::Connected => ServeAction::SpawnHandler,
        AcceptOutcome::Failed => ServeAction::ReportError(family),
    }
}

/// Decides what the accept loop of the `family` listener does with the
/// outcome of one accept.
pub fn on_accept(family: AddressFamily, accepted: AcceptOutcome) -> (action: ServeAction)
    ensures
        action == serve_action(family, accepted),
{
    match accepted {
        AcceptOutcome::Connected => ServeAction::SpawnHandler,
        AcceptOutcome::Failed => ServeAction::ReportError(family),
    }
}

/// The number of handlers started over a run of accepts.
pub open spec fn handlers_started(family: AddressFamily, accepts: Seq<AcceptOutcome>) -> nat
    decreases accepts.len(),
{
    if accepts.len() == 0 {
        0
    } else {
        let earlier = handlers_started(family, accepts.drop_last());
        if serve_action(family, accepts.last()) == ServeAction::SpawnHandler {
            earlier + 1
        } else {
            earlier
        }
    }
}

/// Every connection gets its handler, whatever went wrong before it: after a
/// run of accepts the loop has started one handler for each that connected,
/// so a run without failures has started as many handlers as it is long, and
/// a failed accept changes nothing for the accepts that follow.
pub proof fn lemma_one_handler_per_connection(
    family: AddressFamily,
    accepts: Seq<AcceptOutcome>,
    next: AcceptOutcome,
)
    ensures
        handlers_started(family, accepts.push(next)) == handlers_started(family, accepts) + (
        if next == AcceptOutcome::Connected {
            1nat
        } else {
            0nat
        }),
        handlers_started(family, accepts) <= accepts.len(),
        (forall|i: int| 0 <= i < accepts.len() ==> accepts[i] == AcceptOutcome::Connected)
            ==> handlers_started(family, accepts) == accepts.len(),
    decreases accepts.len(),
{
    assert(accepts.push(next).drop_last() == accepts);
    if accepts.len() > 0 {
        lemma_one_handler_per_connection(family, accepts.drop_last(), accepts.last());
        assert(accepts.drop_last().push(accepts.last()) == accepts);
    }
}

} // verus!
