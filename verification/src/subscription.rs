//! Subscriptions and the handlers attached to them.
use vstd::prelude::*;
use crate::registry::{entry_key, without_key, Registry};
use crate::traits::IntoHandle;

verus! {

/// Nostr scrolls subscription
pub struct Subscription {
    handle: i32,
    close_on_eose: bool,
}

impl Subscription {
    /// The subscription handle.
    pub closed spec fn id(&self) -> i32 {
        self.handle
    }

    /// Whether the subscription closes at EOSE.
    pub closed spec fn closes_on_eose(&self) -> bool {
        self.close_on_eose
    }

    /// A subscription with the given handle and close-at-EOSE flag.
    pub(crate) fn new(handle: i32, close_on_eose: bool) -> (s: Self)
        ensures
            s.id() == handle,
            s.closes_on_eose() == close_on_eose,
    {
        Subscription { handle, close_on_eose }
    }

    /// Create a subscription from a handle.
    pub fn from_handle(handle: i32) -> (s: Self)
        ensures
            s.id() == handle,
            !s.closes_on_eose(),
    {
        Subscription { handle, close_on_eose: false }
    }

    /// Register handler number `handler` to be invoked for every event
    /// received on this subscription.
    ///
    /// Calling this function multiple times does not attach multiple
    /// handlers: only the last handler stays attached.
    pub fn on_event(&self, registry: &mut Registry, handler: u32)
        requires
            old(registry).wf(),
            old(registry).event_room_for(self.id()),
        ensures
            final(registry).wf(),
            final(registry).events() == without_key(old(registry).events(), entry_key(), self.id()).push(
                (self.id(), handler, self.closes_on_eose()),
            ),
            final(registry).event_handler(self.id()) == Some((handler, self.closes_on_eose())),
            forall|g: i32| g != self.id() ==> #[trigger] final(registry).event_handler(g) == old(registry).event_handler(g),
            final(registry).eoses() == old(registry).eoses(),
    {
        registry.attach_event_handler(self.handle, handler, self.close_on_eose);
    }

    /// Attach handler number `handler`, invoked when the end-of-stored-events
    /// marker is received. Its answer (`true` to close) is ignored when the
    /// subscription is set to close at EOSE: it closes then in any case.
    ///
    /// Calling this function multiple times does not attach multiple
    /// handlers: only the last handler stays attached.
    pub fn on_eose(&self, registry: &mut Registry, handler: u32)
        requires
            old(registry).wf(),
            old(registry).eose_room_for(self.id()),
        ensures
            final(registry).wf(),
            final(registry).eoses() == without_key(old(registry).eoses(), entry_key(), self.id()).push(
                (self.id(), handler, self.closes_on_eose()),
            ),
            final(registry).eose_handler(self.id()) == Some((handler, self.closes_on_eose())),
            forall|g: i32| g != self.id() ==> #[trigger] final(registry).eose_handler(g) == old(registry).eose_handler(g),
            final(registry).events() == old(registry).events(),
    {
        registry.attach_eose_handler(self.handle, handler, self.close_on_eose);
    }

    /// Cancel the subscription: detaches both of its handlers. The host
    /// subscription is the caller's to drop.
    pub fn cancel(self, registry: &mut Registry)
        requires
            old(registry).wf(),
        ensures
            final(registry).wf(),
            final(registry).events() == without_key(old(registry).events(), entry_key(), self.id()),
            final(registry).eoses() == without_key(old(registry).eoses(), entry_key(), self.id()),
            final(registry).event_handler(self.id()) is None,
            final(registry).eose_handler(self.id()) is None,
            forall|g: i32| g != self.id() ==> #[trigger] final(registry).event_handler(g) == old(registry).event_handler(g),
            forall|g: i32| g != self.id() ==> #[trigger] final(registry).eose_handler(g) == old(registry).eose_handler(g),
    {
        registry.cancel(self.handle);
    }
}

/// Whether a handler's answer closes its subscription: a handler without a
/// return value (`None`) keeps it open; otherwise its answer decides.
pub fn handler_closes(answer: Option<bool>) -> (close: bool)
    ensures
        close == (answer == Some(true)),
{
    match answer {
        Some(close) => close,
        None => false,
    }
}

impl IntoHandle for Subscription {
    open spec fn handle_spec(&self) -> i32 {
        self.id()
    }

    fn handle(&self) -> (h: i32) {
        self.handle
    }
}

} // verus!
