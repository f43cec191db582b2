//! Lifecycle events: staged on the render side, dispatched on the control side.
//!
//! A render-side node stages at most one lifecycle event per activation; the
//! executor collects the staged event exactly once and relays it, as an
//! [`EventEmitterMessage`], to the control side, where a registry maps it to
//! the callbacks that were registered for that node.  Callbacks themselves are
//! opaque to this crate and are addressed by a numeric token.

use vstd::prelude::*;

verus! {

/// The kinds of lifecycle event a node can raise.
#[derive(Debug, Copy, Clone, PartialEq, Eq, Structural)]
pub enum EventType {
    /// Playback of a source node came to an end.
    Ended,
}

/// A render-to-control message carrying one lifecycle event.
#[derive(Debug, Copy, Clone, PartialEq, Eq, Structural)]
pub struct EventEmitterMessage {
    /// Render-side id of the node that raised the event.
    pub node_id: u64,
    /// What happened.
    pub event_type: EventType,
}

/// Render-side staging of lifecycle events.
///
/// A node stages at most one event per activation: once an event is staged,
/// further registrations are ignored until the executor takes the event.
pub trait EventEmitter: Sized {
    /// The currently staged event, if any.
    spec fn staged(&self) -> Option<EventType>;

    /// Read the staged event without taking it.
    fn stagging_event(&self) -> (e: Option<EventType>)
        ensures
            e == self.staged(),
    ;

    /// Replace the staged event.
    fn set_stagging_event(&mut self, e: Option<EventType>)
        ensures
            final(self).staged() == e,
    ;

    /// Stage `event` unless an event is already staged.
    fn register_event(&mut self, event: EventType)
        ensures
            final(self).staged() == if old(self).staged() is Some {
                old(self).staged()
            } else {
                Some(event)
            },
    {
        if self.stagging_event().is_none() {
            self.set_stagging_event(Some(event));
        }
    }

    /// Take the staged event, leaving nothing staged.
    fn get_stagging_event(&mut self) -> (e: Option<EventType>)
        ensures
            e == old(self).staged(),
            final(self).staged() is None,
    {
        let e = self.stagging_event();
        self.set_stagging_event(None);
        e
    }
}

/// One registered listener: a node id, the event kind listened for, and an
/// opaque token standing for the callback kept by the caller.
#[derive(Debug, Copy, Clone, PartialEq, Eq, Structural)]
pub struct EventHandlerInfos {
    /// Render-side id of the node listened to.
    pub node_id: u64,
    /// The event kind listened for.
    pub event_type: EventType,
    /// Opaque token for the callback held outside this crate.
    pub callback: u64,
}

/// The callback tokens among `handlers` registered for `event_type` on node
/// `node_id`, in registration order.
pub open spec fn dispatch_tokens(
    handlers: Seq<EventHandlerInfos>,
    node_id: u64,
    event_type: EventType,
) -> Seq<u64>
    decreases handlers.len(),
{
    if handlers.len() == 0 {
        Seq::empty()
    } else {
        let rest = dispatch_tokens(handlers.drop_last(), node_id, event_type);
        let h = handlers.last();
        if h.node_id == node_id && h.event_type == event_type {
            rest.push(h.callback)
        } else {
            rest
        }
    }
}

/// Control-side registry of lifecycle-event listeners.
pub struct EventHandlerRegistry {
    handlers: Vec<EventHandlerInfos>,
}

impl View for EventHandlerRegistry {
    type V = Seq<EventHandlerInfos>;

    closed spec fn view(&self) -> Seq<EventHandlerInfos> {
        self.handlers@
    }
}

impl EventHandlerRegistry {
    /// An empty registry.
    pub fn new() -> (r: EventHandlerRegistry)
        ensures
            r@ == Seq::<EventHandlerInfos>::empty(),
    {
        EventHandlerRegistry { handlers: Vec::new() }
    }

    /// Record one listener.
    pub fn register_event_handler(&mut self, handler: EventHandlerInfos)
        ensures
            final(self)@ == old(self)@.push(handler),
    {
        self.handlers.push(handler);
    }

    /// The callback tokens to invoke for `msg`, in registration order.
    pub fn dispatch(&self, msg: EventEmitterMessage) -> (tokens: Vec<u64>)
        ensures
            tokens@ == dispatch_tokens(self@, msg.node_id, msg.event_type),
    {
        let mut tokens: Vec<u64> = Vec::new();
        let mut i: usize = 0;
        while i < self.handlers.len()
            invariant
                0 <= i <= self.handlers@.len(),
                tokens@ == dispatch_tokens(
                    self.handlers@.take(i as int),
                    msg.node_id,
                    msg.event_type,
                ),
            decreases self.handlers@.len() - i,
        {
            let h = self.handlers[i];
            proof {
                assert(self.handlers@.take(i + 1).drop_last() == self.handlers@.take(i as int));
                assert(self.handlers@.take(i + 1).last() == h);
            }
            if h.node_id == msg.node_id && h.event_type == msg.event_type {
                tokens.push(h.callback);
            }
            i += 1;
        }
        proof {
            assert(self.handlers@.take(self.handlers@.len() as int) == self.handlers@);
        }
        tokens
    }
}

/// Control-side entities that can listen for lifecycle events.
pub trait EventListener: Sized {
    /// Render-side id of this entity.
    spec fn id_spec(&self) -> u64;

    /// Render-side id of this entity.
    fn id(&self) -> (r: u64)
        ensures
            r == self.id_spec(),
    ;

    /// Register `callback` (an opaque token) for events of kind `event_type`
    /// raised by this entity.
    fn register_event_listener(
        &self,
        registry: &mut EventHandlerRegistry,
        event_type: EventType,
        callback: u64,
    )
        ensures
            final(registry)@ == old(registry)@.push(
                EventHandlerInfos { node_id: self.id_spec(), event_type, callback },
            ),
    {
        let handler = EventHandlerInfos { node_id: self.id(), event_type, callback };
        registry.register_event_handler(handler);
    }
}

} // verus!
