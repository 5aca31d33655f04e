//! Event-handler holders: the optional application handler of the fast
//! server, the adapter that forwards connection events to it, the kinds of
//! connection events and routing rules, and the factory configuration that
//! decides which device manager and event handler an observer gets.

use vstd::prelude::*;

verus! {

/// Kinds of connection lifecycle events.
#[derive(Debug, Clone, Copy, PartialEq, Eq, Structural)]
pub enum ConnectionEventType {
    Connected,
    Disconnected,
    Error,
}

/// How an event is routed: by connection, by event type, or by a custom
/// predicate (`F`).
pub enum EventRouteRule<F> {
    ByConnectionId(String),
    ByEventType(String),
    Custom(F),
}

/// Holds the application's handler (`T`) of fast-server events, if any;
/// without one, events are only logged.
pub struct FastServerEventHandler<T> {
    handler: Option<T>,
}

impl<T> FastServerEventHandler<T> {
    /// The handler, if any.
    pub closed spec fn spec_handler(&self) -> Option<T> {
        self.handler
    }

    /// No handler.
    pub fn new() -> (h: FastServerEventHandler<T>)
        ensures
            h.spec_handler() is None,
    {
        FastServerEventHandler { handler: None }
    }

    /// With `handler`.
    pub fn with_handler(handler: T) -> (h: FastServerEventHandler<T>)
        ensures
            h.spec_handler() == Some(handler),
    {
        FastServerEventHandler { handler: Some(handler) }
    }

    /// Installs `handler`, replacing any other.
    pub fn set_handler(&mut self, handler: T)
        ensures
            final(self).spec_handler() == Some(handler),
    {
        self.handler = Some(handler);
    }

    /// Removes the handler.
    pub fn remove_handler(&mut self)
        ensures
            final(self).spec_handler() is None,
    {
        self.handler = None;
    }

    /// The handler events are forwarded to, if any.
    pub fn handler(&self) -> (r: Option<&T>)
        ensures
            match r {
                Some(h) => self.spec_handler() == Some(*h),
                None => self.spec_handler() is None,
            },
    {
        match &self.handler {
            Some(h) => Some(h),
            None => None,
        }
    }
}

/// Forwards connection events to a fast-server handler (`F`), if one is
/// set; otherwise events are dropped.
pub struct ServerEventAdapter<F> {
    fast_server_handler: Option<F>,
}

impl<F> ServerEventAdapter<F> {
    /// The handler, if any.
    pub closed spec fn spec_handler(&self) -> Option<F> {
        self.fast_server_handler
    }

    /// No handler.
    pub fn new() -> (a: ServerEventAdapter<F>)
        ensures
            a.spec_handler() is None,
    {
        ServerEventAdapter { fast_server_handler: None }
    }

    /// Installs the handler events are forwarded to.
    pub fn set_fast_server_handler(&mut self, handler: F)
        ensures
            final(self).spec_handler() == Some(handler),
    {
        self.fast_server_handler = Some(handler);
    }

    /// The handler events are forwarded to, if any.
    pub fn fast_server_handler(&self) -> (r: Option<&F>)
        ensures
            match r {
                Some(h) => self.spec_handler() == Some(*h),
                None => self.spec_handler() is None,
            },
    {
        match &self.fast_server_handler {
            Some(h) => Some(h),
            None => None,
        }
    }
}

/// What an observer factory can borrow from the server core: its device
/// manager (`D`) and event handler (`E`), when it has them.
pub struct ServerCoreRef<D, E> {
    pub device_manager: Option<D>,
    pub event_handler: Option<E>,
}

/// The device manager an observer gets: the factory's own, else the core's.
pub fn resolve_device_manager<D>(factory: Option<D>, core: Option<D>) -> (r: Option<D>)
    ensures
        r == if factory is Some { factory } else { core },
{
    match factory {
        Some(d) => Some(d),
        None => core,
    }
}

/// The observer factory's own device manager and event handler, each
/// optional.
pub struct DefaultServerMessageObserverFactory<D, E> {
    device_manager: Option<D>,
    event_handler: Option<E>,
}

impl<D, E> DefaultServerMessageObserverFactory<D, E> {
    /// The factory's device manager, if any.
    pub closed spec fn spec_device_manager(&self) -> Option<D> {
        self.device_manager
    }

    /// The factory's event handler, if any.
    pub closed spec fn spec_event_handler(&self) -> Option<E> {
        self.event_handler
    }

    /// Neither.
    pub fn new() -> (f: DefaultServerMessageObserverFactory<D, E>)
        ensures
            f.spec_device_manager() is None,
            f.spec_event_handler() is None,
    {
        DefaultServerMessageObserverFactory { device_manager: None, event_handler: None }
    }

    /// Sets the device manager.
    pub fn with_device_manager(self, device_manager: Option<D>) -> (f: DefaultServerMessageObserverFactory<D, E>)
        ensures
            f.spec_device_manager() == device_manager,
            f.spec_event_handler() == self.spec_event_handler(),
    {
        DefaultServerMessageObserverFactory { device_manager, event_handler: self.event_handler }
    }

    /// Sets the event handler.
    pub fn with_event_handler(self, event_handler: Option<E>) -> (f: DefaultServerMessageObserverFactory<D, E>)
        ensures
            f.spec_event_handler() == event_handler,
            f.spec_device_manager() == self.spec_device_manager(),
    {
        DefaultServerMessageObserverFactory { device_manager: self.device_manager, event_handler }
    }

    /// The parts of the observer for a connection: the event handler given
    /// for it, and the factory's device manager or else the core's.
    pub fn observer_parts(self, event_handler: E, core_ref: ServerCoreRef<D, E>) -> (r: (E, Option<D>))
        ensures
            r.0 == event_handler,
            r.1 == if self.spec_device_manager() is Some {
                self.spec_device_manager()
            } else {
                core_ref.device_manager
            },
    {
        (event_handler, resolve_device_manager(self.device_manager, core_ref.device_manager))
    }
}

/// Holds the application's server event handler (`E`).
pub struct ConnectionEventHandler<E> {
    server_event_handler: E,
}

impl<E> ConnectionEventHandler<E> {
    /// The handler.
    pub closed spec fn spec_handler(&self) -> E {
        self.server_event_handler
    }

    /// Wraps `server_event_handler`.
    pub fn new(server_event_handler: E) -> (h: ConnectionEventHandler<E>)
        ensures
            h.spec_handler() == server_event_handler,
    {
        ConnectionEventHandler { server_event_handler }
    }

    /// The handler.
    pub fn get_server_event_handler(&self) -> (r: &E)
        ensures
            *r == self.spec_handler(),
    {
        &self.server_event_handler
    }
}

} // verus!
