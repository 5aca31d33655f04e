//! The adapter that hands connection events to the application's server
//! event handler.

use vstd::prelude::*;

verus! {

/// Holds the application's server event handler (`E`), to which
/// connection events are forwarded.
pub struct ServerEventAdapter<E> {
    server_event_handler: E,
}

impl<E> ServerEventAdapter<E> {
    /// The handler.
    pub closed spec fn spec_handler(&self) -> E {
        self.server_event_handler
    }

    /// Wraps `server_event_handler`.
    pub fn new(server_event_handler: E) -> (a: ServerEventAdapter<E>)
        ensures
            a.spec_handler() == server_event_handler,
    {
        ServerEventAdapter { server_event_handler }
    }

    /// The handler.
    pub fn get_server_event_handler(&self) -> (r: &E)
        ensures
            *r == self.spec_handler(),
    {
        &self.server_event_handler
    }
}

} // verus!
