//! The bounded write queue of a connection: admission of writes, the
//! writer's progress through them, and the isolation of a connection whose
//! queue overflows or whose writer fails. A slow consumer fills only its own
//! queue; a write that finds it full is refused at once, and the connection
//! is then closed and unregistered. The writes themselves are I/O, left to
//! the caller.

use crate::error::{ErrorCode, FlareError};
use crate::manager::ConnectionManager;
use crate::registry::user_remove_opt;
use vstd::prelude::*;

verus! {

/// The message of a write refused because the queue is closed.
pub open spec fn queue_closed_message() -> Seq<char> {
    "Connection write queue is closed"@
}

/// The message of a write refused because the queue is full.
pub open spec fn queue_full_message() -> Seq<char> {
    "Connection write queue is full"@
}

/// The writes waiting for a connection, oldest first, with the queue's
/// capacity and whether it is closed.
pub struct WriteQueue {
    pending: Vec<Vec<u8>>,
    capacity: usize,
    closed: bool,
}

/// What the writer does after a write finished.
#[derive(Debug, Clone, Copy, PartialEq, Eq, Structural)]
pub enum WriterStep {
    /// Take the next write.
    Continue,
    /// Close the connection and unregister it; the writer stops.
    Isolate,
}

impl WriteQueue {
    /// The waiting writes, oldest first.
    pub closed spec fn pending(&self) -> Seq<Seq<u8>> {
        self.pending@.map_values(|w: Vec<u8>| w@)
    }

    /// The most writes that may wait.
    pub closed spec fn capacity(&self) -> nat {
        self.capacity as nat
    }

    /// Whether the queue takes no more writes.
    pub closed spec fn is_closed(&self) -> bool {
        self.closed
    }

    /// The capacity is at least one and never exceeded.
    pub open spec fn wf(&self) -> bool {
        &&& self.capacity() >= 1
        &&& self.pending().len() <= self.capacity()
    }

    /// An open, empty queue holding at most `capacity` writes (at least one).
    pub fn new(capacity: usize) -> (q: WriteQueue)
        ensures
            q.wf(),
            q.pending() == Seq::<Seq<u8>>::empty(),
            q.capacity() == if capacity == 0 { 1 } else { capacity as nat },
            !q.is_closed(),
    {
        let q = WriteQueue { pending: Vec::new(), capacity: if capacity == 0 { 1 } else { capacity }, closed: false };
        assert(q.pending() =~= Seq::<Seq<u8>>::empty());
        q
    }

    /// The number of waiting writes.
    pub fn len(&self) -> (n: usize)
        ensures
            n == self.pending().len(),
    {
        self.pending.len()
    }

    /// Whether the queue is closed.
    pub fn closed(&self) -> (c: bool)
        ensures
            c == self.is_closed(),
    {
        self.closed
    }

    /// Admits `data` without waiting: refused with
    /// [`ErrorCode::ConnectionClosed`] when the queue is closed, with
    /// [`ErrorCode::ConnectionTimeout`] when it is full; else appended.
    pub fn try_enqueue(&mut self, data: &[u8]) -> (r: Result<(), FlareError>)
        requires
            old(self).wf(),
        ensures
            final(self).wf(),
            final(self).capacity() == old(self).capacity(),
            final(self).is_closed() == old(self).is_closed(),
            old(self).is_closed() ==> (r matches Err(e) && e.code == ErrorCode::ConnectionClosed
                && e.message@ == queue_closed_message() && final(self).pending() == old(self).pending()),
            !old(self).is_closed() && old(self).pending().len() >= old(self).capacity() ==> (r matches Err(e)
                && e.code == ErrorCode::ConnectionTimeout && e.message@ == queue_full_message()
                && final(self).pending() == old(self).pending()),
            !old(self).is_closed() && old(self).pending().len() < old(self).capacity() ==> r is Ok
                && final(self).pending() == old(self).pending().push(data@),
    {
        if self.closed {
            return Err(FlareError::connection_closed(String::from_str("Connection write queue is closed")));
        }
        if self.pending.len() >= self.capacity {
            return Err(FlareError::connection_timeout(String::from_str("Connection write queue is full")));
        }
        let ghost p0 = self.pending@;
        self.pending.push(vstd::slice::slice_to_vec(data));
        proof {
            assert(self.pending@.map_values(|w: Vec<u8>| w@) =~= p0.map_values(|w: Vec<u8>| w@).push(data@));
        }
        Ok(())
    }

    /// The writer takes the oldest waiting write, if the queue is open and
    /// holds one; a closed queue hands out nothing and the writer stops.
    pub fn next_write(&mut self) -> (w: Option<Vec<u8>>)
        requires
            old(self).wf(),
        ensures
            final(self).wf(),
            final(self).capacity() == old(self).capacity(),
            final(self).is_closed() == old(self).is_closed(),
            if old(self).is_closed() || old(self).pending().len() == 0 {
                w is None && final(self).pending() == old(self).pending()
            } else {
                &&& w is Some
                &&& w->0@ == old(self).pending()[0]
                &&& final(self).pending() == old(self).pending().drop_first()
            },
    {
        if self.closed || self.pending.len() == 0 {
            return None;
        }
        let ghost p0 = self.pending@;
        let w = self.pending.remove(0);
        proof {
            assert(self.pending@.map_values(|w: Vec<u8>| w@) =~= p0.map_values(|w: Vec<u8>| w@).drop_first());
        }
        Some(w)
    }

    /// Closes the queue; true when it was open until now, so that the
    /// connection is closed once.
    pub fn mark_closed(&mut self) -> (was_open: bool)
        ensures
            was_open == !old(self).is_closed(),
            final(self).is_closed(),
            final(self).pending() == old(self).pending(),
            final(self).capacity() == old(self).capacity(),
    {
        let was_open = !self.closed;
        self.closed = true;
        was_open
    }

    /// The writer's decision once a write finished: on success it goes on;
    /// on a failure or a timeout the queue is closed and the connection is
    /// to be isolated.
    pub fn write_finished(&mut self, succeeded: bool) -> (step: WriterStep)
        ensures
            step == (if succeeded { WriterStep::Continue } else { WriterStep::Isolate }),
            final(self).is_closed() == (old(self).is_closed() || !succeeded),
            final(self).pending() == old(self).pending(),
            final(self).capacity() == old(self).capacity(),
    {
        if succeeded {
            WriterStep::Continue
        } else {
            self.closed = true;
            WriterStep::Isolate
        }
    }
}

/// Hands `data` to the write queue of `connection_id`. A refused write
/// isolates the connection: its queue is closed (the caller closes the
/// underlying connection when [`WriteQueue::mark_closed`] reported it
/// open) and it is unregistered from `manager`; the refusal is handed back.
/// Returns the refusal, and whether the caller is to close the connection.
pub fn enqueue_or_isolate<H>(
    manager: &mut ConnectionManager<H>,
    connection_id: &str,
    queue: &mut WriteQueue,
    data: &[u8],
) -> (r: (Result<(), FlareError>, bool))
    requires
        old(manager).wf(),
        old(queue).wf(),
    ensures
        final(manager).wf(),
        final(queue).wf(),
        final(queue).capacity() == old(queue).capacity(),
        r.0 is Ok <==> (!old(queue).is_closed() && old(queue).pending().len() < old(queue).capacity()),
        r.0 is Ok ==> {
            &&& final(queue).pending() == old(queue).pending().push(data@)
            &&& !final(queue).is_closed()
            &&& !r.1
            &&& *final(manager) == *old(manager)
        },
        r.0 is Err ==> {
            &&& r.0->Err_0.code == (if old(queue).is_closed() {
                ErrorCode::ConnectionClosed
            } else {
                ErrorCode::ConnectionTimeout
            })
            &&& final(queue).pending() == old(queue).pending()
            &&& final(queue).is_closed()
            &&& r.1 == !old(queue).is_closed()
            &&& final(manager).conns() == old(manager).conns().remove(connection_id@)
            &&& final(manager).handles() == old(manager).handles().remove(connection_id@)
            &&& final(manager).users() == if old(manager).conns().contains_key(connection_id@) {
                user_remove_opt(old(manager).users(), old(manager).conns()[connection_id@].user_id, connection_id@)
            } else {
                old(manager).users()
            }
        },
        final(manager).spec_send_timeout() == old(manager).spec_send_timeout(),
        final(manager).spec_fanout_concurrency() == old(manager).spec_fanout_concurrency(),
        final(manager).spec_write_queue_capacity() == old(manager).spec_write_queue_capacity(),
{
    match queue.try_enqueue(data) {
        Ok(()) => (Ok(()), false),
        Err(e) => {
            let close = queue.mark_closed();
            let _ = manager.remove_connection(connection_id);
            proof {
                if !old(manager).conns().contains_key(connection_id@) {
                    assert(old(manager).conns().remove(connection_id@) =~= old(manager).conns());
                    assert(old(manager).handles().dom() == old(manager).conns().dom()) by {
                        old(manager).lemma_ids();
                    }
                    assert(old(manager).handles().remove(connection_id@) =~= old(manager).handles());
                }
            }
            (Err(e), close)
        },
    }
}

} // verus!
