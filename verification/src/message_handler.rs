//! Choosing the message handler for a message: one registered for the
//! connection, else one registered for the message's type, else the
//! default.

use crate::keyed::{kv_map, kv_wf, lemma_kv_absent, lemma_kv_at, lemma_kv_push, lemma_kv_remove, lemma_kv_update};
use crate::strings::str_eq;
use vstd::prelude::*;

verus! {

/// The kind of a message handler.
#[derive(Debug, Clone)]
pub enum HandlerType {
    /// Answers with what it received.
    Echo,
    /// Sends what it received to every connection.
    Broadcast,
    /// A handler of the application's, by name.
    Custom(String),
}

/// The handler for a message of type `t` on connection `c`: the
/// connection's own, else its type's, else the default.
pub open spec fn route<H>(by_connection: Map<Seq<char>, H>, by_type: Map<Seq<char>, H>, default: H, c: Seq<char>, t: Seq<char>) -> H {
    if by_connection.contains_key(c) {
        by_connection[c]
    } else if by_type.contains_key(t) {
        by_type[t]
    } else {
        default
    }
}

spec fn row_keys<H>(v: Seq<(String, H)>) -> Seq<Seq<char>> {
    v.map_values(|e: (String, H)| e.0@)
}

spec fn row_vals<H>(v: Seq<(String, H)>) -> Seq<H> {
    v.map_values(|e: (String, H)| e.1)
}

fn find_row<H>(v: &Vec<(String, H)>, key: &str) -> (r: Option<usize>)
    ensures
        match r {
            Some(i) => i < v@.len() && row_keys(v@)[i as int] == key@,
            None => !row_keys(v@).contains(key@),
        },
{
    let mut i: usize = 0;
    while i < v.len()
        invariant
            i <= v@.len(),
            forall|j: int| 0 <= j < i ==> row_keys(v@)[j] != key@,
        decreases v@.len() - i,
    {
        if str_eq(v[i].0.as_str(), key) {
            return Some(i);
        }
        i += 1;
    }
    None
}

/// Stores `handler` under `key` in the rows, replacing the one there.
fn put_row<H>(v: &mut Vec<(String, H)>, key: String, handler: H)
    requires
        kv_wf(row_keys(old(v)@), row_vals(old(v)@)),
    ensures
        kv_wf(row_keys(final(v)@), row_vals(final(v)@)),
        kv_map(row_keys(final(v)@), row_vals(final(v)@)) == kv_map(row_keys(old(v)@), row_vals(old(v)@)).insert(
            key@,
            handler,
        ),
{
    let ghost ks = row_keys(v@);
    let ghost vs = row_vals(v@);
    let ghost kv = key@;
    let ghost hv = handler;
    match find_row(v, key.as_str()) {
        Some(i) => {
            v.set(i, (key, handler));
            proof {
                assert(row_keys(v@) =~= ks);
                assert(row_vals(v@) =~= vs.update(i as int, hv));
                lemma_kv_update(ks, vs, i as int, hv);
            }
        },
        None => {
            v.push((key, handler));
            proof {
                assert(row_keys(v@) =~= ks.push(kv));
                assert(row_vals(v@) =~= vs.push(hv));
                lemma_kv_push(ks, vs, kv, hv);
            }
        },
    }
}

/// Drops the row under `key`; tells whether there was one.
fn drop_row<H>(v: &mut Vec<(String, H)>, key: &str) -> (removed: bool)
    requires
        kv_wf(row_keys(old(v)@), row_vals(old(v)@)),
    ensures
        kv_wf(row_keys(final(v)@), row_vals(final(v)@)),
        removed == kv_map(row_keys(old(v)@), row_vals(old(v)@)).contains_key(key@),
        kv_map(row_keys(final(v)@), row_vals(final(v)@)) == kv_map(row_keys(old(v)@), row_vals(old(v)@)).remove(
            key@,
        ),
{
    let ghost ks = row_keys(v@);
    let ghost vs = row_vals(v@);
    match find_row(v, key) {
        None => {
            proof {
                lemma_kv_absent(ks, vs, key@);
                assert(kv_map(ks, vs).remove(key@) =~= kv_map(ks, vs));
            }
            false
        },
        Some(i) => {
            proof {
                lemma_kv_at(ks, vs, i as int);
                lemma_kv_remove(ks, vs, i as int);
            }
            let _ = v.remove(i);
            proof {
                assert(row_keys(v@) =~= ks.remove(i as int));
                assert(row_vals(v@) =~= vs.remove(i as int));
            }
            true
        },
    }
}

/// A message handler that hands each message to the handler (of type `H`)
/// registered for its connection, else for its type, else to the default.
pub struct EnhancedMessageHandler<H> {
    default_handler: H,
    typed_handlers: Vec<(String, H)>,
    connection_handlers: Vec<(String, H)>,
}

impl<H> EnhancedMessageHandler<H> {
    /// The handler used when no other applies.
    pub closed spec fn default_of(&self) -> H {
        self.default_handler
    }

    /// The handlers registered by message type.
    pub closed spec fn by_type(&self) -> Map<Seq<char>, H> {
        kv_map(row_keys(self.typed_handlers@), row_vals(self.typed_handlers@))
    }

    /// The handlers registered by connection.
    pub closed spec fn by_connection(&self) -> Map<Seq<char>, H> {
        kv_map(row_keys(self.connection_handlers@), row_vals(self.connection_handlers@))
    }

    /// Each message type and each connection has at most one handler.
    pub closed spec fn wf(&self) -> bool {
        &&& kv_wf(row_keys(self.typed_handlers@), row_vals(self.typed_handlers@))
        &&& kv_wf(row_keys(self.connection_handlers@), row_vals(self.connection_handlers@))
    }

    /// Only the default handler.
    pub fn new(default_handler: H) -> (m: Self)
        ensures
            m.wf(),
            m.default_of() == default_handler,
            m.by_type().is_empty(),
            m.by_connection().is_empty(),
    {
        let m = EnhancedMessageHandler {
            default_handler,
            typed_handlers: Vec::new(),
            connection_handlers: Vec::new(),
        };
        assert(m.by_type() =~= Map::empty());
        assert(m.by_connection() =~= Map::empty());
        m
    }

    /// Handles messages of type `message_type` with `handler` from now on.
    pub fn register_typed_handler(&mut self, message_type: String, handler: H)
        requires
            old(self).wf(),
        ensures
            final(self).wf(),
            final(self).by_type() == old(self).by_type().insert(message_type@, handler),
            final(self).by_connection() == old(self).by_connection(),
            final(self).default_of() == old(self).default_of(),
    {
        put_row(&mut self.typed_handlers, message_type, handler);
    }

    /// Handles the messages of `connection_id` with `handler` from now on.
    pub fn register_connection_handler(&mut self, connection_id: String, handler: H)
        requires
            old(self).wf(),
        ensures
            final(self).wf(),
            final(self).by_connection() == old(self).by_connection().insert(connection_id@, handler),
            final(self).by_type() == old(self).by_type(),
            final(self).default_of() == old(self).default_of(),
    {
        put_row(&mut self.connection_handlers, connection_id, handler);
    }

    /// Forgets the handler of `message_type`; tells whether there was one.
    pub fn unregister_typed_handler(&mut self, message_type: &str) -> (removed: bool)
        requires
            old(self).wf(),
        ensures
            final(self).wf(),
            removed == old(self).by_type().contains_key(message_type@),
            final(self).by_type() == old(self).by_type().remove(message_type@),
            final(self).by_connection() == old(self).by_connection(),
            final(self).default_of() == old(self).default_of(),
    {
        drop_row(&mut self.typed_handlers, message_type)
    }

    /// Forgets the handler of `connection_id`; tells whether there was one.
    pub fn unregister_connection_handler(&mut self, connection_id: &str) -> (removed: bool)
        requires
            old(self).wf(),
        ensures
            final(self).wf(),
            removed == old(self).by_connection().contains_key(connection_id@),
            final(self).by_connection() == old(self).by_connection().remove(connection_id@),
            final(self).by_type() == old(self).by_type(),
            final(self).default_of() == old(self).default_of(),
    {
        drop_row(&mut self.connection_handlers, connection_id)
    }

    /// The kind of this handler: a custom one named
    /// `EnhancedMessageHandler`.
    pub fn get_handler_type(&self) -> (t: HandlerType)
        ensures
            t matches HandlerType::Custom(name) && name@ == "EnhancedMessageHandler"@,
    {
        HandlerType::Custom(String::from_str("EnhancedMessageHandler"))
    }

    /// The handler for a message of type `message_type` (the name of the
    /// type) on `connection_id` (see [`route`]).
    pub fn select_handler(&self, connection_id: &str, message_type: &str) -> (h: &H)
        requires
            self.wf(),
        ensures
            *h == route(self.by_connection(), self.by_type(), self.default_of(), connection_id@, message_type@),
    {
        let ghost cks = row_keys(self.connection_handlers@);
        let ghost cvs = row_vals(self.connection_handlers@);
        let ghost tks = row_keys(self.typed_handlers@);
        let ghost tvs = row_vals(self.typed_handlers@);
        match find_row(&self.connection_handlers, connection_id) {
            Some(i) => {
                proof {
                    lemma_kv_at(cks, cvs, i as int);
                }
                &self.connection_handlers[i].1
            },
            None => {
                proof {
                    lemma_kv_absent(cks, cvs, connection_id@);
                }
                match find_row(&self.typed_handlers, message_type) {
                    Some(j) => {
                        proof {
                            lemma_kv_at(tks, tvs, j as int);
                        }
                        &self.typed_handlers[j].1
                    },
                    None => {
                        proof {
                            lemma_kv_absent(tks, tvs, message_type@);
                        }
                        &self.default_handler
                    },
                }
            },
        }
    }
}

/// A connection's own handler takes every message of that connection,
/// whatever its type; forgetting it hands the connection back to the
/// type handlers and the default.
pub proof fn lemma_connection_handler_wins<H>(
    by_connection: Map<Seq<char>, H>,
    by_type: Map<Seq<char>, H>,
    default: H,
    c: Seq<char>,
    t: Seq<char>,
    h: H,
)
    ensures
        route(by_connection.insert(c, h), by_type, default, c, t) == h,
        route(by_connection.remove(c), by_type, default, c, t) == route(Map::empty(), by_type, default, c, t),
{
}

/// A type's handler takes the messages of that type on every connection
/// without a handler of its own; other connections' routes are unchanged
/// by registering a connection handler.
pub proof fn lemma_type_handler_applies<H>(
    by_connection: Map<Seq<char>, H>,
    by_type: Map<Seq<char>, H>,
    default: H,
    c: Seq<char>,
    d: Seq<char>,
    t: Seq<char>,
    h: H,
)
    ensures
        !by_connection.contains_key(c) ==> route(by_connection, by_type.insert(t, h), default, c, t) == h,
        d != c ==> route(by_connection.insert(d, h), by_type, default, c, t) == route(
            by_connection,
            by_type,
            default,
            c,
            t,
        ),
{
}

} // verus!
