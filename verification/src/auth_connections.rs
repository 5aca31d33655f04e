//! Connections that must authenticate, held in a concurrent map: each
//! connection (named by the caller's handle number) waits for credentials
//! until an authentication provider accepts a token for it, or its
//! deadline passes.

use crate::auth::{auth_deadline_passed, AuthState, AuthenticatedConnection};
use crate::device::opt_view;
use crate::error::{ErrorCode, FlareError};
use crate::manager::ids_view;
use crate::session::AuthProvider;
use crate::utils::current_timestamp_ms;
use dashmap::DashMap;
use crate::keyed::lemma_take_next;
use vstd::prelude::*;

verus! {

#[verifier::external_type_specification]
#[verifier::external_body]
#[verifier::reject_recursive_types(K)]
#[verifier::reject_recursive_types(V)]
#[verifier::reject_recursive_types(S)]
pub struct ExDashMap<K, V, S>(DashMap<K, V, S>);

/// The concurrent map of connections by id.
pub type AuthTable = DashMap<String, AuthenticatedConnection<u64>>;

/// What the map holds about one connection.
pub struct AuthEntryView {
    pub connection: u64,
    pub auth_state: AuthState,
    pub user_id: Option<Seq<char>>,
    pub created_at: u64,
    pub auth_timeout_ms: u64,
}

/// The entry of a connection registered at `now`, waiting for credentials
/// within `timeout` ms.
pub open spec fn pending_entry(connection: u64, now: u64, timeout: u64) -> AuthEntryView {
    AuthEntryView { connection, auth_state: AuthState::Pending, user_id: None, created_at: now, auth_timeout_ms: timeout }
}

/// The view of an entry.
pub open spec fn entry_view(e: AuthenticatedConnection<u64>) -> AuthEntryView {
    AuthEntryView {
        connection: e.connection,
        auth_state: e.auth_state,
        user_id: opt_view(e.user_id),
        created_at: e.created_at,
        auth_timeout_ms: e.auth_timeout_ms,
    }
}

/// The entries a map holds, by connection id.
pub uninterp spec fn auth_table_contents(m: AuthTable) -> Map<Seq<char>, AuthEntryView>;

/// `DashMap::new`: an empty map.
#[verifier::external_body]
fn table_new() -> (m: AuthTable)
    ensures
        auth_table_contents(m).is_empty(),
{
    DashMap::new()
}

/// `DashMap::insert`: stores `value` under `key`, handing back the entry it
/// replaces.
#[verifier::external_body]
fn table_insert(
    m: &mut AuthTable,
    key: String,
    value: AuthenticatedConnection<u64>,
) -> (r: Option<AuthenticatedConnection<u64>>)
    ensures
        auth_table_contents(*final(m)) == auth_table_contents(*old(m)).insert(key@, entry_view(value)),
        match r {
            Some(v) => auth_table_contents(*old(m)).contains_key(key@) && entry_view(v) == auth_table_contents(
                *old(m),
            )[key@],
            None => !auth_table_contents(*old(m)).contains_key(key@),
        },
{
    m.insert(key, value)
}

/// `DashMap::remove`: takes the entry of `key` out, if any.
#[verifier::external_body]
fn table_remove(m: &mut AuthTable, key: &str) -> (r: Option<
    (String, AuthenticatedConnection<u64>),
>)
    ensures
        auth_table_contents(*final(m)) == auth_table_contents(*old(m)).remove(key@),
        match r {
            Some((k, v)) => k@ == key@ && auth_table_contents(*old(m)).contains_key(key@) && entry_view(v)
                == auth_table_contents(*old(m))[key@],
            None => !auth_table_contents(*old(m)).contains_key(key@),
        },
{
    m.remove(key)
}

/// `DashMap::get`: a copy of the entry of `key`, if any.
#[verifier::external_body]
fn table_get(m: &AuthTable, key: &str) -> (r: Option<AuthenticatedConnection<u64>>)
    ensures
        match r {
            Some(v) => auth_table_contents(*m).contains_key(key@) && entry_view(v) == auth_table_contents(*m)[key@],
            None => !auth_table_contents(*m).contains_key(key@),
        },
{
    m.get(key).map(|e| e.value().copy_entry())
}

/// `DashMap::len`: the number of entries.
#[verifier::external_body]
fn table_len(m: &AuthTable) -> (n: usize)
    ensures
        n == auth_table_contents(*m).len(),
{
    m.len()
}

/// `DashMap::iter` over the keys: every key once, in an order the map does
/// not promise.
#[verifier::external_body]
fn table_keys(m: &AuthTable) -> (r: Vec<String>)
    ensures
        ids_view(r@).no_duplicates(),
        ids_view(r@).to_set() == auth_table_contents(*m).dom(),
{
    m.iter().map(|e| e.key().clone()).collect()
}

/// `c` is the handle of an authenticated connection of `t`.
pub open spec fn authenticated_handle(t: Map<Seq<char>, AuthEntryView>, c: u64) -> bool {
    exists|k: Seq<char>| #[trigger] t.contains_key(k) && t[k].auth_state == AuthState::Authenticated && t[k].connection == c
}

/// An entry has waited for credentials past its deadline at `now`.
pub open spec fn unauthenticated_expired(e: AuthEntryView, now: u64) -> bool {
    e.auth_state != AuthState::Authenticated && auth_deadline_passed(e.created_at, e.auth_timeout_ms, now)
}

/// The entries that stay after the unauthenticated ones expired at `now`
/// are dropped.
pub open spec fn without_expired(t: Map<Seq<char>, AuthEntryView>, now: u64) -> Map<Seq<char>, AuthEntryView> {
    Map::new(|k: Seq<char>| t.contains_key(k) && !unauthenticated_expired(t[k], now), |k: Seq<char>| t[k])
}

/// Applying a token `verdict` to the connection `id`, from the table `t0`
/// to `t1`, with outcome `r`: a user named for a registered connection
/// authenticates it and is handed back; a user named for an unknown
/// connection gives [`ErrorCode::AuthenticationFailed`]; a refusal is handed
/// back as it is. Only the named user's connection changes.
pub open spec fn token_verdict_applied(
    t0: Map<Seq<char>, AuthEntryView>,
    t1: Map<Seq<char>, AuthEntryView>,
    id: Seq<char>,
    verdict: Result<String, FlareError>,
    r: Result<String, FlareError>,
) -> bool {
    match verdict {
        Ok(u) => if t0.contains_key(id) {
            &&& r is Ok
            &&& r->Ok_0@ == u@
            &&& t1 == t0.insert(
                id,
                AuthEntryView { auth_state: AuthState::Authenticated, user_id: Some(u@), ..t0[id] },
            )
        } else {
            &&& r is Err
            &&& r->Err_0.code == ErrorCode::AuthenticationFailed
            &&& t1 == t0
        },
        Err(e) => r == Err::<String, FlareError>(e) && t1 == t0,
    }
}

/// Connections by id with their authentication state, and the provider
/// (`P`) that checks tokens.
pub struct AuthenticatedConnectionManager<P> {
    connections: AuthTable,
    auth_provider: P,
    default_auth_timeout_ms: u64,
}

impl<P: AuthProvider> AuthenticatedConnectionManager<P> {
    /// The connections, by id.
    pub closed spec fn table(&self) -> Map<Seq<char>, AuthEntryView> {
        auth_table_contents(self.connections)
    }

    /// Time a new connection is given to authenticate.
    pub closed spec fn spec_default_auth_timeout_ms(&self) -> u64 {
        self.default_auth_timeout_ms
    }

    /// The provider.
    pub closed spec fn provider(&self) -> P {
        self.auth_provider
    }

    /// No connections.
    pub fn new(auth_provider: P, default_auth_timeout_ms: u64) -> (m: AuthenticatedConnectionManager<P>)
        ensures
            m.table() == Map::<Seq<char>, AuthEntryView>::empty(),
            m.spec_default_auth_timeout_ms() == default_auth_timeout_ms,
            m.provider() == auth_provider,
    {
        AuthenticatedConnectionManager { connections: table_new(), auth_provider, default_auth_timeout_ms }
    }

    /// The provider.
    pub fn auth_provider(&self) -> (p: &P)
        ensures
            *p == self.provider(),
    {
        &self.auth_provider
    }

    /// Registers the connection `id` (handle `connection`) at `now`, waiting
    /// for credentials; an existing entry under `id` is replaced. Returns
    /// whether `id` was new.
    pub fn add_connection_at(&mut self, id: String, connection: u64, now: u64) -> (is_new: bool)
        ensures
            is_new == !old(self).table().contains_key(id@),
            final(self).table() == old(self).table().insert(
                id@,
                AuthEntryView {
                    connection,
                    auth_state: AuthState::Pending,
                    user_id: None,
                    created_at: now,
                    auth_timeout_ms: old(self).spec_default_auth_timeout_ms(),
                },
            ),
            final(self).spec_default_auth_timeout_ms() == old(self).spec_default_auth_timeout_ms(),
            final(self).provider() == old(self).provider(),
    {
        let entry = AuthenticatedConnection::new_at(connection, self.default_auth_timeout_ms, now);
        let previous = table_insert(&mut self.connections, id, entry);
        previous.is_none()
    }

    /// Registers the connection `id` now; see
    /// [`AuthenticatedConnectionManager::add_connection_at`].
    pub fn add_connection(&mut self, id: String, connection: u64) -> (is_new: bool)
        ensures
            is_new == !old(self).table().contains_key(id@),
            final(self).table().dom() == old(self).table().dom().insert(id@),
            final(self).table()[id@].connection == connection,
            final(self).table()[id@].auth_state == AuthState::Pending,
            exists|now: u64|
                final(self).table() == old(self).table().insert(
                    id@,
                    #[trigger] pending_entry(connection, now, old(self).spec_default_auth_timeout_ms()),
                ),
            final(self).spec_default_auth_timeout_ms() == old(self).spec_default_auth_timeout_ms(),
            final(self).provider() == old(self).provider(),
    {
        let now = current_timestamp_ms();
        let ghost key = id@;
        let r = self.add_connection_at(id, connection, now);
        assert(self.table().dom() =~= old(self).table().dom().insert(id@));
        assert(self.table() == old(self).table().insert(
            key,
            pending_entry(connection, now, old(self).spec_default_auth_timeout_ms()),
        ));
        r
    }

    /// Unregisters `id`, handing back its connection handle.
    pub fn remove_connection(&mut self, id: &str) -> (r: Option<u64>)
        ensures
            final(self).table() == old(self).table().remove(id@),
            match r {
                Some(c) => old(self).table().contains_key(id@) && c == old(self).table()[id@].connection,
                None => !old(self).table().contains_key(id@),
            },
            final(self).spec_default_auth_timeout_ms() == old(self).spec_default_auth_timeout_ms(),
            final(self).provider() == old(self).provider(),
    {
        match table_remove(&mut self.connections, id) {
            Some((_, e)) => Some(e.connection),
            None => None,
        }
    }

    /// The connection handle of `id`.
    pub fn get_connection(&self, id: &str) -> (r: Option<u64>)
        ensures
            match r {
                Some(c) => self.table().contains_key(id@) && c == self.table()[id@].connection,
                None => !self.table().contains_key(id@),
            },
    {
        match table_get(&self.connections, id) {
            Some(e) => Some(e.connection),
            None => None,
        }
    }

    /// Whether `id` is registered and authenticated.
    pub fn is_connection_authenticated(&self, id: &str) -> (r: bool)
        ensures
            r == (self.table().contains_key(id@) && self.table()[id@].auth_state == AuthState::Authenticated),
    {
        match table_get(&self.connections, id) {
            Some(e) => e.auth_state == AuthState::Authenticated,
            None => false,
        }
    }

    /// The user of `id`, once authenticated.
    pub fn get_connection_user_id(&self, id: &str) -> (r: Option<String>)
        ensures
            opt_view(r) == if self.table().contains_key(id@) {
                self.table()[id@].user_id
            } else {
                None
            },
    {
        match table_get(&self.connections, id) {
            Some(e) => e.user_id,
            None => None,
        }
    }

    /// Authenticates `id` with `token`: the provider is asked about the
    /// token, and its verdict is applied by
    /// [`AuthenticatedConnectionManager::apply_token_verdict`]: the
    /// connection is marked authenticated for the user it names. Fails with
    /// the provider's error, or with [`ErrorCode::AuthenticationFailed`]
    /// when `id` is not registered; on failure no entry changes.
    pub fn authenticate_connection(&mut self, id: &str, token: &str) -> (r: Result<String, FlareError>)
        ensures
            exists|verdict: Result<String, FlareError>|
                #[trigger] old(self).provider().validates(final(self).provider(), token@, verdict)
                    && token_verdict_applied(old(self).table(), final(self).table(), id@, verdict, r),
            final(self).spec_default_auth_timeout_ms() == old(self).spec_default_auth_timeout_ms(),
    {
        let verdict = self.auth_provider.validate_token(token);
        let ghost v = verdict;
        let r = self.apply_token_verdict(id, verdict);
        assert(old(self).provider().validates(self.provider(), token@, v));
        r
    }

    /// Applies the provider's `verdict` on the token presented for `id` (see
    /// [`token_verdict_applied`]). A user it names is recorded on a
    /// registered connection, which becomes authenticated, and is handed
    /// back; on an unknown connection the result is
    /// [`ErrorCode::AuthenticationFailed`]. A refusal is handed back as it
    /// is.
    pub fn apply_token_verdict(&mut self, id: &str, verdict: Result<String, FlareError>) -> (r: Result<
        String,
        FlareError,
    >)
        ensures
            token_verdict_applied(old(self).table(), final(self).table(), id@, verdict, r),
            final(self).spec_default_auth_timeout_ms() == old(self).spec_default_auth_timeout_ms(),
            final(self).provider() == old(self).provider(),
    {
        let user_id = match verdict {
            Ok(u) => u,
            Err(e) => return Err(e),
        };
        match table_get(&self.connections, id) {
            Some(mut e) => {
                e.set_user_id(user_id.clone());
                let _ = table_insert(&mut self.connections, id.to_owned(), e);
                Ok(user_id)
            },
            None => Err(FlareError::authentication_failed(String::from_str("连接不存在"))),
        }
    }

    /// Removes the connections still unauthenticated past their deadline
    /// at `now`, handing back their handles for closing.
    pub fn cleanup_unauthenticated_connections_at(&mut self, now: u64) -> (closed: Vec<u64>)
        ensures
            final(self).table() == without_expired(old(self).table(), now),
            closed@.len() == old(self).table().len() - final(self).table().len(),
            final(self).spec_default_auth_timeout_ms() == old(self).spec_default_auth_timeout_ms(),
            final(self).provider() == old(self).provider(),
    {
        let ghost t0 = self.table();
        let keys = table_keys(&self.connections);
        let ghost ks = ids_view(keys@);
        let mut closed: Vec<u64> = Vec::new();
        let mut i: usize = 0;
        proof {
            assert(t0.dom() == ks.to_set());
            ks.unique_seq_to_set();
            assert(Map::new(
                |k: Seq<char>| t0.contains_key(k) && !(ks.take(0).contains(k) && unauthenticated_expired(t0[k], now)),
                |k: Seq<char>| t0[k],
            ) =~= t0);
        }
        while i < keys.len()
            invariant
                i <= keys@.len(),
                ks == ids_view(keys@),
                ks.no_duplicates(),
                t0.dom() == ks.to_set(),
                t0.len() == ks.len(),
                self.spec_default_auth_timeout_ms() == old(self).spec_default_auth_timeout_ms(),
                self.provider() == old(self).provider(),
                self.table() == Map::new(
                    |k: Seq<char>| t0.contains_key(k) && !(ks.take(i as int).contains(k) && unauthenticated_expired(t0[k], now)),
                    |k: Seq<char>| t0[k],
                ),
                self.table().dom().finite(),
                closed@.len() + self.table().len() == t0.len(),
            decreases keys@.len() - i,
        {
            let ghost k = ks[i as int];
            let ghost pre = ks.take(i as int);
            let ghost nt = ks.take(i + 1);
            let ghost before = self.table();
            proof {
                lemma_take_next(ks, i as int);
                assert(ks.to_set().contains(k));
            }
            match table_get(&self.connections, keys[i].as_str()) {
                Some(e) => {
                    if e.auth_state != AuthState::Authenticated && e.is_auth_timeout_at(now) {
                        let removed = table_remove(&mut self.connections, keys[i].as_str());
                        match removed {
                            Some((_, r)) => {
                                closed.push(r.connection);
                            },
                            None => {},
                        }
                        proof {
                            assert(before.contains_key(k));
                            assert(self.table() =~= Map::new(
                                |x: Seq<char>| t0.contains_key(x) && !(nt.contains(x) && unauthenticated_expired(t0[x], now)),
                                |x: Seq<char>| t0[x],
                            ));
                            assert(self.table().len() + 1 == before.len()) by {
                                assert(self.table().dom() =~= before.dom().remove(k));
                            }
                        }
                    } else {
                        proof {
                            assert(self.table() =~= Map::new(
                                |x: Seq<char>| t0.contains_key(x) && !(nt.contains(x) && unauthenticated_expired(t0[x], now)),
                                |x: Seq<char>| t0[x],
                            ));
                        }
                    }
                },
                None => {
                    proof {
                        assert(false);
                    }
                },
            }
            i += 1;
        }
        proof {
            assert(ks.take(keys@.len() as int) =~= ks);
            assert(self.table() =~= without_expired(t0, now)) by {
                assert forall|x: Seq<char>| #[trigger] t0.contains_key(x) implies ks.contains(x) by {
                    assert(ks.to_set().contains(x));
                }
            }
        }
        closed
    }

    /// Number of registered connections.
    pub fn connection_count(&self) -> (n: usize)
        ensures
            n == self.table().len(),
    {
        table_len(&self.connections)
    }

    /// The ids of all registered connections, each once, in no promised
    /// order.
    pub fn all_connection_ids(&self) -> (r: Vec<String>)
        ensures
            ids_view(r@).no_duplicates(),
            ids_view(r@).to_set() == self.table().dom(),
    {
        table_keys(&self.connections)
    }

    /// The handles of the authenticated connections, which a broadcast
    /// reaches: every authenticated connection's handle, and only those.
    pub fn broadcast_targets(&self) -> (r: Vec<u64>)
        ensures
            forall|i: int| 0 <= i < r@.len() ==> #[trigger] authenticated_handle(self.table(), r@[i]),
            forall|k: Seq<char>|
                #[trigger] self.table().contains_key(k) && self.table()[k].auth_state == AuthState::Authenticated
                    ==> r@.contains(self.table()[k].connection),
    {
        let keys = table_keys(&self.connections);
        let ghost ks = ids_view(keys@);
        let mut r: Vec<u64> = Vec::new();
        let mut i: usize = 0;
        while i < keys.len()
            invariant
                i <= keys@.len(),
                ks == ids_view(keys@),
                ks.to_set() == self.table().dom(),
                forall|j: int| 0 <= j < r@.len() ==> #[trigger] authenticated_handle(self.table(), r@[j]),
                forall|j: int|
                    0 <= j < i && #[trigger] self.table().contains_key(ks[j]) && self.table()[ks[j]].auth_state
                        == AuthState::Authenticated ==> r@.contains(self.table()[ks[j]].connection),
            decreases keys@.len() - i,
        {
            let ghost k = ks[i as int];
            let ghost r0 = r@;
            match table_get(&self.connections, keys[i].as_str()) {
                Some(e) => {
                    if e.auth_state == AuthState::Authenticated {
                        r.push(e.connection);
                        proof {
                            assert(self.table().contains_key(k));
                            assert(authenticated_handle(self.table(), e.connection));
                            assert(r@[r0.len() as int] == e.connection);
                            assert forall|j: int|
                                0 <= j <= i && #[trigger] self.table().contains_key(ks[j]) && self.table()[ks[j]].auth_state
                                    == AuthState::Authenticated implies r@.contains(self.table()[ks[j]].connection) by {
                                if j < i {
                                    let q = choose|q: int| 0 <= q < r0.len() && r0[q] == self.table()[ks[j]].connection;
                                    assert(r@[q] == r0[q]);
                                }
                            }
                        }
                    } else {
                        proof {
                            assert forall|j: int|
                                0 <= j <= i && #[trigger] self.table().contains_key(ks[j]) && self.table()[ks[j]].auth_state
                                    == AuthState::Authenticated implies r@.contains(self.table()[ks[j]].connection) by {
                            }
                        }
                    }
                },
                None => {},
            }
            i += 1;
        }
        proof {
            assert forall|k: Seq<char>|
                #[trigger] self.table().contains_key(k) && self.table()[k].auth_state == AuthState::Authenticated
                    implies r@.contains(self.table()[k].connection) by {
                assert(ks.to_set().contains(k));
                let j = choose|j: int| 0 <= j < ks.len() && ks[j] == k;
                assert(self.table().contains_key(ks[j]));
            }
        }
        r
    }
}

} // verus!
