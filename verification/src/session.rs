//! Login sessions: tokens issued to users, their expiry, and the index from
//! each user to the tokens issued to it.

use crate::error::{ErrorCode, FlareError};
use crate::keyed::{kv_map, kv_wf, lemma_kv_absent, lemma_kv_at, lemma_kv_len, lemma_kv_push, lemma_kv_remove, lemma_kv_update};
use crate::manager::{copy_ids, ids_view, lemma_ids_push};
use crate::strings::str_eq;
use crate::utils::{current_timestamp_ms, decimal, push_decimal};
use vstd::prelude::*;

verus! {

/// A session issued to a user (times in milliseconds).
#[derive(Debug, Clone)]
pub struct UserSession {
    pub user_id: String,
    pub token: String,
    /// When the session was created.
    pub created_at: u64,
    /// When the session was last used.
    pub last_activity: u64,
    /// Lifetime of the session, counted from its creation.
    pub expires_in: u64,
}

/// The abstract value of a [`UserSession`].
pub struct SessionView {
    pub user_id: Seq<char>,
    pub token: Seq<char>,
    pub created_at: u64,
    pub last_activity: u64,
    pub expires_in: u64,
}

impl View for UserSession {
    type V = SessionView;

    open spec fn view(&self) -> SessionView {
        SessionView {
            user_id: self.user_id@,
            token: self.token@,
            created_at: self.created_at,
            last_activity: self.last_activity,
            expires_in: self.expires_in,
        }
    }
}

/// A session is expired once `now` is past its creation plus its lifetime.
pub open spec fn session_expired(s: SessionView, now: u64) -> bool {
    now > s.created_at + s.expires_in
}

/// Time left before a session expires at `now` (0 once it has).
pub open spec fn session_remaining(s: SessionView, now: u64) -> int {
    if now >= s.created_at + s.expires_in {
        0
    } else {
        s.created_at + s.expires_in - now
    }
}

/// A session created at `now`.
pub open spec fn fresh_session(user_id: Seq<char>, token: Seq<char>, expires_in: u64, now: u64) -> SessionView {
    SessionView { user_id, token, created_at: now, last_activity: now, expires_in }
}

impl UserSession {
    /// A session created now.
    pub fn new(user_id: String, token: String, expires_in: u64) -> (s: UserSession)
        ensures
            s@.user_id == user_id@,
            s@.token == token@,
            s@.expires_in == expires_in,
            s@.last_activity == s@.created_at,
    {
        let now = current_timestamp_ms();
        UserSession::new_at(user_id, token, expires_in, now)
    }

    /// A session created at `now`.
    pub fn new_at(user_id: String, token: String, expires_in: u64, now: u64) -> (s: UserSession)
        ensures
            s@ == fresh_session(user_id@, token@, expires_in, now),
    {
        UserSession { user_id, token, created_at: now, last_activity: now, expires_in }
    }

    /// Records activity now.
    pub fn update_activity(&mut self)
        ensures
            final(self)@ == (SessionView { last_activity: final(self)@.last_activity, ..old(self)@ }),
    {
        let now = current_timestamp_ms();
        self.update_activity_at(now);
    }

    /// Records activity at `now`.
    pub fn update_activity_at(&mut self, now: u64)
        ensures
            final(self)@ == (SessionView { last_activity: now, ..old(self)@ }),
    {
        self.last_activity = now;
    }

    /// Whether the session has expired by now. The answer depends on the
    /// clock; see [`UserSession::is_expired_at`] for the rule.
    pub fn is_expired(&self) -> (r: bool)
        ensures
            exists|now: u64| r == #[trigger] session_expired(self@, now),
    {
        let now = current_timestamp_ms();
        self.is_expired_at(now)
    }

    /// Whether the session has expired at `now`.
    pub fn is_expired_at(&self, now: u64) -> (r: bool)
        ensures
            r == session_expired(self@, now),
    {
        now > self.created_at && now - self.created_at > self.expires_in
    }

    /// Time left before expiry, now: [`session_remaining`] at the time the
    /// clock reads.
    pub fn remaining_time(&self) -> (r: u64)
        requires
            self.created_at + self.expires_in <= u64::MAX,
        ensures
            r <= self.created_at + self.expires_in,
            exists|now: u64| r == #[trigger] session_remaining(self@, now),
    {
        let now = current_timestamp_ms();
        self.remaining_time_at(now)
    }

    /// Time left before expiry at `now`.
    pub fn remaining_time_at(&self, now: u64) -> (r: u64)
        requires
            self.created_at + self.expires_in <= u64::MAX,
        ensures
            r == session_remaining(self@, now),
    {
        let expire_time = self.created_at + self.expires_in;
        if now >= expire_time {
            0
        } else {
            expire_time - now
        }
    }

    /// A copy of the session.
    pub fn copy_session(&self) -> (r: UserSession)
        ensures
            r@ == self@,
    {
        UserSession {
            user_id: self.user_id.clone(),
            token: self.token.clone(),
            created_at: self.created_at,
            last_activity: self.last_activity,
            expires_in: self.expires_in,
        }
    }
}

/// Sessions by token.
pub type SessionTable = Map<Seq<char>, SessionView>;

/// Tokens by user, in issue order.
pub type TokenIndex = Map<Seq<char>, Seq<Seq<char>>>;

/// `l` without any occurrence of `t`.
pub open spec fn tokens_without(l: Seq<Seq<char>>, t: Seq<char>) -> Seq<Seq<char>>
    decreases l.len(),
{
    if l.len() == 0 {
        l
    } else {
        let r = tokens_without(l.drop_last(), t);
        if l.last() == t {
            r
        } else {
            r.push(l.last())
        }
    }
}

/// Records that `t` was issued to `u` (appended, even if already listed).
pub open spec fn tokens_push(ix: TokenIndex, u: Seq<char>, t: Seq<char>) -> TokenIndex {
    if ix.contains_key(u) {
        ix.insert(u, ix[u].push(t))
    } else {
        ix.insert(u, seq![t])
    }
}

/// Forgets `t` in the list of `u`; a user left without tokens is dropped.
pub open spec fn tokens_forget(ix: TokenIndex, u: Seq<char>, t: Seq<char>) -> TokenIndex {
    if ix.contains_key(u) {
        let l = tokens_without(ix[u], t);
        if l.len() == 0 {
            ix.remove(u)
        } else {
            ix.insert(u, l)
        }
    } else {
        ix
    }
}

/// The index after the session of `t` (if any) is removed.
pub open spec fn index_after_remove(sessions: SessionTable, ix: TokenIndex, t: Seq<char>) -> TokenIndex {
    if sessions.contains_key(t) {
        tokens_forget(ix, sessions[t].user_id, t)
    } else {
        ix
    }
}

/// Sessions and token index after creating a session.
pub open spec fn sessions_after_create(
    sessions: SessionTable,
    user_id: Seq<char>,
    token: Seq<char>,
    expires_in: u64,
    now: u64,
) -> SessionTable {
    sessions.insert(token, fresh_session(user_id, token, expires_in, now))
}

/// Whether the expiry sweep at `now` drops token `t` from the list of `u`:
/// `t` names a session of `u` that has expired.
pub open spec fn swept(sessions: SessionTable, u: Seq<char>, t: Seq<char>, now: u64) -> bool {
    sessions.contains_key(t) && sessions[t].user_id == u && session_expired(sessions[t], now)
}

/// `l` without the tokens that the sweep drops for `u`.
pub open spec fn tokens_kept(l: Seq<Seq<char>>, sessions: SessionTable, u: Seq<char>, now: u64) -> Seq<Seq<char>>
    decreases l.len(),
{
    if l.len() == 0 {
        l
    } else {
        let r = tokens_kept(l.drop_last(), sessions, u, now);
        if swept(sessions, u, l.last(), now) {
            r
        } else {
            r.push(l.last())
        }
    }
}

/// The sessions that are still valid at `now`.
pub open spec fn live_sessions(sessions: SessionTable, now: u64) -> SessionTable {
    Map::new(
        |t: Seq<char>| sessions.contains_key(t) && !session_expired(sessions[t], now),
        |t: Seq<char>| sessions[t],
    )
}

/// The token index after the expiry sweep at `now`.
pub open spec fn index_after_sweep(sessions: SessionTable, ix: TokenIndex, now: u64) -> TokenIndex {
    Map::new(
        |u: Seq<char>| ix.contains_key(u) && tokens_kept(ix[u], sessions, u, now).len() > 0,
        |u: Seq<char>| tokens_kept(ix[u], sessions, u, now),
    )
}

/// The tokens issued to one user.
struct UserTokens {
    user_id: String,
    tokens: Vec<String>,
}

/// Sessions by token, with the index from users to their tokens.
pub struct SessionManager {
    sessions: Vec<UserSession>,
    user_sessions: Vec<UserTokens>,
    default_expires_in: u64,
}

/// The default session lifetime of [`DefaultAuthProvider`]: one day.
pub const DEFAULT_SESSION_EXPIRES_MS: u64 = 86_400_000;

spec fn ss_keys(v: Seq<UserSession>) -> Seq<Seq<char>> {
    v.map_values(|s: UserSession| s.token@)
}

spec fn ss_views(v: Seq<UserSession>) -> Seq<SessionView> {
    v.map_values(|s: UserSession| s@)
}

spec fn ut_keys(v: Seq<UserTokens>) -> Seq<Seq<char>> {
    v.map_values(|u: UserTokens| u.user_id@)
}

spec fn ut_lists(v: Seq<UserTokens>) -> Seq<Seq<Seq<char>>> {
    v.map_values(|u: UserTokens| ids_view(u.tokens@))
}

/// The part of the sweep's index that covers the users in `prefix`.
spec fn partial_sweep(sessions: SessionTable, ix: TokenIndex, prefix: Seq<Seq<char>>, now: u64) -> TokenIndex {
    Map::new(
        |u: Seq<char>| prefix.contains(u) && ix.contains_key(u) && tokens_kept(ix[u], sessions, u, now).len() > 0,
        |u: Seq<char>| tokens_kept(ix[u], sessions, u, now),
    )
}

/// The live sessions among the tokens in `prefix`.
spec fn partial_live(sessions: SessionTable, prefix: Seq<Seq<char>>, now: u64) -> SessionTable {
    Map::new(
        |t: Seq<char>| prefix.contains(t) && sessions.contains_key(t) && !session_expired(sessions[t], now),
        |t: Seq<char>| sessions[t],
    )
}

/// `l` without `t`, computed.
fn strip_token(l: &Vec<String>, t: &str) -> (r: Vec<String>)
    ensures
        ids_view(r@) == tokens_without(ids_view(l@), t@),
{
    let mut out: Vec<String> = Vec::new();
    let mut p: usize = 0;
    while p < l.len()
        invariant
            p <= l@.len(),
            ids_view(out@) == tokens_without(ids_view(l@).take(p as int), t@),
        decreases l@.len() - p,
    {
        let ghost s = ids_view(l@);
        assert(s.take(p + 1).drop_last() =~= s.take(p as int));
        assert(s.take(p + 1).last() == s[p as int]);
        if !str_eq(l[p].as_str(), t) {
            proof {
                lemma_ids_push(out@, l@[p as int]);
            }
            out.push(l[p].clone());
        }
        p += 1;
    }
    assert(ids_view(l@).take(l@.len() as int) =~= ids_view(l@));
    out
}

impl SessionManager {
    closed spec fn token_keys(&self) -> Seq<Seq<char>> {
        ss_keys(self.sessions@)
    }

    closed spec fn session_views(&self) -> Seq<SessionView> {
        ss_views(self.sessions@)
    }

    closed spec fn user_keys(&self) -> Seq<Seq<char>> {
        ut_keys(self.user_sessions@)
    }

    closed spec fn token_lists(&self) -> Seq<Seq<Seq<char>>> {
        ut_lists(self.user_sessions@)
    }

    /// The sessions, by token.
    pub closed spec fn sessions(&self) -> SessionTable {
        kv_map(self.token_keys(), self.session_views())
    }

    /// The tokens issued to each user, in issue order.
    pub closed spec fn user_tokens(&self) -> TokenIndex {
        kv_map(self.user_keys(), self.token_lists())
    }

    /// Lifetime given to sessions created without one.
    pub closed spec fn spec_default_expires_in(&self) -> u64 {
        self.default_expires_in
    }

    /// Tokens are distinct, and so are users.
    pub closed spec fn wf(&self) -> bool {
        &&& kv_wf(self.token_keys(), self.session_views())
        &&& kv_wf(self.user_keys(), self.token_lists())
    }

    /// Each session is stored under its own token.
    pub proof fn lemma_tokens(&self)
        requires
            self.wf(),
        ensures
            forall|t: Seq<char>| #[trigger] self.sessions().contains_key(t) ==> self.sessions()[t].token == t,
    {
        assert forall|t: Seq<char>| #[trigger] self.sessions().contains_key(t) implies self.sessions()[t].token == t by {
            let i = choose|i: int| 0 <= i < self.token_keys().len() && self.token_keys()[i] == t;
            lemma_kv_at(self.token_keys(), self.session_views(), i);
        }
    }

    /// An empty manager whose sessions last `default_expires_in` unless
    /// told otherwise.
    pub fn new(default_expires_in: u64) -> (m: SessionManager)
        ensures
            m.wf(),
            m.sessions().is_empty(),
            m.user_tokens().is_empty(),
            m.spec_default_expires_in() == default_expires_in,
    {
        let m = SessionManager { sessions: Vec::new(), user_sessions: Vec::new(), default_expires_in };
        assert(m.sessions() =~= Map::empty());
        assert(m.user_tokens() =~= Map::empty());
        m
    }

    /// Lifetime given to sessions created without one.
    pub fn default_expires_in(&self) -> (r: u64)
        ensures
            r == self.spec_default_expires_in(),
    {
        self.default_expires_in
    }

    fn find_session(&self, token: &str) -> (r: Option<usize>)
        ensures
            match r {
                Some(i) => i < self.sessions@.len() && self.token_keys()[i as int] == token@,
                None => !self.token_keys().contains(token@),
            },
    {
        let mut i: usize = 0;
        while i < self.sessions.len()
            invariant
                i <= self.sessions@.len(),
                forall|j: int| 0 <= j < i ==> self.token_keys()[j] != token@,
            decreases self.sessions@.len() - i,
        {
            if str_eq(self.sessions[i].token.as_str(), token) {
                return Some(i);
            }
            i += 1;
        }
        None
    }

    fn find_user(&self, user_id: &str) -> (r: Option<usize>)
        ensures
            match r {
                Some(j) => j < self.user_sessions@.len() && self.user_keys()[j as int] == user_id@,
                None => !self.user_keys().contains(user_id@),
            },
    {
        let mut j: usize = 0;
        while j < self.user_sessions.len()
            invariant
                j <= self.user_sessions@.len(),
                forall|k: int| 0 <= k < j ==> self.user_keys()[k] != user_id@,
            decreases self.user_sessions@.len() - j,
        {
            if str_eq(self.user_sessions[j].user_id.as_str(), user_id) {
                return Some(j);
            }
            j += 1;
        }
        None
    }

    /// Stores `session` under its token, replacing any session there.
    fn store_session(&mut self, session: UserSession)
        requires
            old(self).wf(),
        ensures
            final(self).wf(),
            final(self).sessions() == old(self).sessions().insert(session@.token, session@),
            final(self).user_tokens() == old(self).user_tokens(),
            final(self).default_expires_in == old(self).default_expires_in,
    {
        let ghost ks = self.token_keys();
        let ghost vs = self.session_views();
        let ghost sv = session@;
        match self.find_session(session.token.as_str()) {
            Some(i) => {
                self.sessions.set(i, session);
                proof {
                    assert(self.token_keys() =~= ks);
                    assert(self.session_views() =~= vs.update(i as int, sv));
                    lemma_kv_update(ks, vs, i as int, sv);
                }
            },
            None => {
                self.sessions.push(session);
                proof {
                    assert(self.token_keys() =~= ks.push(sv.token));
                    assert(self.session_views() =~= vs.push(sv));
                    lemma_kv_push(ks, vs, sv.token, sv);
                }
            },
        }
    }

    /// Appends `token` to the list of `user_id`.
    fn index_token(&mut self, user_id: String, token: String)
        requires
            old(self).wf(),
        ensures
            final(self).wf(),
            final(self).user_tokens() == tokens_push(old(self).user_tokens(), user_id@, token@),
            final(self).sessions == old(self).sessions,
            final(self).default_expires_in == old(self).default_expires_in,
    {
        let ghost ks = self.user_keys();
        let ghost vs = self.token_lists();
        match self.find_user(user_id.as_str()) {
            Some(j) => {
                proof {
                    lemma_kv_at(ks, vs, j as int);
                }
                let mut ut = self.user_sessions.remove(j);
                let ghost l = ids_view(ut.tokens@);
                let ghost tv = token@;
                proof {
                    lemma_ids_push(ut.tokens@, token);
                }
                ut.tokens.push(token);
                self.user_sessions.insert(j, ut);
                proof {
                    assert(self.user_keys() =~= ks);
                    assert(self.token_lists() =~= vs.update(j as int, l.push(tv)));
                    lemma_kv_update(ks, vs, j as int, l.push(tv));
                }
            },
            None => {
                proof {
                    lemma_kv_absent(ks, vs, user_id@);
                }
                let ghost uv = user_id@;
                let ghost tv = token@;
                let mut tokens: Vec<String> = Vec::new();
                tokens.push(token);
                assert(ids_view(tokens@) =~= seq![tv]);
                self.user_sessions.push(UserTokens { user_id, tokens });
                proof {
                    assert(self.user_keys() =~= ks.push(uv));
                    assert(self.token_lists() =~= vs.push(seq![tv]));
                    lemma_kv_push(ks, vs, uv, seq![tv]);
                }
            },
        }
    }

    /// Creates a session now; see [`SessionManager::create_session_at`].
    pub fn create_session(&mut self, user_id: String, token: String, expires_in: Option<u64>) -> (r: Result<UserSession, FlareError>)
        requires
            old(self).wf(),
        ensures
            final(self).wf(),
            r is Ok,
            r->Ok_0@.user_id == user_id@,
            r->Ok_0@.token == token@,
            r->Ok_0@.expires_in == match expires_in {
                Some(e) => e,
                None => old(self).spec_default_expires_in(),
            },
            final(self).sessions() == old(self).sessions().insert(token@, r->Ok_0@),
            final(self).user_tokens() == tokens_push(old(self).user_tokens(), user_id@, token@),
            final(self).spec_default_expires_in() == old(self).spec_default_expires_in(),
            r->Ok_0@.last_activity == r->Ok_0@.created_at,
    {
        let now = current_timestamp_ms();
        self.create_session_at(user_id, token, expires_in, now)
    }

    /// Creates a session for `user_id` under `token` at `now`, lasting
    /// `expires_in` (or the default). A session already stored under the
    /// token is replaced; the token is appended to the user's list.
    pub fn create_session_at(&mut self, user_id: String, token: String, expires_in: Option<u64>, now: u64) -> (r: Result<UserSession, FlareError>)
        requires
            old(self).wf(),
        ensures
            final(self).wf(),
            r is Ok,
            r->Ok_0@ == fresh_session(
                user_id@,
                token@,
                match expires_in {
                    Some(e) => e,
                    None => old(self).spec_default_expires_in(),
                },
                now,
            ),
            final(self).sessions() == old(self).sessions().insert(token@, r->Ok_0@),
            final(self).user_tokens() == tokens_push(old(self).user_tokens(), user_id@, token@),
            final(self).spec_default_expires_in() == old(self).spec_default_expires_in(),
    {
        let expires = match expires_in {
            Some(e) => e,
            None => self.default_expires_in,
        };
        let session = UserSession::new_at(user_id.clone(), token.clone(), expires, now);
        let stored = session.copy_session();
        self.store_session(stored);
        self.index_token(user_id, token);
        Ok(session)
    }
}


impl SessionManager {
    /// Removes the session of `token`, if any, and forgets the token in the
    /// list of the session's user (dropping a user left without tokens).
    pub fn remove_session(&mut self, token: &str)
        requires
            old(self).wf(),
        ensures
            final(self).wf(),
            final(self).sessions() == old(self).sessions().remove(token@),
            final(self).user_tokens() == index_after_remove(old(self).sessions(), old(self).user_tokens(), token@),
            final(self).spec_default_expires_in() == old(self).spec_default_expires_in(),
    {
        let ghost ks = self.token_keys();
        let ghost vs = self.session_views();
        match self.find_session(token) {
            None => {
                proof {
                    lemma_kv_absent(ks, vs, token@);
                    assert(self.sessions().remove(token@) =~= self.sessions());
                }
            },
            Some(i) => {
                proof {
                    lemma_kv_at(ks, vs, i as int);
                }
                let s = self.sessions.remove(i);
                proof {
                    assert(self.token_keys() =~= ks.remove(i as int));
                    assert(self.session_views() =~= vs.remove(i as int));
                    lemma_kv_remove(ks, vs, i as int);
                }
                let ghost uks = self.user_keys();
                let ghost uvs = self.token_lists();
                match self.find_user(s.user_id.as_str()) {
                    None => {
                        proof {
                            lemma_kv_absent(uks, uvs, s.user_id@);
                        }
                    },
                    Some(j) => {
                        proof {
                            lemma_kv_at(uks, uvs, j as int);
                        }
                        let mut ut = self.user_sessions.remove(j);
                        let kept = strip_token(&ut.tokens, token);
                        if kept.len() == 0 {
                            proof {
                                assert(self.user_keys() =~= uks.remove(j as int));
                                assert(self.token_lists() =~= uvs.remove(j as int));
                                lemma_kv_remove(uks, uvs, j as int);
                            }
                        } else {
                            let ghost nl = ids_view(kept@);
                            ut.tokens = kept;
                            self.user_sessions.insert(j, ut);
                            proof {
                                assert(self.user_keys() =~= uks);
                                assert(self.token_lists() =~= uvs.update(j as int, nl));
                                lemma_kv_update(uks, uvs, j as int, nl);
                            }
                        }
                    },
                }
            },
        }
    }

    /// Records activity on the session of `token` at `now`, if there is one.
    pub fn update_session_activity_at(&mut self, token: &str, now: u64)
        requires
            old(self).wf(),
        ensures
            final(self).wf(),
            final(self).sessions() == if old(self).sessions().contains_key(token@) {
                old(self).sessions().insert(
                    token@,
                    SessionView { last_activity: now, ..old(self).sessions()[token@] },
                )
            } else {
                old(self).sessions()
            },
            final(self).user_tokens() == old(self).user_tokens(),
            final(self).spec_default_expires_in() == old(self).spec_default_expires_in(),
    {
        let ghost ks = self.token_keys();
        let ghost vs = self.session_views();
        match self.find_session(token) {
            None => {
                proof {
                    lemma_kv_absent(ks, vs, token@);
                }
            },
            Some(i) => {
                proof {
                    lemma_kv_at(ks, vs, i as int);
                }
                let mut s = self.sessions[i].copy_session();
                s.update_activity_at(now);
                let ghost sv = s@;
                self.sessions.set(i, s);
                proof {
                    assert(self.token_keys() =~= ks);
                    assert(self.session_views() =~= vs.update(i as int, sv));
                    lemma_kv_update(ks, vs, i as int, sv);
                }
            },
        }
    }

    /// Records activity on the session of `token` now, if there is one.
    pub fn update_session_activity(&mut self, token: &str)
        requires
            old(self).wf(),
        ensures
            final(self).wf(),
            final(self).sessions().dom() == old(self).sessions().dom(),
            old(self).sessions().contains_key(token@) ==> final(self).sessions() == old(self).sessions().insert(
                token@,
                SessionView { last_activity: final(self).sessions()[token@].last_activity, ..old(self).sessions()[token@] },
            ),
            !old(self).sessions().contains_key(token@) ==> final(self).sessions() == old(self).sessions(),
            final(self).user_tokens() == old(self).user_tokens(),
            final(self).spec_default_expires_in() == old(self).spec_default_expires_in(),
    {
        let now = current_timestamp_ms();
        self.update_session_activity_at(token, now);
        assert(self.sessions().dom() =~= old(self).sessions().dom());
    }

    /// Checks the session of `token` at `now`. A live session is touched and
    /// its user returned; an expired or unknown one is removed and the
    /// request refused with [`ErrorCode::AuthenticationFailed`].
    pub fn validate_session_at(&mut self, token: &str, now: u64) -> (r: Result<String, FlareError>)
        requires
            old(self).wf(),
        ensures
            final(self).wf(),
            r is Ok <==> (old(self).sessions().contains_key(token@) && !session_expired(
                old(self).sessions()[token@],
                now,
            )),
            r is Ok ==> r->Ok_0@ == old(self).sessions()[token@].user_id,
            r is Ok ==> final(self).sessions() == old(self).sessions().insert(
                token@,
                SessionView { last_activity: now, ..old(self).sessions()[token@] },
            ),
            r is Ok ==> final(self).user_tokens() == old(self).user_tokens(),
            r is Err ==> r->Err_0.code == ErrorCode::AuthenticationFailed,
            r is Err ==> final(self).sessions() == old(self).sessions().remove(token@),
            r is Err ==> final(self).user_tokens() == index_after_remove(
                old(self).sessions(),
                old(self).user_tokens(),
                token@,
            ),
            final(self).spec_default_expires_in() == old(self).spec_default_expires_in(),
    {
        let ghost ks = self.token_keys();
        let ghost vs = self.session_views();
        let valid = match self.find_session(token) {
            Some(i) => {
                proof {
                    lemma_kv_at(ks, vs, i as int);
                }
                !self.sessions[i].is_expired_at(now)
            },
            None => {
                proof {
                    lemma_kv_absent(ks, vs, token@);
                }
                false
            },
        };
        if valid {
            self.update_session_activity_at(token, now);
            let ghost ks2 = self.token_keys();
            let ghost vs2 = self.session_views();
            match self.find_session(token) {
                Some(i) => {
                    proof {
                        lemma_kv_at(ks2, vs2, i as int);
                    }
                    Ok(self.sessions[i].user_id.clone())
                },
                None => {
                    proof {
                        lemma_kv_absent(ks2, vs2, token@);
                    }
                    Err(FlareError::authentication_failed(String::from_str("无效的会话令牌")))
                },
            }
        } else {
            self.remove_session(token);
            Err(FlareError::authentication_failed(String::from_str("会话已过期或无效")))
        }
    }

    /// Checks the session of `token` now: the check of
    /// [`SessionManager::validate_session_at`] at the time the clock reads
    /// (an unknown token is always refused).
    pub fn validate_session(&mut self, token: &str) -> (r: Result<String, FlareError>)
        requires
            old(self).wf(),
        ensures
            final(self).wf(),
            r is Ok ==> old(self).sessions().contains_key(token@),
            r is Ok ==> r->Ok_0@ == old(self).sessions()[token@].user_id,
            r is Ok ==> final(self).sessions().dom() == old(self).sessions().dom(),
            r is Ok ==> final(self).user_tokens() == old(self).user_tokens(),
            r is Err ==> r->Err_0.code == ErrorCode::AuthenticationFailed,
            r is Err ==> final(self).sessions() == old(self).sessions().remove(token@),
            r is Err ==> final(self).user_tokens() == index_after_remove(
                old(self).sessions(),
                old(self).user_tokens(),
                token@,
            ),
            !old(self).sessions().contains_key(token@) ==> r is Err,
            exists|now: u64| #[trigger] token_validated(*old(self), *final(self), token@, now, r),
            final(self).spec_default_expires_in() == old(self).spec_default_expires_in(),
    {
        let now = current_timestamp_ms();
        let r = self.validate_session_at(token, now);
        assert(r is Ok ==> self.sessions().dom() =~= old(self).sessions().dom());
        assert(token_validated(*old(self), *self, token@, now, r));
        r
    }

    /// The tokens issued to `user_id`, in issue order (empty if none).
    pub fn get_user_tokens(&self, user_id: &str) -> (r: Vec<String>)
        requires
            self.wf(),
        ensures
            ids_view(r@) == if self.user_tokens().contains_key(user_id@) {
                self.user_tokens()[user_id@]
            } else {
                Seq::empty()
            },
    {
        let ghost ks = self.user_keys();
        let ghost vs = self.token_lists();
        match self.find_user(user_id) {
            Some(j) => {
                proof {
                    lemma_kv_at(ks, vs, j as int);
                }
                copy_ids(&self.user_sessions[j].tokens)
            },
            None => {
                proof {
                    lemma_kv_absent(ks, vs, user_id@);
                }
                let r: Vec<String> = Vec::new();
                assert(ids_view(r@) =~= Seq::empty());
                r
            },
        }
    }

    /// Whether the sweep at `now` drops `t` from the list of `u`.
    fn is_swept(&self, user_id: &str, t: &str, now: u64) -> (r: bool)
        requires
            self.wf(),
        ensures
            r == swept(self.sessions(), user_id@, t@, now),
    {
        let ghost ks = self.token_keys();
        let ghost vs = self.session_views();
        match self.find_session(t) {
            Some(i) => {
                proof {
                    lemma_kv_at(ks, vs, i as int);
                }
                str_eq(self.sessions[i].user_id.as_str(), user_id) && self.sessions[i].is_expired_at(now)
            },
            None => {
                proof {
                    lemma_kv_absent(ks, vs, t@);
                }
                false
            },
        }
    }

    /// The tokens of `l` that the sweep keeps for `user_id`.
    fn kept_tokens(&self, user_id: &str, l: &Vec<String>, now: u64) -> (r: Vec<String>)
        requires
            self.wf(),
        ensures
            ids_view(r@) == tokens_kept(ids_view(l@), self.sessions(), user_id@, now),
    {
        let mut out: Vec<String> = Vec::new();
        let mut p: usize = 0;
        while p < l.len()
            invariant
                self.wf(),
                p <= l@.len(),
                ids_view(out@) == tokens_kept(ids_view(l@).take(p as int), self.sessions(), user_id@, now),
            decreases l@.len() - p,
        {
            let ghost s = ids_view(l@);
            assert(s.take(p + 1).drop_last() =~= s.take(p as int));
            assert(s.take(p + 1).last() == s[p as int]);
            if !self.is_swept(user_id, l[p].as_str(), now) {
                proof {
                    lemma_ids_push(out@, l@[p as int]);
                }
                out.push(l[p].clone());
            }
            p += 1;
        }
        assert(ids_view(l@).take(l@.len() as int) =~= ids_view(l@));
        out
    }

    /// The token index after the sweep at `now`.
    fn swept_index(&self, now: u64) -> (r: Vec<UserTokens>)
        requires
            self.wf(),
        ensures
            kv_wf(ut_keys(r@), ut_lists(r@)),
            kv_map(ut_keys(r@), ut_lists(r@)) == index_after_sweep(self.sessions(), self.user_tokens(), now),
    {
        let ghost ks = self.user_keys();
        let ghost vs = self.token_lists();
        let mut out: Vec<UserTokens> = Vec::new();
        let mut j: usize = 0;
        assert(kv_map(ut_keys(out@), ut_lists(out@)) =~= partial_sweep(self.sessions(), self.user_tokens(), ks.take(0), now));
        while j < self.user_sessions.len()
            invariant
                self.wf(),
                ks == self.user_keys(),
                vs == self.token_lists(),
                j <= ks.len(),
                kv_wf(ut_keys(out@), ut_lists(out@)),
                forall|x: Seq<char>| #[trigger] ut_keys(out@).contains(x) ==> ks.take(j as int).contains(x),
                kv_map(ut_keys(out@), ut_lists(out@)) == partial_sweep(self.sessions(), self.user_tokens(), ks.take(j as int), now),
            decreases ks.len() - j,
        {
            proof {
                lemma_kv_at(ks, vs, j as int);
            }
            let kept = self.kept_tokens(self.user_sessions[j].user_id.as_str(), &self.user_sessions[j].tokens, now);
            let ghost u = ks[j as int];
            let ghost okeys = ut_keys(out@);
            let ghost olists = ut_lists(out@);
            let ghost before = partial_sweep(self.sessions(), self.user_tokens(), ks.take(j as int), now);
            let ghost after = partial_sweep(self.sessions(), self.user_tokens(), ks.take(j + 1), now);
            proof {
                assert(ks.take(j + 1) =~= ks.take(j as int).push(u));
                assert(!ks.take(j as int).contains(u)) by {
                    if ks.take(j as int).contains(u) {
                        let q = choose|q: int| 0 <= q < j && ks.take(j as int)[q] == u;
                        assert(ks[q] == ks[j as int]);
                    }
                }
            }
            if kept.len() > 0 {
                let ghost nl = ids_view(kept@);
                out.push(UserTokens { user_id: self.user_sessions[j].user_id.clone(), tokens: kept });
                proof {
                    assert(ut_keys(out@) =~= okeys.push(u));
                    assert(ut_lists(out@) =~= olists.push(nl));
                    assert(!okeys.contains(u));
                    lemma_kv_push(okeys, olists, u, nl);
                    assert(vs[j as int] == ids_view(self.user_sessions@[j as int].tokens@));
                    assert(self.user_tokens()[u] == vs[j as int]);
                    assert forall|x: Seq<char>| #[trigger] after.contains_key(x) == before.insert(u, nl).contains_key(x) by {
                        if x == u {
                            assert(ks.take(j + 1)[j as int] == u);
                        } else {
                            if ks.take(j + 1).contains(x) {
                                let nt = ks.take(j + 1);
                                let q = choose|q: int| 0 <= q < nt.len() && nt[q] == x;
                                assert(q != j);
                                assert(ks.take(j as int)[q] == x);
                            }
                            if ks.take(j as int).contains(x) {
                                let q = choose|q: int| 0 <= q < j && ks.take(j as int)[q] == x;
                                assert(ks.take(j + 1)[q] == x);
                            }
                        }
                    }
                    assert(after =~= before.insert(u, nl));
                    assert forall|x: Seq<char>| #[trigger] ut_keys(out@).contains(x) implies ks.take(j + 1).contains(x) by {
                        if x != u {
                            assert(okeys.contains(x));
                            let q = choose|q: int| 0 <= q < j && ks.take(j as int)[q] == x;
                            assert(ks.take(j + 1)[q] == x);
                        } else {
                            assert(ks.take(j + 1)[j as int] == u);
                        }
                    }
                }
            } else {
                proof {
                    assert(after =~= before);
                    assert forall|x: Seq<char>| #[trigger] ut_keys(out@).contains(x) implies ks.take(j + 1).contains(x) by {
                        let q = choose|q: int| 0 <= q < j && ks.take(j as int)[q] == x;
                        assert(ks.take(j + 1)[q] == x);
                    }
                }
            }
            j += 1;
        }
        proof {
            assert(ks.take(ks.len() as int) =~= ks);
            assert(partial_sweep(self.sessions(), self.user_tokens(), ks, now) =~= index_after_sweep(
                self.sessions(),
                self.user_tokens(),
                now,
            ));
        }
        out
    }

    /// The sessions still live at `now`.
    fn live_list(&self, now: u64) -> (r: Vec<UserSession>)
        requires
            self.wf(),
        ensures
            kv_wf(ss_keys(r@), ss_views(r@)),
            kv_map(ss_keys(r@), ss_views(r@)) == live_sessions(self.sessions(), now),
    {
        let ghost ks = self.token_keys();
        let ghost vs = self.session_views();
        let mut out: Vec<UserSession> = Vec::new();
        let mut i: usize = 0;
        assert(kv_map(ss_keys(out@), ss_views(out@)) =~= partial_live(self.sessions(), ks.take(0), now));
        while i < self.sessions.len()
            invariant
                self.wf(),
                ks == self.token_keys(),
                vs == self.session_views(),
                i <= ks.len(),
                kv_wf(ss_keys(out@), ss_views(out@)),
                forall|x: Seq<char>| #[trigger] ss_keys(out@).contains(x) ==> ks.take(i as int).contains(x),
                kv_map(ss_keys(out@), ss_views(out@)) == partial_live(self.sessions(), ks.take(i as int), now),
            decreases ks.len() - i,
        {
            proof {
                lemma_kv_at(ks, vs, i as int);
            }
            let ghost t = ks[i as int];
            let ghost okeys = ss_keys(out@);
            let ghost oviews = ss_views(out@);
            let ghost before = partial_live(self.sessions(), ks.take(i as int), now);
            let ghost after = partial_live(self.sessions(), ks.take(i + 1), now);
            proof {
                assert(ks.take(i + 1) =~= ks.take(i as int).push(t));
                assert(!ks.take(i as int).contains(t)) by {
                    if ks.take(i as int).contains(t) {
                        let q = choose|q: int| 0 <= q < i && ks.take(i as int)[q] == t;
                        assert(ks[q] == ks[i as int]);
                    }
                }
            }
            if !self.sessions[i].is_expired_at(now) {
                let c = self.sessions[i].copy_session();
                let ghost cv = c@;
                out.push(c);
                proof {
                    assert(ss_keys(out@) =~= okeys.push(t));
                    assert(ss_views(out@) =~= oviews.push(cv));
                    assert(!okeys.contains(t));
                    lemma_kv_push(okeys, oviews, t, cv);
                    assert(vs[i as int] == self.sessions@[i as int]@);
                    assert(self.sessions()[t] == vs[i as int]);
                    assert forall|x: Seq<char>| #[trigger] after.contains_key(x) == before.insert(t, cv).contains_key(x) by {
                        if x == t {
                            assert(ks.take(i + 1)[i as int] == t);
                        } else {
                            if ks.take(i + 1).contains(x) {
                                let nt = ks.take(i + 1);
                                let q = choose|q: int| 0 <= q < nt.len() && nt[q] == x;
                                assert(q != i);
                                assert(ks.take(i as int)[q] == x);
                            }
                            if ks.take(i as int).contains(x) {
                                let q = choose|q: int| 0 <= q < i && ks.take(i as int)[q] == x;
                                assert(ks.take(i + 1)[q] == x);
                            }
                        }
                    }
                    assert(after =~= before.insert(t, cv));
                    assert forall|x: Seq<char>| #[trigger] ss_keys(out@).contains(x) implies ks.take(i + 1).contains(x) by {
                        if x != t {
                            assert(okeys.contains(x));
                            let q = choose|q: int| 0 <= q < i && ks.take(i as int)[q] == x;
                            assert(ks.take(i + 1)[q] == x);
                        } else {
                            assert(ks.take(i + 1)[i as int] == t);
                        }
                    }
                }
            } else {
                proof {
                    assert(after =~= before);
                    assert forall|x: Seq<char>| #[trigger] ss_keys(out@).contains(x) implies ks.take(i + 1).contains(x) by {
                        let q = choose|q: int| 0 <= q < i && ks.take(i as int)[q] == x;
                        assert(ks.take(i + 1)[q] == x);
                    }
                }
            }
            i += 1;
        }
        proof {
            assert(ks.take(ks.len() as int) =~= ks);
            assert(partial_live(self.sessions(), ks, now) =~= live_sessions(self.sessions(), now));
        }
        out
    }

    /// Removes every session expired at `now` and forgets its token in its
    /// user's list; returns how many sessions were removed.
    pub fn cleanup_expired_sessions_at(&mut self, now: u64) -> (removed: usize)
        requires
            old(self).wf(),
        ensures
            final(self).wf(),
            final(self).sessions() == live_sessions(old(self).sessions(), now),
            final(self).user_tokens() == index_after_sweep(old(self).sessions(), old(self).user_tokens(), now),
            removed == old(self).sessions().len() - final(self).sessions().len(),
            final(self).spec_default_expires_in() == old(self).spec_default_expires_in(),
    {
        let index = self.swept_index(now);
        let live = self.live_list(now);
        let before = self.sessions.len();
        proof {
            lemma_kv_len(self.token_keys(), self.session_views());
            lemma_kv_len(ss_keys(live@), ss_views(live@));
            assert(ss_keys(live@).len() <= ss_keys(self.sessions@).len()) by {
                let a = ss_keys(live@).to_set();
                let b = ss_keys(self.sessions@).to_set();
                assert(a.subset_of(b));
                vstd::set_lib::lemma_len_subset(a, b);
                ss_keys(live@).unique_seq_to_set();
                ss_keys(self.sessions@).unique_seq_to_set();
            }
        }
        let after = live.len();
        self.sessions = live;
        self.user_sessions = index;
        before - after
    }

    /// Removes every session expired by now: the sweep of
    /// [`SessionManager::cleanup_expired_sessions_at`] at the time the clock
    /// reads.
    pub fn cleanup_expired_sessions(&mut self) -> (removed: usize)
        requires
            old(self).wf(),
        ensures
            final(self).wf(),
            final(self).sessions().submap_of(old(self).sessions()),
            exists|now: u64|
                final(self).sessions() == #[trigger] live_sessions(old(self).sessions(), now)
                    && final(self).user_tokens() == index_after_sweep(old(self).sessions(), old(self).user_tokens(), now),
            removed == old(self).sessions().len() - final(self).sessions().len(),
            final(self).spec_default_expires_in() == old(self).spec_default_expires_in(),
    {
        let now = current_timestamp_ms();
        let removed = self.cleanup_expired_sessions_at(now);
        assert(self.sessions() == live_sessions(old(self).sessions(), now));
        removed
    }
}


/// Laws of the session store, stated over the tables its operations
/// produce.
///
/// A session created at `now` with lifetime `expires_in` is found under its
/// token, belongs to its user, and is live exactly until `now + expires_in`.
pub proof fn lemma_created_session_valid_until_expiry(
    sessions: SessionTable,
    user_id: Seq<char>,
    token: Seq<char>,
    expires_in: u64,
    now: u64,
    later: u64,
)
    ensures
        sessions.insert(token, fresh_session(user_id, token, expires_in, now)).contains_key(token),
        sessions.insert(token, fresh_session(user_id, token, expires_in, now))[token].user_id == user_id,
        session_expired(sessions.insert(token, fresh_session(user_id, token, expires_in, now))[token], later)
            <==> later > now + expires_in,
{
}

/// A token issued to a user is listed among that user's tokens.
pub proof fn lemma_issued_token_listed(ix: TokenIndex, user_id: Seq<char>, token: Seq<char>)
    ensures
        tokens_push(ix, user_id, token).contains_key(user_id),
        tokens_push(ix, user_id, token)[user_id].contains(token),
        tokens_push(ix, user_id, token)[user_id].last() == token,
{
    if ix.contains_key(user_id) {
        assert(ix[user_id].push(token)[ix[user_id].len() as int] == token);
    } else {
        assert(seq![token][0] == token);
    }
}

/// After the sweep at `now`, no stored session is expired at `now`, and
/// every session that was live at `now` is still stored, unchanged.
pub proof fn lemma_sweep_keeps_exactly_live(sessions: SessionTable, now: u64)
    ensures
        forall|t: Seq<char>| #[trigger] live_sessions(sessions, now).contains_key(t) ==> !session_expired(
            live_sessions(sessions, now)[t],
            now,
        ),
        forall|t: Seq<char>|
            sessions.contains_key(t) && !session_expired(sessions[t], now) ==> #[trigger] live_sessions(
                sessions,
                now,
            ).contains_key(t) && live_sessions(sessions, now)[t] == sessions[t],
{
}

/// `tokens_without` keeps exactly the other tokens.
pub proof fn lemma_tokens_without(l: Seq<Seq<char>>, t: Seq<char>)
    ensures
        forall|x: Seq<char>| #[trigger] tokens_without(l, t).contains(x) <==> (l.contains(x) && x != t),
    decreases l.len(),
{
    if l.len() > 0 {
        lemma_tokens_without(l.drop_last(), t);
        let r = tokens_without(l.drop_last(), t);
        assert forall|x: Seq<char>| #[trigger] tokens_without(l, t).contains(x) <==> (l.contains(x) && x != t) by {
            if l.contains(x) {
                let q = choose|q: int| 0 <= q < l.len() && l[q] == x;
                if q < l.len() - 1 {
                    assert(l.drop_last()[q] == x);
                }
            }
            if l.drop_last().contains(x) {
                let q = choose|q: int| 0 <= q < l.drop_last().len() && l.drop_last()[q] == x;
                assert(l[q] == x);
            }
            if l.last() != t {
                assert(r.push(l.last())[r.len() as int] == l.last());
                if r.push(l.last()).contains(x) && x != l.last() {
                    let q = choose|q: int| 0 <= q < r.push(l.last()).len() && r.push(l.last())[q] == x;
                    assert(r[q] == x);
                }
                if r.contains(x) {
                    let q = choose|q: int| 0 <= q < r.len() && r[q] == x;
                    assert(r.push(l.last())[q] == x);
                }
            }
        }
    }
}

/// Removing a session makes its token unknown, and takes the token out of
/// its user's list.
pub proof fn lemma_removed_session_forgotten(sessions: SessionTable, ix: TokenIndex, token: Seq<char>)
    requires
        sessions.contains_key(token),
    ensures
        !sessions.remove(token).contains_key(token),
        index_after_remove(sessions, ix, token).contains_key(sessions[token].user_id) ==> !index_after_remove(
            sessions,
            ix,
            token,
        )[sessions[token].user_id].contains(token),
{
    let u = sessions[token].user_id;
    if ix.contains_key(u) {
        lemma_tokens_without(ix[u], token);
    }
}

/// A source of credentials: checks tokens and issues them. What an
/// implementation answers is its own affair: each states, by
/// [`AuthProvider::validates`] and [`AuthProvider::issues`], which answers
/// (and changes of its own state) it may give to which arguments.
pub trait AuthProvider: Sized {
    /// Whether checking `token` may take the provider from `self` to
    /// `after`, answering `r`.
    spec fn validates(self, after: Self, token: Seq<char>, r: Result<String, FlareError>) -> bool;

    /// Whether issuing a token to `user_id` may take the provider from
    /// `self` to `after`, answering `r`.
    spec fn issues(self, after: Self, user_id: Seq<char>, r: Result<String, FlareError>) -> bool;

    /// The user a token belongs to, or why it is refused.
    fn validate_token(&mut self, token: &str) -> (r: Result<String, FlareError>)
        ensures
            (*old(self)).validates(*final(self), token@, r),
    ;

    /// Issues a token to a user.
    fn generate_token(&mut self, user_id: &str) -> (r: Result<String, FlareError>)
        ensures
            (*old(self)).issues(*final(self), user_id@, r),
    ;
}

/// The token that [`DefaultAuthProvider`] issues to `user_id` at `now`.
pub open spec fn issued_token(user_id: Seq<char>, now: u64) -> Seq<char> {
    "token_"@ + user_id + "_"@ + decimal(now as nat)
}

/// Issues `token_<user>_<ms>` tokens backed by a [`SessionManager`].
pub struct DefaultAuthProvider {
    session_manager: SessionManager,
}

impl DefaultAuthProvider {
    #[verifier::type_invariant]
    spec fn inv(self) -> bool {
        self.session_manager.wf()
    }

    /// The session store behind the provider.
    pub closed spec fn manager(&self) -> SessionManager {
        self.session_manager
    }

    /// A provider whose sessions last `session_expires_in` milliseconds.
    pub fn new(session_expires_in: u64) -> (p: DefaultAuthProvider)
        ensures
            p.manager().wf(),
            p.manager().sessions().is_empty(),
            p.manager().user_tokens().is_empty(),
            p.manager().spec_default_expires_in() == session_expires_in,
    {
        DefaultAuthProvider { session_manager: SessionManager::new(session_expires_in) }
    }

    /// The session store behind the provider.
    pub fn session_manager(&self) -> (r: &SessionManager)
        ensures
            *r == self.manager(),
            r.wf(),
    {
        proof {
            use_type_invariant(self);
        }
        &self.session_manager
    }

    /// Checks `token` against the session store at `now`; see
    /// [`SessionManager::validate_session_at`].
    pub fn validate_token_at(&mut self, token: &str, now: u64) -> (r: Result<String, FlareError>)
        ensures
            final(self).manager().wf(),
            r is Ok <==> (old(self).manager().sessions().contains_key(token@) && !session_expired(
                old(self).manager().sessions()[token@],
                now,
            )),
            r is Ok ==> r->Ok_0@ == old(self).manager().sessions()[token@].user_id,
            r is Ok ==> final(self).manager().sessions() == old(self).manager().sessions().insert(
                token@,
                SessionView { last_activity: now, ..old(self).manager().sessions()[token@] },
            ),
            r is Ok ==> final(self).manager().user_tokens() == old(self).manager().user_tokens(),
            r is Err ==> r->Err_0.code == ErrorCode::AuthenticationFailed,
            r is Err ==> final(self).manager().sessions() == old(self).manager().sessions().remove(token@),
            r is Err ==> final(self).manager().user_tokens() == index_after_remove(
                old(self).manager().sessions(),
                old(self).manager().user_tokens(),
                token@,
            ),
            final(self).manager().spec_default_expires_in() == old(self).manager().spec_default_expires_in(),
    {
        proof {
            use_type_invariant(&*self);
        }
        let mut m = SessionManager::new(0);
        std::mem::swap(&mut m, &mut self.session_manager);
        let r = m.validate_session_at(token, now);
        std::mem::swap(&mut m, &mut self.session_manager);
        r
    }

    /// Issues a token to `user_id` at `now`: `token_<user>_<now>`, backed by
    /// a session with the default lifetime.
    pub fn generate_token_at(&mut self, user_id: &str, now: u64) -> (r: Result<String, FlareError>)
        ensures
            final(self).manager().wf(),
            r is Ok,
            r->Ok_0@ == issued_token(user_id@, now),
            final(self).manager().sessions() == old(self).manager().sessions().insert(
                issued_token(user_id@, now),
                fresh_session(
                    user_id@,
                    issued_token(user_id@, now),
                    old(self).manager().spec_default_expires_in(),
                    now,
                ),
            ),
            final(self).manager().user_tokens() == tokens_push(
                old(self).manager().user_tokens(),
                user_id@,
                issued_token(user_id@, now),
            ),
            final(self).manager().spec_default_expires_in() == old(self).manager().spec_default_expires_in(),
    {
        proof {
            use_type_invariant(&*self);
        }
        let mut token = String::from_str("token_");
        token.append(user_id);
        token.append("_");
        push_decimal(&mut token, now);
        let mut m = SessionManager::new(0);
        std::mem::swap(&mut m, &mut self.session_manager);
        let created = m.create_session_at(user_id.to_owned(), token.clone(), None, now);
        std::mem::swap(&mut m, &mut self.session_manager);
        match created {
            Ok(_) => Ok(token),
            Err(e) => Err(e),
        }
    }
}

/// What [`DefaultAuthProvider::validate_token_at`] does at `now`: from the
/// store `m0` to the store `m1`, answering `r` for `token`.
pub open spec fn token_validated(m0: SessionManager, m1: SessionManager, token: Seq<char>, now: u64, r: Result<String, FlareError>) -> bool {
    &&& (r is Ok <==> (m0.sessions().contains_key(token) && !session_expired(m0.sessions()[token], now)))
    &&& r is Ok ==> {
        &&& r->Ok_0@ == m0.sessions()[token].user_id
        &&& m1.sessions() == m0.sessions().insert(token, SessionView { last_activity: now, ..m0.sessions()[token] })
        &&& m1.user_tokens() == m0.user_tokens()
    }
    &&& r is Err ==> {
        &&& r->Err_0.code == ErrorCode::AuthenticationFailed
        &&& m1.sessions() == m0.sessions().remove(token)
        &&& m1.user_tokens() == index_after_remove(m0.sessions(), m0.user_tokens(), token)
    }
}

/// What [`DefaultAuthProvider::generate_token_at`] does at `now`: from the
/// store `m0` to the store `m1`, issuing `r` to `user_id`.
pub open spec fn token_generated(m0: SessionManager, m1: SessionManager, user_id: Seq<char>, now: u64, r: Result<String, FlareError>) -> bool {
    &&& r is Ok
    &&& r->Ok_0@ == issued_token(user_id, now)
    &&& m1.sessions() == m0.sessions().insert(
        issued_token(user_id, now),
        fresh_session(user_id, issued_token(user_id, now), m0.spec_default_expires_in(), now),
    )
    &&& m1.user_tokens() == tokens_push(m0.user_tokens(), user_id, issued_token(user_id, now))
}

impl AuthProvider for DefaultAuthProvider {
    /// The session store stays well formed with its default lifetime, and
    /// changes as [`token_validated`] says at some reading of the clock.
    open spec fn validates(self, after: Self, token: Seq<char>, r: Result<String, FlareError>) -> bool {
        &&& after.manager().wf()
        &&& after.manager().spec_default_expires_in() == self.manager().spec_default_expires_in()
        &&& exists|now: u64| #[trigger] token_validated(self.manager(), after.manager(), token, now, r)
    }

    /// The session store stays well formed with its default lifetime, and
    /// changes as [`token_generated`] says at some reading of the clock.
    open spec fn issues(self, after: Self, user_id: Seq<char>, r: Result<String, FlareError>) -> bool {
        &&& after.manager().wf()
        &&& after.manager().spec_default_expires_in() == self.manager().spec_default_expires_in()
        &&& exists|now: u64| #[trigger] token_generated(self.manager(), after.manager(), user_id, now, r)
    }

    /// [`DefaultAuthProvider::validate_token_at`] at the time the clock
    /// reads.
    fn validate_token(&mut self, token: &str) -> (r: Result<String, FlareError>)
        ensures
            final(self).manager().wf(),
            exists|now: u64| #[trigger] token_validated(old(self).manager(), final(self).manager(), token@, now, r),
            final(self).manager().spec_default_expires_in() == old(self).manager().spec_default_expires_in(),
    {
        let now = current_timestamp_ms();
        let r = self.validate_token_at(token, now);
        assert(token_validated(old(self).manager(), self.manager(), token@, now, r));
        r
    }

    /// [`DefaultAuthProvider::generate_token_at`] at the time the clock
    /// reads.
    fn generate_token(&mut self, user_id: &str) -> (r: Result<String, FlareError>)
        ensures
            final(self).manager().wf(),
            exists|now: u64| #[trigger] token_generated(old(self).manager(), final(self).manager(), user_id@, now, r),
            final(self).manager().spec_default_expires_in() == old(self).manager().spec_default_expires_in(),
    {
        let now = current_timestamp_ms();
        let r = self.generate_token_at(user_id, now);
        assert(token_generated(old(self).manager(), self.manager(), user_id@, now, r));
        r
    }
}

impl Default for DefaultAuthProvider {
    /// A provider whose sessions last one day.
    fn default() -> (p: DefaultAuthProvider)
        ensures
            p.manager().wf(),
            p.manager().sessions().is_empty(),
            p.manager().user_tokens().is_empty(),
            p.manager().spec_default_expires_in() == DEFAULT_SESSION_EXPIRES_MS,
    {
        DefaultAuthProvider::new(DEFAULT_SESSION_EXPIRES_MS)
    }
}

} // verus!
