//! The authentication manager: connections waiting for (or done with)
//! authentication, and the connection each user has online on each
//! platform. Checking credentials is the application's authentication
//! handler's work; the manager is told the outcome.

use crate::auth::{copy_opt_platform, opt_platform_view, AuthInfo, AuthInfoView, AuthStatus, AuthStatusView};
use crate::device::{copy_opt_string, opt_view, DevicePlatform, PlatformView};
use crate::error::{ErrorCode, FlareError};
use crate::negotiation::{utf8_fault_text, utf8_text, utf8_to_string};
use crate::strings::concat3;
use crate::utils::current_timestamp_ms;
use crate::keyed::{kv_map, kv_wf, lemma_kv_absent, lemma_kv_at, lemma_kv_len, lemma_kv_push, lemma_kv_remove, lemma_kv_update, lemma_take_next};
use crate::strings::str_eq;
use vstd::prelude::*;

verus! {

/// Connections waiting for (or done with) authentication, by id.
pub type PendingTable = Map<Seq<char>, AuthInfoView>;

/// The connection each user has online on each platform.
pub type OnlineTable = Map<Seq<char>, Map<PlatformView, Seq<char>>>;

/// The online table after `c` is recorded for user `u` on platform `p`.
pub open spec fn online_record(t: OnlineTable, u: Seq<char>, p: PlatformView, c: Seq<char>) -> OnlineTable {
    t.insert(u, (if t.contains_key(u) { t[u] } else { Map::empty() }).insert(p, c))
}

/// The online table after user `u` goes offline on platform `p`; a user
/// left with no platform is dropped.
pub open spec fn online_forget(t: OnlineTable, u: Seq<char>, p: PlatformView) -> OnlineTable {
    if t.contains_key(u) {
        let m = t[u].remove(p);
        if m.is_empty() {
            t.remove(u)
        } else {
            t.insert(u, m)
        }
    } else {
        t
    }
}

/// The online table after user `u` is forced off platform `p` (the user
/// stays, possibly with no platform).
pub open spec fn online_force_off(t: OnlineTable, u: Seq<char>, p: PlatformView) -> OnlineTable {
    if t.contains_key(u) {
        t.insert(u, t[u].remove(p))
    } else {
        t
    }
}

/// A connection registered at `now`, waiting for credentials.
pub open spec fn fresh_pending(id: Seq<char>, now: u64) -> AuthInfoView {
    AuthInfoView {
        connection_id: id,
        status: AuthStatusView::Pending,
        connected_at: now,
        last_activity: now,
        user_id: None,
        platform: None,
        device_id: None,
        app_version: None,
    }
}

/// A pending connection has been inactive longer than `timeout` at `now`.
pub open spec fn auth_inactive(info: AuthInfoView, timeout: u64, now: u64) -> bool {
    now > info.last_activity && now - info.last_activity > timeout
}

/// The pending connections that stay after the sweep at `now`.
pub open spec fn pending_after_sweep(t: PendingTable, timeout: u64, now: u64) -> PendingTable {
    Map::new(|k: Seq<char>| t.contains_key(k) && !auth_inactive(t[k], timeout, now), |k: Seq<char>| t[k])
}

/// The message of the refusal of an unknown or timed-out connection.
pub open spec fn unknown_connection_message() -> Seq<char> {
    "连接不存在或已超时"@
}

/// One user's connection on one platform.
struct PlatformConnection {
    platform: DevicePlatform,
    connection_id: String,
}

/// The connections of one user, by platform.
struct UserPlatforms {
    user_id: String,
    platforms: Vec<PlatformConnection>,
}

spec fn pc_keys(v: Seq<PlatformConnection>) -> Seq<PlatformView> {
    v.map_values(|e: PlatformConnection| e.platform@)
}

spec fn pc_conns(v: Seq<PlatformConnection>) -> Seq<Seq<char>> {
    v.map_values(|e: PlatformConnection| e.connection_id@)
}

spec fn pc_map(v: Seq<PlatformConnection>) -> Map<PlatformView, Seq<char>> {
    kv_map(pc_keys(v), pc_conns(v))
}

spec fn pc_wf(v: Seq<PlatformConnection>) -> bool {
    kv_wf(pc_keys(v), pc_conns(v))
}

spec fn info_keys(v: Seq<AuthInfo>) -> Seq<Seq<char>> {
    v.map_values(|i: AuthInfo| i.connection_id@)
}

spec fn info_views(v: Seq<AuthInfo>) -> Seq<AuthInfoView> {
    v.map_values(|i: AuthInfo| i@)
}

fn find_platform(v: &Vec<PlatformConnection>, p: &DevicePlatform) -> (r: Option<usize>)
    ensures
        match r {
            Some(i) => i < v@.len() && pc_keys(v@)[i as int] == p@,
            None => !pc_keys(v@).contains(p@),
        },
{
    let mut i: usize = 0;
    while i < v.len()
        invariant
            i <= v@.len(),
            forall|j: int| 0 <= j < i ==> pc_keys(v@)[j] != p@,
        decreases v@.len() - i,
    {
        if v[i].platform.same_as(p) {
            return Some(i);
        }
        i += 1;
    }
    None
}

/// Checks the credentials a connection sends; the application supplies its
/// own. What an implementation accepts is its own affair: each states, by
/// [`AuthHandler::answers`], which answers it may give to which
/// credentials, and the manager acts on the answer it got.
pub trait AuthHandler {
    /// Whether `r` is an answer this handler may give to the credentials
    /// `auth_data`.
    spec fn answers(&self, auth_data: Seq<u8>, r: Result<String, FlareError>) -> bool;

    /// Whether `r` is an answer this handler may give to the credentials
    /// `auth_data` reported with `platform`, `device_id` and `app_version`.
    spec fn answers_with_platform(
        &self,
        auth_data: Seq<u8>,
        platform: Option<PlatformView>,
        device_id: Option<Seq<char>>,
        app_version: Option<Seq<char>>,
        r: Result<String, FlareError>,
    ) -> bool;

    /// The user the credentials `auth_data` belong to, or why they are
    /// refused.
    fn authenticate(&self, auth_data: Vec<u8>) -> (r: Result<String, FlareError>)
        ensures
            self.answers(auth_data@, r),
    ;

    /// As [`AuthHandler::authenticate`], with the platform, device and
    /// application version the connection reported. A handler that does not
    /// look at them answers as [`AuthHandler::authenticate`] does.
    fn authenticate_with_platform(
        &self,
        auth_data: Vec<u8>,
        platform: Option<DevicePlatform>,
        device_id: Option<String>,
        app_version: Option<String>,
    ) -> (r: Result<String, FlareError>)
        ensures
            self.answers_with_platform(
                auth_data@,
                opt_platform_view(platform),
                opt_view(device_id),
                opt_view(app_version),
                r,
            ),
    ;
}

/// The message of the refusal of unknown credentials.
pub open spec fn invalid_token_message() -> Seq<char> {
    "无效的认证令牌"@
}

/// The prefix of the message of the refusal of credentials that are not
/// UTF-8 text.
pub open spec fn undecodable_token_prefix() -> Seq<char> {
    "无效的认证令牌: "@
}

spec fn cred_keys(v: Seq<(String, String)>) -> Seq<Seq<char>> {
    v.map_values(|e: (String, String)| e.0@)
}

spec fn cred_users(v: Seq<(String, String)>) -> Seq<Seq<char>> {
    v.map_values(|e: (String, String)| e.1@)
}

/// Accepts the tokens it was given, each for its user; the credentials are
/// the token as UTF-8 text.
pub struct SimpleAuthHandler {
    users: Vec<(String, String)>,
}

impl SimpleAuthHandler {
    #[verifier::type_invariant]
    spec fn inv(self) -> bool {
        kv_wf(cred_keys(self.users@), cred_users(self.users@))
    }

    /// The user each token belongs to.
    pub closed spec fn tokens(&self) -> Map<Seq<char>, Seq<char>> {
        kv_map(cred_keys(self.users@), cred_users(self.users@))
    }

    /// A handler that knows no token.
    pub fn new() -> (h: SimpleAuthHandler)
        ensures
            h.tokens().is_empty(),
    {
        let h = SimpleAuthHandler { users: Vec::new() };
        assert(h.tokens() =~= Map::empty());
        h
    }

    fn find_token(users: &Vec<(String, String)>, token: &str) -> (r: Option<usize>)
        ensures
            match r {
                Some(i) => i < users@.len() && cred_keys(users@)[i as int] == token@,
                None => !cred_keys(users@).contains(token@),
            },
    {
        let mut i: usize = 0;
        while i < users.len()
            invariant
                i <= users@.len(),
                forall|j: int| 0 <= j < i ==> cred_keys(users@)[j] != token@,
            decreases users@.len() - i,
        {
            if str_eq(users[i].0.as_str(), token) {
                return Some(i);
            }
            i += 1;
        }
        None
    }

    /// Accepts `token` for `user_id` from now on (replacing the user it had).
    pub fn add_user(&mut self, token: String, user_id: String)
        ensures
            final(self).tokens() == old(self).tokens().insert(token@, user_id@),
    {
        proof {
            use_type_invariant(&*self);
        }
        let mut users: Vec<(String, String)> = Vec::new();
        std::mem::swap(&mut users, &mut self.users);
        let ghost ks = cred_keys(users@);
        let ghost vs = cred_users(users@);
        let ghost tv = token@;
        let ghost uv = user_id@;
        match Self::find_token(&users, token.as_str()) {
            Some(i) => {
                users.set(i, (token, user_id));
                proof {
                    assert(cred_keys(users@) =~= ks);
                    assert(cred_users(users@) =~= vs.update(i as int, uv));
                    lemma_kv_update(ks, vs, i as int, uv);
                }
            },
            None => {
                users.push((token, user_id));
                proof {
                    assert(cred_keys(users@) =~= ks.push(tv));
                    assert(cred_users(users@) =~= vs.push(uv));
                    lemma_kv_push(ks, vs, tv, uv);
                }
            },
        }
        std::mem::swap(&mut users, &mut self.users);
    }
}

/// The answers of a [`SimpleAuthHandler`] holding `tokens` to the
/// credentials `auth_data`: the user of the token they read as; bytes that
/// are not UTF-8 are refused with [`ErrorCode::GeneralError`] (the message
/// names the decoding fault), an unknown token with
/// [`ErrorCode::AuthenticationExpired`].
pub open spec fn simple_answer(tokens: Map<Seq<char>, Seq<char>>, auth_data: Seq<u8>, r: Result<String, FlareError>) -> bool {
    match utf8_text(auth_data) {
        None => {
            &&& r is Err
            &&& r->Err_0.code == ErrorCode::GeneralError
            &&& r->Err_0.message@ == undecodable_token_prefix() + utf8_fault_text(auth_data)
        },
        Some(t) => if tokens.contains_key(t) {
            r is Ok && r->Ok_0@ == tokens[t]
        } else {
            &&& r is Err
            &&& r->Err_0.code == ErrorCode::AuthenticationExpired
            &&& r->Err_0.message@ == invalid_token_message()
        },
    }
}

impl AuthHandler for SimpleAuthHandler {
    open spec fn answers(&self, auth_data: Seq<u8>, r: Result<String, FlareError>) -> bool {
        simple_answer(self.tokens(), auth_data, r)
    }

    /// The platform, device and application version are not looked at.
    open spec fn answers_with_platform(
        &self,
        auth_data: Seq<u8>,
        platform: Option<PlatformView>,
        device_id: Option<Seq<char>>,
        app_version: Option<Seq<char>>,
        r: Result<String, FlareError>,
    ) -> bool {
        simple_answer(self.tokens(), auth_data, r)
    }

    /// Answers as [`AuthHandler::authenticate`]: the platform, device and
    /// application version are not looked at.
    fn authenticate_with_platform(
        &self,
        auth_data: Vec<u8>,
        platform: Option<DevicePlatform>,
        device_id: Option<String>,
        app_version: Option<String>,
    ) -> (r: Result<String, FlareError>) {
        self.authenticate(auth_data)
    }

    /// The user of the token `auth_data` reads as. Bytes that are not UTF-8
    /// are refused with [`ErrorCode::GeneralError`] (the message names the
    /// decoding fault), an unknown token with
    /// [`ErrorCode::AuthenticationExpired`] (see [`simple_answer`]).
    fn authenticate(&self, auth_data: Vec<u8>) -> (r: Result<String, FlareError>) {
        proof {
            use_type_invariant(self);
        }
        let ghost ks = cred_keys(self.users@);
        let ghost vs = cred_users(self.users@);
        match utf8_to_string(auth_data.as_slice()) {
            Err(fault) => {
                let message = concat3("无效的认证令牌: ", fault.as_str(), "");
                proof {
                    reveal_strlit("无效的认证令牌: ");
                    reveal_strlit("");
                    assert(message@ =~= undecodable_token_prefix() + utf8_fault_text(auth_data@));
                }
                Err(FlareError::general_error(message))
            },
            Ok(token) => match Self::find_token(&self.users, token.as_str()) {
                Some(i) => {
                    proof {
                        lemma_kv_at(ks, vs, i as int);
                    }
                    Ok(self.users[i].1.clone())
                },
                None => {
                    proof {
                        lemma_kv_absent(ks, vs, token@);
                    }
                    Err(FlareError::authentication_expired(String::from_str("无效的认证令牌")))
                },
            },
        }
    }
}

/// Authentication state of connections and users, with the application's
/// authentication handler (`A`) and the inactivity timeout (ms) of
/// connections waiting for credentials.
pub struct AuthManager<A> {
    auth_handler: A,
    pending_connections: Vec<AuthInfo>,
    authenticated_users: Vec<UserPlatforms>,
    auth_timeout: u64,
}

impl<A> AuthManager<A> {
    closed spec fn pending_keys(&self) -> Seq<Seq<char>> {
        info_keys(self.pending_connections@)
    }

    closed spec fn pending_views(&self) -> Seq<AuthInfoView> {
        info_views(self.pending_connections@)
    }

    closed spec fn user_keys(&self) -> Seq<Seq<char>> {
        self.authenticated_users@.map_values(|u: UserPlatforms| u.user_id@)
    }

    closed spec fn user_maps(&self) -> Seq<Map<PlatformView, Seq<char>>> {
        self.authenticated_users@.map_values(|u: UserPlatforms| pc_map(u.platforms@))
    }

    /// Connections waiting for (or done with) authentication, by id.
    pub closed spec fn pending(&self) -> PendingTable {
        kv_map(self.pending_keys(), self.pending_views())
    }

    /// The connection each user has online on each platform.
    pub closed spec fn online(&self) -> OnlineTable {
        kv_map(self.user_keys(), self.user_maps())
    }

    /// The inactivity timeout (ms).
    pub closed spec fn spec_auth_timeout(&self) -> u64 {
        self.auth_timeout
    }

    /// The authentication handler.
    pub closed spec fn handler(&self) -> A {
        self.auth_handler
    }

    /// Ids, users and each user's platforms are distinct.
    pub closed spec fn wf(&self) -> bool {
        &&& kv_wf(self.pending_keys(), self.pending_views())
        &&& kv_wf(self.user_keys(), self.user_maps())
        &&& forall|j: int| 0 <= j < self.authenticated_users@.len() ==> #[trigger] pc_wf(self.authenticated_users@[j].platforms@)
    }

    /// Nothing pending, nobody online.
    pub fn new(auth_handler: A, auth_timeout: u64) -> (m: AuthManager<A>)
        ensures
            m.wf(),
            m.pending().is_empty(),
            m.online().is_empty(),
            m.spec_auth_timeout() == auth_timeout,
            m.handler() == auth_handler,
    {
        let m = AuthManager {
            auth_handler,
            pending_connections: Vec::new(),
            authenticated_users: Vec::new(),
            auth_timeout,
        };
        assert(m.pending() =~= Map::empty());
        assert(m.online() =~= Map::empty());
        m
    }

    /// The authentication handler.
    pub fn auth_handler(&self) -> (h: &A)
        ensures
            *h == self.handler(),
    {
        &self.auth_handler
    }

    fn find_pending(&self, id: &str) -> (r: Option<usize>)
        ensures
            match r {
                Some(i) => i < self.pending_connections@.len() && self.pending_keys()[i as int] == id@,
                None => !self.pending_keys().contains(id@),
            },
    {
        let mut i: usize = 0;
        while i < self.pending_connections.len()
            invariant
                i <= self.pending_connections@.len(),
                forall|j: int| 0 <= j < i ==> self.pending_keys()[j] != id@,
            decreases self.pending_connections@.len() - i,
        {
            if str_eq(self.pending_connections[i].connection_id.as_str(), id) {
                return Some(i);
            }
            i += 1;
        }
        None
    }

    fn find_user(&self, user_id: &str) -> (r: Option<usize>)
        ensures
            match r {
                Some(j) => j < self.authenticated_users@.len() && self.user_keys()[j as int] == user_id@,
                None => !self.user_keys().contains(user_id@),
            },
    {
        let mut j: usize = 0;
        while j < self.authenticated_users.len()
            invariant
                j <= self.authenticated_users@.len(),
                forall|k: int| 0 <= k < j ==> self.user_keys()[k] != user_id@,
            decreases self.authenticated_users@.len() - j,
        {
            if str_eq(self.authenticated_users[j].user_id.as_str(), user_id) {
                return Some(j);
            }
            j += 1;
        }
        None
    }

    /// Stores `info` under its connection id, replacing any entry there.
    fn store_pending(&mut self, info: AuthInfo)
        requires
            old(self).wf(),
        ensures
            final(self).wf(),
            final(self).pending() == old(self).pending().insert(info@.connection_id, info@),
            final(self).online() == old(self).online(),
            final(self).auth_timeout == old(self).auth_timeout,
            final(self).auth_handler == old(self).auth_handler,
    {
        let ghost ks = self.pending_keys();
        let ghost vs = self.pending_views();
        let ghost iv = info@;
        match self.find_pending(info.connection_id.as_str()) {
            Some(i) => {
                self.pending_connections.set(i, info);
                proof {
                    assert(self.pending_keys() =~= ks);
                    assert(self.pending_views() =~= vs.update(i as int, iv));
                    lemma_kv_update(ks, vs, i as int, iv);
                }
            },
            None => {
                self.pending_connections.push(info);
                proof {
                    assert(self.pending_keys() =~= ks.push(iv.connection_id));
                    assert(self.pending_views() =~= vs.push(iv));
                    lemma_kv_push(ks, vs, iv.connection_id, iv);
                }
            },
        }
    }

    /// Registers the connection `connection_id` at `now`, waiting for
    /// credentials (an earlier entry for it is replaced).
    pub fn add_pending_connection_at(&mut self, connection_id: String, now: u64)
        requires
            old(self).wf(),
        ensures
            final(self).wf(),
            final(self).pending() == old(self).pending().insert(connection_id@, fresh_pending(connection_id@, now)),
            final(self).online() == old(self).online(),
            final(self).spec_auth_timeout() == old(self).spec_auth_timeout(),
            final(self).handler() == old(self).handler(),
    {
        let info = AuthInfo {
            connection_id,
            status: AuthStatus::Pending,
            connected_at: now,
            last_activity: now,
            user_id: None,
            platform: None,
            device_id: None,
            app_version: None,
        };
        self.store_pending(info);
    }

    /// Records the platform, device and application version a pending
    /// connection reported at `now`; an unknown connection is ignored.
    pub fn set_connection_platform_at(
        &mut self,
        connection_id: &str,
        platform: DevicePlatform,
        device_id: Option<String>,
        app_version: Option<String>,
        now: u64,
    )
        requires
            old(self).wf(),
        ensures
            final(self).wf(),
            final(self).pending() == if old(self).pending().contains_key(connection_id@) {
                old(self).pending().insert(
                    connection_id@,
                    AuthInfoView {
                        platform: Some(platform@),
                        device_id: opt_view(device_id),
                        app_version: opt_view(app_version),
                        last_activity: now,
                        ..old(self).pending()[connection_id@]
                    },
                )
            } else {
                old(self).pending()
            },
            final(self).online() == old(self).online(),
            final(self).spec_auth_timeout() == old(self).spec_auth_timeout(),
            final(self).handler() == old(self).handler(),
    {
        let ghost ks = self.pending_keys();
        let ghost vs = self.pending_views();
        match self.find_pending(connection_id) {
            None => {
                proof {
                    lemma_kv_absent(ks, vs, connection_id@);
                }
            },
            Some(i) => {
                proof {
                    lemma_kv_at(ks, vs, i as int);
                }
                let mut info = self.pending_connections[i].copy_info();
                info.platform = Some(platform);
                info.device_id = device_id;
                info.app_version = app_version;
                info.last_activity = now;
                self.store_pending(info);
            },
        }
    }

    /// The first half of taking in credentials from `connection_id` at
    /// `now`: the connection must be pending (else the request is refused
    /// with [`ErrorCode::AuthenticationExpired`]); its activity is recorded
    /// and its platform, device and application version are handed back
    /// for the authentication handler.
    pub fn begin_auth_at(&mut self, connection_id: &str, now: u64) -> (r: Result<
        (Option<DevicePlatform>, Option<String>, Option<String>),
        FlareError,
    >)
        requires
            old(self).wf(),
        ensures
            final(self).wf(),
            r is Err <==> !old(self).pending().contains_key(connection_id@),
            r is Err ==> r->Err_0.code == ErrorCode::AuthenticationExpired && r->Err_0.message@
                == unknown_connection_message() && final(self).pending() == old(self).pending(),
            r is Ok ==> {
                let info = old(self).pending()[connection_id@];
                &&& final(self).pending() == old(self).pending().insert(
                    connection_id@,
                    AuthInfoView { last_activity: now, ..info },
                )
                &&& opt_platform_view(r->Ok_0.0) == info.platform
                &&& opt_view(r->Ok_0.1) == info.device_id
                &&& opt_view(r->Ok_0.2) == info.app_version
            },
            final(self).online() == old(self).online(),
            final(self).spec_auth_timeout() == old(self).spec_auth_timeout(),
            final(self).handler() == old(self).handler(),
    {
        let ghost ks = self.pending_keys();
        let ghost vs = self.pending_views();
        match self.find_pending(connection_id) {
            None => {
                proof {
                    lemma_kv_absent(ks, vs, connection_id@);
                }
                Err(FlareError::authentication_expired(String::from_str("连接不存在或已超时")))
            },
            Some(i) => {
                proof {
                    lemma_kv_at(ks, vs, i as int);
                }
                let mut info = self.pending_connections[i].copy_info();
                info.last_activity = now;
                let platform = copy_opt_platform(&info.platform);
                let device_id = copy_opt_string(&info.device_id);
                let app_version = copy_opt_string(&info.app_version);
                self.store_pending(info);
                Ok((platform, device_id, app_version))
            },
        }
    }

    /// Records `connection_id` as user `user_id`'s connection on `platform`.
    fn record_online(&mut self, user_id: &str, platform: DevicePlatform, connection_id: &str)
        requires
            old(self).wf(),
        ensures
            final(self).wf(),
            final(self).online() == online_record(old(self).online(), user_id@, platform@, connection_id@),
            final(self).pending() == old(self).pending(),
            final(self).auth_timeout == old(self).auth_timeout,
            final(self).auth_handler == old(self).auth_handler,
    {
        let ghost ks = self.user_keys();
        let ghost vs = self.user_maps();
        let ghost old_users = self.authenticated_users@;
        let ghost pv = platform@;
        let ghost cv = connection_id@;
        match self.find_user(user_id) {
            Some(j) => {
                proof {
                    lemma_kv_at(ks, vs, j as int);
                    assert(pc_wf(old_users[j as int].platforms@));
                }
                let mut up = self.authenticated_users.remove(j);
                let ghost pk = pc_keys(up.platforms@);
                let ghost pc = pc_conns(up.platforms@);
                match find_platform(&up.platforms, &platform) {
                    Some(p) => {
                        up.platforms.set(p, PlatformConnection { platform, connection_id: connection_id.to_owned() });
                        proof {
                            assert(pc_keys(up.platforms@) =~= pk);
                            assert(pc_conns(up.platforms@) =~= pc.update(p as int, cv));
                            lemma_kv_update(pk, pc, p as int, cv);
                        }
                    },
                    None => {
                        up.platforms.push(PlatformConnection { platform, connection_id: connection_id.to_owned() });
                        proof {
                            assert(pc_keys(up.platforms@) =~= pk.push(pv));
                            assert(pc_conns(up.platforms@) =~= pc.push(cv));
                            lemma_kv_push(pk, pc, pv, cv);
                        }
                    },
                }
                let ghost nm = pc_map(up.platforms@);
                self.authenticated_users.insert(j, up);
                proof {
                    assert(self.user_keys() =~= ks);
                    assert(self.user_maps() =~= vs.update(j as int, nm));
                    lemma_kv_update(ks, vs, j as int, nm);
                    assert forall|k: int| 0 <= k < self.authenticated_users@.len() implies #[trigger] pc_wf(
                        self.authenticated_users@[k].platforms@,
                    ) by {
                        if k != j {
                            assert(self.authenticated_users@[k] == old_users[k]);
                        }
                    }
                }
            },
            None => {
                proof {
                    lemma_kv_absent(ks, vs, user_id@);
                }
                let mut platforms: Vec<PlatformConnection> = Vec::new();
                platforms.push(PlatformConnection { platform, connection_id: connection_id.to_owned() });
                let ghost nm = pc_map(platforms@);
                proof {
                    assert(pc_keys(platforms@) =~= Seq::<PlatformView>::empty().push(pv));
                    assert(pc_conns(platforms@) =~= Seq::<Seq<char>>::empty().push(cv));
                    lemma_kv_push(Seq::<PlatformView>::empty(), Seq::<Seq<char>>::empty(), pv, cv);
                    assert(kv_map(Seq::<PlatformView>::empty(), Seq::<Seq<char>>::empty()) =~= Map::empty());
                }
                let ghost uv = user_id@;
                self.authenticated_users.push(UserPlatforms { user_id: user_id.to_owned(), platforms });
                proof {
                    assert(self.user_keys() =~= ks.push(uv));
                    assert(self.user_maps() =~= vs.push(nm));
                    lemma_kv_push(ks, vs, uv, nm);
                    assert forall|k: int| 0 <= k < self.authenticated_users@.len() implies #[trigger] pc_wf(
                        self.authenticated_users@[k].platforms@,
                    ) by {
                        if k < old_users.len() {
                            assert(self.authenticated_users@[k] == old_users[k]);
                        }
                    }
                }
            },
        }
    }

    /// The second half of taking in credentials: the authentication
    /// handler's `outcome` for `connection_id`, whose platform was
    /// `platform` when the credentials arrived. On success the connection
    /// (if still pending) is marked authenticated for the user, and, with a
    /// platform, recorded as the user's connection there; on failure it is
    /// marked failed. Returns the resulting status.
    pub fn finish_auth(
        &mut self,
        connection_id: &str,
        platform: Option<DevicePlatform>,
        outcome: Result<String, FlareError>,
    ) -> (status: AuthStatus)
        requires
            old(self).wf(),
        ensures
            final(self).wf(),
            match outcome {
                Ok(u) => {
                    &&& status@ == AuthStatusView::Authenticated(u@)
                    &&& final(self).pending() == if old(self).pending().contains_key(connection_id@) {
                        old(self).pending().insert(
                            connection_id@,
                            AuthInfoView {
                                status: AuthStatusView::Authenticated(u@),
                                user_id: Some(u@),
                                ..old(self).pending()[connection_id@]
                            },
                        )
                    } else {
                        old(self).pending()
                    }
                    &&& final(self).online() == match platform {
                        Some(p) => online_record(old(self).online(), u@, p@, connection_id@),
                        None => old(self).online(),
                    }
                },
                Err(_) => {
                    &&& status@ == AuthStatusView::Failed
                    &&& final(self).pending() == if old(self).pending().contains_key(connection_id@) {
                        old(self).pending().insert(
                            connection_id@,
                            AuthInfoView { status: AuthStatusView::Failed, ..old(self).pending()[connection_id@] },
                        )
                    } else {
                        old(self).pending()
                    }
                    &&& final(self).online() == old(self).online()
                },
            },
            final(self).spec_auth_timeout() == old(self).spec_auth_timeout(),
            final(self).handler() == old(self).handler(),
    {
        let ghost ks = self.pending_keys();
        let ghost vs = self.pending_views();
        match outcome {
            Ok(user_id) => {
                match self.find_pending(connection_id) {
                    Some(i) => {
                        proof {
                            lemma_kv_at(ks, vs, i as int);
                        }
                        let mut info = self.pending_connections[i].copy_info();
                        info.status = AuthStatus::Authenticated(user_id.clone());
                        info.user_id = Some(user_id.clone());
                        self.store_pending(info);
                    },
                    None => {
                        proof {
                            lemma_kv_absent(ks, vs, connection_id@);
                        }
                    },
                }
                if let Some(p) = platform {
                    self.record_online(user_id.as_str(), p, connection_id);
                }
                AuthStatus::Authenticated(user_id)
            },
            Err(_) => {
                match self.find_pending(connection_id) {
                    Some(i) => {
                        proof {
                            lemma_kv_at(ks, vs, i as int);
                        }
                        let mut info = self.pending_connections[i].copy_info();
                        info.status = AuthStatus::Failed;
                        self.store_pending(info);
                    },
                    None => {
                        proof {
                            lemma_kv_absent(ks, vs, connection_id@);
                        }
                    },
                }
                AuthStatus::Failed
            },
        }
    }

    /// What is known of `connection_id`'s authentication, if it is known.
    pub fn is_authenticated(&self, connection_id: &str) -> (r: Option<AuthInfo>)
        requires
            self.wf(),
        ensures
            match r {
                Some(i) => self.pending().contains_key(connection_id@) && i@ == self.pending()[connection_id@],
                None => !self.pending().contains_key(connection_id@),
            },
    {
        let ghost ks = self.pending_keys();
        let ghost vs = self.pending_views();
        match self.find_pending(connection_id) {
            Some(i) => {
                proof {
                    lemma_kv_at(ks, vs, i as int);
                }
                Some(self.pending_connections[i].copy_info())
            },
            None => {
                proof {
                    lemma_kv_absent(ks, vs, connection_id@);
                }
                None
            },
        }
    }

    /// User `user_id` goes offline on `platform` (dropped when no platform
    /// is left).
    fn forget_online(&mut self, user_id: &str, platform: &DevicePlatform, drop_empty: bool) -> (r: Option<String>)
        requires
            old(self).wf(),
        ensures
            final(self).wf(),
            final(self).online() == if drop_empty {
                online_forget(old(self).online(), user_id@, platform@)
            } else {
                online_force_off(old(self).online(), user_id@, platform@)
            },
            opt_view(r) == if old(self).online().contains_key(user_id@) && old(self).online()[user_id@].contains_key(
                platform@,
            ) {
                Some(old(self).online()[user_id@][platform@])
            } else {
                None
            },
            final(self).pending() == old(self).pending(),
            final(self).auth_timeout == old(self).auth_timeout,
            final(self).auth_handler == old(self).auth_handler,
    {
        let ghost ks = self.user_keys();
        let ghost vs = self.user_maps();
        let ghost old_users = self.authenticated_users@;
        match self.find_user(user_id) {
            None => {
                proof {
                    lemma_kv_absent(ks, vs, user_id@);
                }
                None
            },
            Some(j) => {
                proof {
                    lemma_kv_at(ks, vs, j as int);
                    assert(pc_wf(old_users[j as int].platforms@));
                }
                let mut up = self.authenticated_users.remove(j);
                let ghost pk = pc_keys(up.platforms@);
                let ghost pc = pc_conns(up.platforms@);
                let removed = match find_platform(&up.platforms, platform) {
                    Some(p) => {
                        proof {
                            lemma_kv_at(pk, pc, p as int);
                            lemma_kv_remove(pk, pc, p as int);
                        }
                        let e = up.platforms.remove(p);
                        assert(pc_keys(up.platforms@) =~= pk.remove(p as int));
                        assert(pc_conns(up.platforms@) =~= pc.remove(p as int));
                        Some(e.connection_id)
                    },
                    None => {
                        proof {
                            lemma_kv_absent(pk, pc, platform@);
                            assert(kv_map(pk, pc).remove(platform@) =~= kv_map(pk, pc));
                        }
                        None
                    },
                };
                let ghost nm = pc_map(up.platforms@);
                proof {
                    lemma_kv_len(pc_keys(up.platforms@), pc_conns(up.platforms@));
                }
                if drop_empty && up.platforms.len() == 0 {
                    proof {
                        assert(self.user_keys() =~= ks.remove(j as int));
                        assert(self.user_maps() =~= vs.remove(j as int));
                        lemma_kv_remove(ks, vs, j as int);
                        assert(nm.dom() =~= Set::empty());
                        assert forall|k: int| 0 <= k < self.authenticated_users@.len() implies #[trigger] pc_wf(
                            self.authenticated_users@[k].platforms@,
                        ) by {
                            if k < j {
                                assert(self.authenticated_users@[k] == old_users[k]);
                            } else {
                                assert(self.authenticated_users@[k] == old_users[k + 1]);
                            }
                        }
                    }
                } else {
                    self.authenticated_users.insert(j, up);
                    proof {
                        assert(self.user_keys() =~= ks);
                        assert(self.user_maps() =~= vs.update(j as int, nm));
                        lemma_kv_update(ks, vs, j as int, nm);
                        if drop_empty {
                            assert(nm.dom().contains(pc_keys(self.authenticated_users@[j as int].platforms@)[0]));
                        }
                        assert forall|k: int| 0 <= k < self.authenticated_users@.len() implies #[trigger] pc_wf(
                            self.authenticated_users@[k].platforms@,
                        ) by {
                            if k != j {
                                assert(self.authenticated_users@[k] == old_users[k]);
                            }
                        }
                    }
                }
                removed
            },
        }
    }

    /// Forgets `connection_id` and hands back what was known of it; when it
    /// had authenticated as a user on a platform, that user goes offline on
    /// that platform (dropped when no platform is left).
    pub fn remove_authenticated(&mut self, connection_id: &str) -> (r: Option<AuthInfo>)
        requires
            old(self).wf(),
        ensures
            final(self).wf(),
            final(self).pending() == old(self).pending().remove(connection_id@),
            match r {
                Some(i) => {
                    &&& old(self).pending().contains_key(connection_id@)
                    &&& i@ == old(self).pending()[connection_id@]
                    &&& final(self).online() == if i@.user_id is Some && i@.platform is Some {
                        online_forget(old(self).online(), i@.user_id->0, i@.platform->0)
                    } else {
                        old(self).online()
                    }
                },
                None => !old(self).pending().contains_key(connection_id@) && final(self).online() == old(self).online(),
            },
            final(self).spec_auth_timeout() == old(self).spec_auth_timeout(),
            final(self).handler() == old(self).handler(),
    {
        let ghost ks = self.pending_keys();
        let ghost vs = self.pending_views();
        match self.find_pending(connection_id) {
            None => {
                proof {
                    lemma_kv_absent(ks, vs, connection_id@);
                    assert(kv_map(ks, vs).remove(connection_id@) =~= kv_map(ks, vs));
                }
                None
            },
            Some(i) => {
                proof {
                    lemma_kv_at(ks, vs, i as int);
                    lemma_kv_remove(ks, vs, i as int);
                }
                let info = self.pending_connections.remove(i);
                proof {
                    assert(self.pending_keys() =~= ks.remove(i as int));
                    assert(self.pending_views() =~= vs.remove(i as int));
                }
                match (&info.user_id, &info.platform) {
                    (Some(u), Some(p)) => {
                        let _ = self.forget_online(u.as_str(), p, true);
                    },
                    _ => {},
                }
                Some(info)
            },
        }
    }

    /// The connection of `user_id` on `platform`, if online there.
    pub fn get_user_connection_on_platform(&self, user_id: &str, platform: &DevicePlatform) -> (r: Option<String>)
        requires
            self.wf(),
        ensures
            opt_view(r) == if self.online().contains_key(user_id@) && self.online()[user_id@].contains_key(platform@) {
                Some(self.online()[user_id@][platform@])
            } else {
                None
            },
    {
        let ghost ks = self.user_keys();
        let ghost vs = self.user_maps();
        match self.find_user(user_id) {
            None => {
                proof {
                    lemma_kv_absent(ks, vs, user_id@);
                }
                None
            },
            Some(j) => {
                proof {
                    lemma_kv_at(ks, vs, j as int);
                    assert(pc_wf(self.authenticated_users@[j as int].platforms@));
                }
                let platforms = &self.authenticated_users[j].platforms;
                let ghost pk = pc_keys(platforms@);
                let ghost pc = pc_conns(platforms@);
                match find_platform(platforms, platform) {
                    Some(p) => {
                        proof {
                            lemma_kv_at(pk, pc, p as int);
                        }
                        Some(platforms[p].connection_id.clone())
                    },
                    None => {
                        proof {
                            lemma_kv_absent(pk, pc, platform@);
                        }
                        None
                    },
                }
            },
        }
    }

    /// The platforms `user_id` is online on (none if unknown), each once.
    pub fn get_user_online_platforms(&self, user_id: &str) -> (r: Vec<DevicePlatform>)
        requires
            self.wf(),
        ensures
            r@.map_values(|p: DevicePlatform| p@).no_duplicates(),
            r@.map_values(|p: DevicePlatform| p@).to_set() == if self.online().contains_key(user_id@) {
                self.online()[user_id@].dom()
            } else {
                Set::empty()
            },
    {
        let ghost ks = self.user_keys();
        let ghost vs = self.user_maps();
        let mut r: Vec<DevicePlatform> = Vec::new();
        match self.find_user(user_id) {
            None => {
                proof {
                    lemma_kv_absent(ks, vs, user_id@);
                    assert(r@.map_values(|p: DevicePlatform| p@).to_set() =~= Set::empty());
                }
            },
            Some(j) => {
                proof {
                    lemma_kv_at(ks, vs, j as int);
                    assert(pc_wf(self.authenticated_users@[j as int].platforms@));
                }
                let platforms = &self.authenticated_users[j].platforms;
                let ghost pk = pc_keys(platforms@);
                let mut i: usize = 0;
                while i < platforms.len()
                    invariant
                        i <= platforms@.len(),
                        pk == pc_keys(platforms@),
                        r@.map_values(|p: DevicePlatform| p@) == pk.take(i as int),
                    decreases platforms@.len() - i,
                {
                    let ghost before = r@;
                    let q = platforms[i].platform.copy_platform();
                    assert(q@ == pk[i as int]);
                    r.push(q);
                    assert(r@ == before.push(q));
                    assert(r@.map_values(|p: DevicePlatform| p@) =~= before.map_values(|p: DevicePlatform| p@).push(q@));
                    assert(r@.map_values(|p: DevicePlatform| p@) =~= pk.take(i + 1));
                    i += 1;
                }
                proof {
                    assert(pk.take(platforms@.len() as int) =~= pk);
                    lemma_kv_len(pk, pc_conns(platforms@));
                }
            },
        }
        r
    }

    /// Forces `user_id` off `platform`, handing back the connection it had
    /// there; the user stays known even with no platform left.
    pub fn force_logout_platform(&mut self, user_id: &str, platform: &DevicePlatform) -> (r: Option<String>)
        requires
            old(self).wf(),
        ensures
            final(self).wf(),
            final(self).online() == online_force_off(old(self).online(), user_id@, platform@),
            opt_view(r) == if old(self).online().contains_key(user_id@) && old(self).online()[user_id@].contains_key(
                platform@,
            ) {
                Some(old(self).online()[user_id@][platform@])
            } else {
                None
            },
            final(self).pending() == old(self).pending(),
            final(self).spec_auth_timeout() == old(self).spec_auth_timeout(),
            final(self).handler() == old(self).handler(),
    {
        self.forget_online(user_id, platform, false)
    }

    /// Drops the connections inactive longer than the timeout at `now`;
    /// returns how many were dropped.
    pub fn cleanup_timeout_connections_at(&mut self, now: u64) -> (removed: usize)
        requires
            old(self).wf(),
        ensures
            final(self).wf(),
            final(self).pending() == pending_after_sweep(old(self).pending(), old(self).spec_auth_timeout(), now),
            removed == old(self).pending().len() - final(self).pending().len(),
            final(self).online() == old(self).online(),
            final(self).spec_auth_timeout() == old(self).spec_auth_timeout(),
            final(self).handler() == old(self).handler(),
    {
        let ghost ks = self.pending_keys();
        let ghost vs = self.pending_views();
        let ghost t0 = self.pending();
        let mut kept: Vec<AuthInfo> = Vec::new();
        let mut i: usize = 0;
        let ghost kk = info_keys(kept@);
        assert(kv_map(info_keys(kept@), info_views(kept@)) =~= Map::new(
            |k: Seq<char>| ks.take(0).contains(k) && t0.contains_key(k) && !auth_inactive(t0[k], self.auth_timeout, now),
            |k: Seq<char>| t0[k],
        ));
        while i < self.pending_connections.len()
            invariant
                self.wf(),
                ks == self.pending_keys(),
                vs == self.pending_views(),
                t0 == self.pending(),
                i <= ks.len(),
                kv_wf(info_keys(kept@), info_views(kept@)),
                forall|x: Seq<char>|
                    #[trigger] info_keys(kept@).contains(x) ==> ks.take(i as int).contains(x),
                kv_map(info_keys(kept@), info_views(kept@)) == Map::new(
                    |k: Seq<char>| ks.take(i as int).contains(k) && t0.contains_key(k) && !auth_inactive(t0[k], self.auth_timeout, now),
                    |k: Seq<char>| t0[k],
                ),
            decreases ks.len() - i,
        {
            proof {
                lemma_kv_at(ks, vs, i as int);
            }
            let ghost c = ks[i as int];
            let ghost pre = ks.take(i as int);
            let ghost nt = ks.take(i + 1);
            let ghost okeys = info_keys(kept@);
            let ghost oviews = info_views(kept@);
            let ghost before = Map::new(
                |k: Seq<char>| pre.contains(k) && t0.contains_key(k) && !auth_inactive(t0[k], self.auth_timeout, now),
                |k: Seq<char>| t0[k],
            );
            let ghost after = Map::new(
                |k: Seq<char>| nt.contains(k) && t0.contains_key(k) && !auth_inactive(t0[k], self.auth_timeout, now),
                |k: Seq<char>| t0[k],
            );
            proof {
                lemma_take_next(ks, i as int);
                assert(vs[i as int] == self.pending_connections@[i as int]@);
            }
            let e = &self.pending_connections[i];
            let inactive = now > e.last_activity && now - e.last_activity > self.auth_timeout;
            if !inactive {
                let copy = e.copy_info();
                let ghost cv = copy@;
                kept.push(copy);
                proof {
                    assert(info_keys(kept@) =~= okeys.push(c));
                    assert(info_views(kept@) =~= oviews.push(cv));
                    assert(!okeys.contains(c));
                    lemma_kv_push(okeys, oviews, c, cv);
                    assert(after =~= before.insert(c, cv));
                    assert forall|x: Seq<char>|
                        #[trigger] info_keys(kept@).contains(x) implies nt.contains(x) by {
                        if x != c {
                            assert(okeys.contains(x));
                        }
                    }
                }
            } else {
                proof {
                    assert(after =~= before);
                }
            }
            i += 1;
        }
        proof {
            assert(ks.take(ks.len() as int) =~= ks);
            lemma_kv_len(ks, vs);
            lemma_kv_len(info_keys(kept@), info_views(kept@));
            let a = info_keys(kept@).to_set();
            let b = ks.to_set();
            assert(a.subset_of(b)) by {
                assert forall|x: Seq<char>| a.contains(x) implies b.contains(x) by {
                    assert(ks.take(ks.len() as int).contains(x));
                }
            }
            vstd::set_lib::lemma_len_subset(a, b);
            assert(Map::new(
                |k: Seq<char>| ks.contains(k) && t0.contains_key(k) && !auth_inactive(t0[k], self.auth_timeout, now),
                |k: Seq<char>| t0[k],
            ) =~= pending_after_sweep(t0, self.auth_timeout, now));
        }
        let before_len = self.pending_connections.len();
        let after_len = kept.len();
        self.pending_connections = kept;
        before_len - after_len
    }

    /// Number of connections known to the manager.
    pub fn get_pending_count(&self) -> (n: usize)
        requires
            self.wf(),
        ensures
            n == self.pending().len(),
    {
        proof {
            lemma_kv_len(self.pending_keys(), self.pending_views());
        }
        self.pending_connections.len()
    }

    /// Number of users online on some platform (or forced off all of them).
    pub fn get_authenticated_user_count(&self) -> (n: usize)
        requires
            self.wf(),
        ensures
            n == self.online().len(),
    {
        proof {
            lemma_kv_len(self.user_keys(), self.user_maps());
        }
        self.authenticated_users.len()
    }
}

/// The pending table once the credentials of pending connection `c` were
/// taken in at `now` and the handler answered `status`.
pub open spec fn pending_after_auth(t: PendingTable, c: Seq<char>, now: u64, status: AuthStatusView) -> PendingTable {
    let begun = AuthInfoView { last_activity: now, ..t[c] };
    match status {
        AuthStatusView::Authenticated(u) => t.insert(
            c,
            AuthInfoView { status: AuthStatusView::Authenticated(u), user_id: Some(u), ..begun },
        ),
        _ => t.insert(c, AuthInfoView { status: status, ..begun }),
    }
}

/// The online table once pending connection `c` of `t` was answered
/// `status`.
pub open spec fn online_after_auth(t: PendingTable, o: OnlineTable, c: Seq<char>, status: AuthStatusView) -> OnlineTable {
    match (status, t[c].platform) {
        (AuthStatusView::Authenticated(u), Some(p)) => online_record(o, u, p, c),
        _ => o,
    }
}

/// Whether `answer` is one the handler `h` may give to the credentials
/// `auth_data` of a connection waiting as `info`, with the platform, device
/// and application version it reported.
pub open spec fn answered_on<A: AuthHandler>(h: A, auth_data: Seq<u8>, info: AuthInfoView, answer: Result<String, FlareError>) -> bool {
    h.answers_with_platform(auth_data, info.platform, info.device_id, info.app_version, answer)
}

/// The status an answer of the authentication handler leaves a
/// connection in.
pub open spec fn status_of_answer(answer: Result<String, FlareError>) -> AuthStatusView {
    match answer {
        Ok(u) => AuthStatusView::Authenticated(u@),
        Err(_) => AuthStatusView::Failed,
    }
}

impl<A: AuthHandler> AuthManager<A> {
    /// Takes in the credentials `auth_data` of `connection_id` at `now`. An
    /// unknown (or swept) connection is refused with
    /// [`ErrorCode::AuthenticationExpired`]. Otherwise the handler is asked,
    /// with the platform, device and application version the connection
    /// reported, and its answer is recorded: the connection ends
    /// authenticated for the user it named, and online on its platform if
    /// it has one, or failed.
    pub fn handle_auth_message_at(&mut self, connection_id: &str, auth_data: Vec<u8>, now: u64) -> (r: Result<
        AuthStatus,
        FlareError,
    >)
        requires
            old(self).wf(),
        ensures
            final(self).wf(),
            r is Err <==> !old(self).pending().contains_key(connection_id@),
            r is Err ==> r->Err_0.code == ErrorCode::AuthenticationExpired && r->Err_0.message@
                == unknown_connection_message() && final(self).pending() == old(self).pending()
                && final(self).online() == old(self).online(),
            r is Ok ==> {
                &&& (r->Ok_0@ is Authenticated || r->Ok_0@ is Failed)
                &&& final(self).pending() == pending_after_auth(old(self).pending(), connection_id@, now, r->Ok_0@)
                &&& final(self).online() == online_after_auth(
                    old(self).pending(),
                    old(self).online(),
                    connection_id@,
                    r->Ok_0@,
                )
            },
            final(self).spec_auth_timeout() == old(self).spec_auth_timeout(),
            final(self).handler() == old(self).handler(),
            r is Ok ==> exists|answer: Result<String, FlareError>|
                #[trigger] answered_on(old(self).handler(), auth_data@, old(self).pending()[connection_id@], answer)
                    && r->Ok_0@ == status_of_answer(answer),
    {
        let ghost data = auth_data@;
        match self.begin_auth_at(connection_id, now) {
            Err(e) => Err(e),
            Ok((platform, device_id, app_version)) => {
                let outcome = self.auth_handler.authenticate_with_platform(
                    auth_data,
                    copy_opt_platform(&platform),
                    device_id,
                    app_version,
                );
                let ghost answer = outcome;
                let status = self.finish_auth(connection_id, platform, outcome);
                proof {
                    assert(answered_on(old(self).handler(), data, old(self).pending()[connection_id@], answer));
                    assert(status@ == status_of_answer(answer));
                }
                Ok(status)
            },
        }
    }

    /// [`AuthManager::handle_auth_message_at`] at the current time.
    pub fn handle_auth_message(&mut self, connection_id: &str, auth_data: Vec<u8>) -> (r: Result<
        AuthStatus,
        FlareError,
    >)
        requires
            old(self).wf(),
        ensures
            final(self).wf(),
            r is Err <==> !old(self).pending().contains_key(connection_id@),
            r is Err ==> r->Err_0.code == ErrorCode::AuthenticationExpired
                && final(self).pending() == old(self).pending(),
            r is Err ==> final(self).online() == old(self).online(),
            r is Ok ==> (r->Ok_0@ is Authenticated || r->Ok_0@ is Failed),
            r is Ok ==> exists|now: u64|
                #[trigger] pending_after_auth(old(self).pending(), connection_id@, now, r->Ok_0@)
                    == final(self).pending(),
            r is Ok ==> final(self).online() == online_after_auth(
                old(self).pending(),
                old(self).online(),
                connection_id@,
                r->Ok_0@,
            ),
            final(self).handler() == old(self).handler(),
            r is Ok ==> exists|answer: Result<String, FlareError>|
                #[trigger] answered_on(old(self).handler(), auth_data@, old(self).pending()[connection_id@], answer)
                    && r->Ok_0@ == status_of_answer(answer),
    {
        let now = current_timestamp_ms();
        let r = self.handle_auth_message_at(connection_id, auth_data, now);
        proof {
            if r is Ok {
                assert(pending_after_auth(old(self).pending(), connection_id@, now, r->Ok_0@) == self.pending());
            }
        }
        r
    }
}

impl<A> AuthManager<A> {
    /// [`AuthManager::add_pending_connection_at`] at the current time.
    pub fn add_pending_connection(&mut self, connection_id: String)
        requires
            old(self).wf(),
        ensures
            final(self).wf(),
            exists|now: u64|
                final(self).pending() == old(self).pending().insert(connection_id@, #[trigger] fresh_pending(connection_id@, now)),
            final(self).online() == old(self).online(),
            final(self).spec_auth_timeout() == old(self).spec_auth_timeout(),
            final(self).handler() == old(self).handler(),
    {
        let now = current_timestamp_ms();
        let ghost cv = connection_id@;
        self.add_pending_connection_at(connection_id, now);
        assert(self.pending() == old(self).pending().insert(cv, fresh_pending(cv, now)));
    }

    /// [`AuthManager::set_connection_platform_at`] at the current time.
    pub fn set_connection_platform(
        &mut self,
        connection_id: &str,
        platform: DevicePlatform,
        device_id: Option<String>,
        app_version: Option<String>,
    )
        requires
            old(self).wf(),
        ensures
            final(self).wf(),
            final(self).pending().dom() == old(self).pending().dom(),
            old(self).pending().contains_key(connection_id@) ==> {
                let info = final(self).pending()[connection_id@];
                &&& info.platform == Some(platform@)
                &&& info.device_id == opt_view(device_id)
                &&& info.app_version == opt_view(app_version)
                &&& info == AuthInfoView {
                    platform: info.platform,
                    device_id: info.device_id,
                    app_version: info.app_version,
                    last_activity: info.last_activity,
                    ..old(self).pending()[connection_id@]
                }
            },
            forall|k: Seq<char>|
                k != connection_id@ && #[trigger] old(self).pending().contains_key(k) ==> final(self).pending()[k]
                    == old(self).pending()[k],
            final(self).online() == old(self).online(),
            final(self).spec_auth_timeout() == old(self).spec_auth_timeout(),
            final(self).handler() == old(self).handler(),
    {
        let now = current_timestamp_ms();
        self.set_connection_platform_at(connection_id, platform, device_id, app_version, now);
    }

    /// [`AuthManager::cleanup_timeout_connections_at`] at the current time.
    pub fn cleanup_timeout_connections(&mut self) -> (removed: usize)
        requires
            old(self).wf(),
        ensures
            final(self).wf(),
            exists|now: u64|
                final(self).pending() == #[trigger] pending_after_sweep(old(self).pending(), old(self).spec_auth_timeout(), now),
            removed == old(self).pending().len() - final(self).pending().len(),
            final(self).online() == old(self).online(),
            final(self).spec_auth_timeout() == old(self).spec_auth_timeout(),
            final(self).handler() == old(self).handler(),
    {
        let now = current_timestamp_ms();
        let removed = self.cleanup_timeout_connections_at(now);
        assert(self.pending() == pending_after_sweep(old(self).pending(), old(self).spec_auth_timeout(), now));
        removed
    }
}

/// Laws of the authentication manager, over the tables its operations
/// produce.
///
/// After a user is recorded on a platform, that platform's connection of
/// the user is the recorded one, and the user's other platforms are kept.
pub proof fn lemma_recorded_connection_found(t: OnlineTable, u: Seq<char>, p: PlatformView, c: Seq<char>, q: PlatformView)
    ensures
        online_record(t, u, p, c).contains_key(u),
        online_record(t, u, p, c)[u].contains_key(p),
        online_record(t, u, p, c)[u][p] == c,
        q != p && t.contains_key(u) && t[u].contains_key(q) ==> online_record(t, u, p, c)[u].contains_key(q)
            && online_record(t, u, p, c)[u][q] == t[u][q],
{
}

/// After a user goes offline on a platform, no connection of the user is
/// found there.
pub proof fn lemma_forgotten_platform_gone(t: OnlineTable, u: Seq<char>, p: PlatformView)
    ensures
        online_forget(t, u, p).contains_key(u) ==> !online_forget(t, u, p)[u].contains_key(p),
        online_force_off(t, u, p).contains_key(u) ==> !online_force_off(t, u, p)[u].contains_key(p),
{
}

/// The sweep keeps exactly the connections active within the timeout.
pub proof fn lemma_sweep_keeps_active(t: PendingTable, timeout: u64, now: u64)
    ensures
        forall|k: Seq<char>| #[trigger] pending_after_sweep(t, timeout, now).contains_key(k) ==> !auth_inactive(
            pending_after_sweep(t, timeout, now)[k],
            timeout,
            now,
        ),
        forall|k: Seq<char>|
            t.contains_key(k) && !auth_inactive(t[k], timeout, now) ==> #[trigger] pending_after_sweep(
                t,
                timeout,
                now,
            ).contains_key(k),
{
}

/// A sweep measures a pending connection's inactivity from its last
/// recorded activity alone: one whose activity was recorded at `t`
/// (whatever its registration time) stays when at most the timeout has
/// passed since `t` at `now`, and is dropped when more has.
pub proof fn lemma_pending_sweep_from_last_activity(t: PendingTable, c: Seq<char>, at: u64, timeout: u64, now: u64)
    requires
        t.contains_key(c),
    ensures
        ({
            let touched = t.insert(c, AuthInfoView { last_activity: at, ..t[c] });
            &&& now <= at || now - at <= timeout ==> pending_after_sweep(touched, timeout, now).contains_key(c)
                && pending_after_sweep(touched, timeout, now)[c] == touched[c]
            &&& now > at && now - at > timeout ==> !pending_after_sweep(touched, timeout, now).contains_key(c)
        }),
{
}

/// A connection whose credentials were answered at `t` survives a sweep at
/// `now` within the timeout of `t`, keeping the status the answer gave it.
pub proof fn lemma_answered_connection_survives_sweep(
    t: PendingTable,
    c: Seq<char>,
    at: u64,
    status: AuthStatusView,
    timeout: u64,
    now: u64,
)
    requires
        t.contains_key(c),
        at <= now,
        now - at <= timeout,
    ensures
        pending_after_sweep(pending_after_auth(t, c, at, status), timeout, now).contains_key(c),
        pending_after_sweep(pending_after_auth(t, c, at, status), timeout, now)[c].status == status,
        pending_after_sweep(pending_after_auth(t, c, at, status), timeout, now)[c].last_activity == at,
{
}

} // verus!
