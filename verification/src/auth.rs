//! Authentication outcomes and the authentication state of connections.

use crate::device::{copy_opt_string, copy_string_pairs, opt_view, pairs_view, DevicePlatform, PlatformView, StringPairs};
use crate::utils::current_timestamp_ms;
use vstd::prelude::*;

verus! {

/// What an authenticator decided about a token.
#[derive(Debug, Clone)]
pub struct AuthResult {
    /// Whether the token was accepted.
    pub authenticated: bool,
    /// The user the token belongs to, when accepted and known.
    pub user_id: Option<String>,
    /// Why the token was refused.
    pub error_message: Option<String>,
    /// Extra facts about the user, when the authenticator supplies them.
    pub user_metadata: Option<StringPairs>,
}

impl AuthResult {
    /// An acceptance for `user_id`.
    pub fn success(user_id: Option<String>) -> (r: AuthResult)
        ensures
            r.authenticated,
            r.user_id == user_id,
            r.error_message is None,
            r.user_metadata is None,
    {
        AuthResult { authenticated: true, user_id, error_message: None, user_metadata: None }
    }

    /// An acceptance for `user_id` with facts about the user.
    pub fn success_with_metadata(user_id: Option<String>, metadata: StringPairs) -> (r: AuthResult)
        ensures
            r.authenticated,
            r.user_id == user_id,
            r.error_message is None,
            r.user_metadata == Some(metadata),
    {
        AuthResult { authenticated: true, user_id, error_message: None, user_metadata: Some(metadata) }
    }

    /// A refusal with its reason.
    pub fn failure(error_message: String) -> (r: AuthResult)
        ensures
            !r.authenticated,
            r.user_id is None,
            r.error_message == Some(error_message),
            r.user_metadata is None,
    {
        AuthResult { authenticated: false, user_id: None, error_message: Some(error_message), user_metadata: None }
    }

    /// A copy of the result.
    pub fn copy_result(&self) -> (r: AuthResult)
        ensures
            r.authenticated == self.authenticated,
            r.user_id == self.user_id,
            r.error_message == self.error_message,
            r.user_metadata is Some == self.user_metadata is Some,
            r.user_metadata is Some ==> pairs_view(r.user_metadata.unwrap()@) == pairs_view(self.user_metadata.unwrap()@),
    {
        AuthResult {
            authenticated: self.authenticated,
            user_id: self.user_id.clone(),
            error_message: self.error_message.clone(),
            user_metadata: match &self.user_metadata {
                Some(m) => Some(copy_string_pairs(m)),
                None => None,
            },
        }
    }
}

/// The authenticator that accepts every connection, without a user.
pub struct DefaultAuthenticator;

impl DefaultAuthenticator {
    /// Accepts any token: an acceptance without a user.
    pub fn authenticate(&self, token: &str, connection_id: &str) -> (r: AuthResult)
        ensures
            r.authenticated,
            r.user_id is None,
            r.error_message is None,
            r.user_metadata is None,
    {
        AuthResult::success(None)
    }

    /// Every connection counts as authenticated.
    pub fn is_authenticated(&self, connection_id: &str) -> (r: bool)
        ensures
            r,
    {
        true
    }
}

/// Authentication progress of a connection.
#[derive(Debug, Clone, Copy, PartialEq, Eq, Structural)]
pub enum AuthState {
    /// Waiting for credentials.
    Pending,
    /// Credentials are being checked.
    Authenticating,
    /// Credentials accepted.
    Authenticated,
    /// Credentials refused.
    Failed,
}

/// A connection (of type `C`) with its authentication state; times in
/// milliseconds.
pub struct AuthenticatedConnection<C> {
    pub connection: C,
    pub auth_state: AuthState,
    /// The user, once authenticated.
    pub user_id: Option<String>,
    /// When the connection was registered.
    pub created_at: u64,
    /// How long the connection may stay unauthenticated.
    pub auth_timeout_ms: u64,
}

/// A connection waiting for credentials is past its deadline at `now`.
pub open spec fn auth_deadline_passed(created_at: u64, auth_timeout_ms: u64, now: u64) -> bool {
    now > created_at + auth_timeout_ms
}

impl<C> AuthenticatedConnection<C> {
    /// A connection registered now, waiting for credentials.
    pub fn new(connection: C, auth_timeout_ms: u64) -> (c: AuthenticatedConnection<C>)
        ensures
            c.connection == connection,
            c.auth_state == AuthState::Pending,
            c.user_id is None,
            c.auth_timeout_ms == auth_timeout_ms,
    {
        let now = current_timestamp_ms();
        AuthenticatedConnection::new_at(connection, auth_timeout_ms, now)
    }

    /// A connection registered at `now`, waiting for credentials.
    pub fn new_at(connection: C, auth_timeout_ms: u64, now: u64) -> (c: AuthenticatedConnection<C>)
        ensures
            c == (AuthenticatedConnection {
                connection,
                auth_state: AuthState::Pending,
                user_id: None,
                created_at: now,
                auth_timeout_ms,
            }),
    {
        AuthenticatedConnection { connection, auth_state: AuthState::Pending, user_id: None, created_at: now, auth_timeout_ms }
    }

    /// Whether the authentication deadline has passed by now. The answer
    /// depends on the clock; see [`AuthenticatedConnection::is_auth_timeout_at`].
    pub fn is_auth_timeout(&self) -> (r: bool)
        ensures
            exists|now: u64| r == #[trigger] auth_deadline_passed(self.created_at, self.auth_timeout_ms, now),
    {
        let now = current_timestamp_ms();
        self.is_auth_timeout_at(now)
    }

    /// Whether the authentication deadline has passed at `now`.
    pub fn is_auth_timeout_at(&self, now: u64) -> (r: bool)
        ensures
            r == auth_deadline_passed(self.created_at, self.auth_timeout_ms, now),
    {
        now > self.created_at && now - self.created_at > self.auth_timeout_ms
    }

    /// Sets the authentication state.
    pub fn set_auth_state(&mut self, state: AuthState)
        ensures
            *final(self) == (AuthenticatedConnection { auth_state: state, ..*old(self) }),
    {
        self.auth_state = state;
    }

    /// Records the user and marks the connection authenticated.
    pub fn set_user_id(&mut self, user_id: String)
        ensures
            *final(self) == (AuthenticatedConnection {
                user_id: Some(user_id),
                auth_state: AuthState::Authenticated,
                ..*old(self)
            }),
    {
        self.user_id = Some(user_id);
        self.auth_state = AuthState::Authenticated;
    }
}

impl<C: Copy> AuthenticatedConnection<C> {
    /// A copy of the entry.
    pub fn copy_entry(&self) -> (c: AuthenticatedConnection<C>)
        ensures
            c.connection == self.connection,
            c.auth_state == self.auth_state,
            opt_view(c.user_id) == opt_view(self.user_id),
            c.created_at == self.created_at,
            c.auth_timeout_ms == self.auth_timeout_ms,
    {
        AuthenticatedConnection {
            connection: self.connection,
            auth_state: self.auth_state,
            user_id: copy_opt_string(&self.user_id),
            created_at: self.created_at,
            auth_timeout_ms: self.auth_timeout_ms,
        }
    }
}

/// Authentication status of a connection, with the user once known.
#[derive(Debug, Clone)]
pub enum AuthStatus {
    /// Waiting for credentials.
    Pending,
    /// Accepted, for this user.
    Authenticated(String),
    /// Refused.
    Failed,
    /// No credentials arrived in time.
    Timeout,
}

/// What is known about a connection's authentication; times in
/// milliseconds.
#[derive(Debug, Clone)]
pub struct AuthInfo {
    pub connection_id: String,
    pub status: AuthStatus,
    /// When the connection arrived.
    pub connected_at: u64,
    /// When the connection was last active.
    pub last_activity: u64,
    /// The user, once authenticated.
    pub user_id: Option<String>,
    /// The client platform, when reported.
    pub platform: Option<DevicePlatform>,
    /// The client device, when reported.
    pub device_id: Option<String>,
    /// The client application version, when reported.
    pub app_version: Option<String>,
}


/// The view of an [`AuthStatus`].
pub enum AuthStatusView {
    Pending,
    Authenticated(Seq<char>),
    Failed,
    Timeout,
}

impl View for AuthStatus {
    type V = AuthStatusView;

    open spec fn view(&self) -> AuthStatusView {
        match self {
            AuthStatus::Pending => AuthStatusView::Pending,
            AuthStatus::Authenticated(u) => AuthStatusView::Authenticated(u@),
            AuthStatus::Failed => AuthStatusView::Failed,
            AuthStatus::Timeout => AuthStatusView::Timeout,
        }
    }
}

impl AuthStatus {
    /// A copy of the status.
    pub fn copy_status(&self) -> (s: AuthStatus)
        ensures
            s@ == self@,
    {
        match self {
            AuthStatus::Pending => AuthStatus::Pending,
            AuthStatus::Authenticated(u) => AuthStatus::Authenticated(u.clone()),
            AuthStatus::Failed => AuthStatus::Failed,
            AuthStatus::Timeout => AuthStatus::Timeout,
        }
    }
}

/// The view of an [`AuthInfo`].
pub struct AuthInfoView {
    pub connection_id: Seq<char>,
    pub status: AuthStatusView,
    pub connected_at: u64,
    pub last_activity: u64,
    pub user_id: Option<Seq<char>>,
    pub platform: Option<PlatformView>,
    pub device_id: Option<Seq<char>>,
    pub app_version: Option<Seq<char>>,
}

/// The view of an optional platform.
pub open spec fn opt_platform_view(p: Option<DevicePlatform>) -> Option<PlatformView> {
    match p {
        Some(v) => Some(v@),
        None => None,
    }
}

impl View for AuthInfo {
    type V = AuthInfoView;

    open spec fn view(&self) -> AuthInfoView {
        AuthInfoView {
            connection_id: self.connection_id@,
            status: self.status@,
            connected_at: self.connected_at,
            last_activity: self.last_activity,
            user_id: opt_view(self.user_id),
            platform: opt_platform_view(self.platform),
            device_id: opt_view(self.device_id),
            app_version: opt_view(self.app_version),
        }
    }
}

/// A copy of an optional platform.
pub fn copy_opt_platform(p: &Option<DevicePlatform>) -> (r: Option<DevicePlatform>)
    ensures
        opt_platform_view(r) == opt_platform_view(*p),
{
    match p {
        Some(v) => Some(v.copy_platform()),
        None => None,
    }
}

impl AuthInfo {
    /// A copy of the information.
    pub fn copy_info(&self) -> (i: AuthInfo)
        ensures
            i@ == self@,
    {
        AuthInfo {
            connection_id: self.connection_id.clone(),
            status: self.status.copy_status(),
            connected_at: self.connected_at,
            last_activity: self.last_activity,
            user_id: copy_opt_string(&self.user_id),
            platform: copy_opt_platform(&self.platform),
            device_id: copy_opt_string(&self.device_id),
            app_version: copy_opt_string(&self.app_version),
        }
    }
}

} // verus!
