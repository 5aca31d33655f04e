//! Authentication requests over the user connection manager: the
//! application's authentication handler judges the token, and the verdict
//! is applied to the manager.

use crate::auth_manager::AuthHandler;
use crate::device::{platform_from_name, DevicePlatform, PlatformView};
use crate::error::{ErrorCode, FlareError};
use crate::strings::concat3;
use crate::user_connections::{authenticated_info, users_record, UserConnectionManager};
use vstd::prelude::*;
use vstd::utf8::encode_utf8;
use vstd::string::StrSliceExecFns;

verus! {

/// What became of an authentication request, and what the connection is
/// to be answered.
pub enum AuthRequestOutcome {
    /// Accepted for this user; the connection is answered with a success.
    Accepted { user_id: String },
    /// Refused; the connection, if `answer`, is answered with `message`
    /// and then disconnected.
    Rejected { message: String, answer: bool },
}

/// The prefix of the message a refused connection is answered with.
pub open spec fn refusal_prefix() -> Seq<char> {
    "认证失败: "@
}

/// What taking an authentication request of connection `c`, reported on
/// platform `p`, at `now`, did to the manager `m0` (giving `m1`), given its
/// outcome `r`. An error: the underlying manager did not know `c`, and only
/// its pending entry is gone. An acceptance: `c` was known, is no longer
/// pending, and is bound to the user, who is recorded as authenticated at
/// `now`. A refusal: the answer is owed to a known connection, and a known
/// connection still waiting for credentials is disconnected.
pub open spec fn request_applied<H>(
    m0: UserConnectionManager<H>,
    m1: UserConnectionManager<H>,
    c: Seq<char>,
    p: PlatformView,
    now: u64,
    r: Result<AuthRequestOutcome, FlareError>,
) -> bool {
    match r {
        Err(e) => {
            &&& !m0.base().conns().contains_key(c)
            &&& e.code == ErrorCode::ConnectionFailed
            &&& m1.pending() == m0.pending().remove(c)
            &&& m1.users() == m0.users()
            &&& m1.links() == m0.links()
        },
        Ok(AuthRequestOutcome::Accepted { user_id: u }) => {
            &&& m0.base().conns().contains_key(c)
            &&& m1.pending() == m0.pending().remove(c)
            &&& m1.users() == users_record(m0.users(), u@, p, authenticated_info(u@, p, None, now))
            &&& m1.links() == m0.links().insert(c, (u@, p))
        },
        Ok(AuthRequestOutcome::Rejected { message, answer }) => {
            &&& answer == m0.base().conns().contains_key(c)
            &&& message@.len() >= refusal_prefix().len()
            &&& message@.subrange(0, refusal_prefix().len() as int) == refusal_prefix()
            &&& m1.users() == m0.users()
            &&& m1.links() == m0.links()
            &&& if m0.pending().contains_key(c) && m0.base().conns().contains_key(c) {
                &&& m1.pending() == m0.pending().remove(c)
                &&& m1.base().conns() == m0.base().conns().remove(c)
            } else {
                m1 == m0
            }
        },
    }
}

/// What applying the handler's `verdict` on the credentials of connection
/// `c`, reported on platform `p`, at `now`, did (see
/// [`request_applied`]), and the outcome `r` it gave: for an accepted user,
/// an error exactly when the underlying manager did not know `c`, else
/// that user accepted; for a refusal, a rejection answered with
/// [`refusal_prefix`] followed by the refusal's message.
pub open spec fn verdict_applied<H>(
    m0: UserConnectionManager<H>,
    m1: UserConnectionManager<H>,
    c: Seq<char>,
    p: PlatformView,
    now: u64,
    verdict: Result<String, FlareError>,
    r: Result<AuthRequestOutcome, FlareError>,
) -> bool {
    &&& request_applied(m0, m1, c, p, now, r)
    &&& match verdict {
        Ok(u) => {
            &&& (r is Err <==> !m0.base().conns().contains_key(c))
            &&& r is Ok ==> r->Ok_0 is Accepted && r->Ok_0->Accepted_user_id@ == u@
        },
        Err(e) => {
            &&& r is Ok
            &&& r->Ok_0 is Rejected
            &&& r->Ok_0->Rejected_message@ == refusal_prefix() + e.message@
        },
    }
}

/// Takes authentication requests for the connections of a
/// [`UserConnectionManager`] (over handles `H`), with the application's
/// authentication handler `A`.
pub struct ServerAuthHandler<H, A> {
    user_connection_manager: UserConnectionManager<H>,
    auth_handler: A,
}

impl<H, A: AuthHandler> ServerAuthHandler<H, A> {
    /// The user connection manager.
    pub closed spec fn manager(&self) -> UserConnectionManager<H> {
        self.user_connection_manager
    }

    /// The authentication handler.
    pub closed spec fn handler(&self) -> A {
        self.auth_handler
    }

    /// A request taker over `user_connection_manager` with `auth_handler`.
    pub fn new(user_connection_manager: UserConnectionManager<H>, auth_handler: A) -> (h: Self)
        ensures
            h.manager() == user_connection_manager,
            h.handler() == auth_handler,
    {
        ServerAuthHandler { user_connection_manager, auth_handler }
    }

    /// The user connection manager.
    pub fn user_connection_manager(&self) -> (m: &UserConnectionManager<H>)
        ensures
            *m == self.manager(),
    {
        &self.user_connection_manager
    }

    /// Takes the authentication request of `connection_id` (claiming
    /// `user_id`, on the platform named `platform_str`, with `token`) at
    /// `now`. The handler is asked about the token's bytes with the
    /// platform, and its verdict is applied by
    /// [`ServerAuthHandler::apply_auth_verdict_at`]. If it accepts, the
    /// authentication is completed for the user it names (an error there, a
    /// connection the underlying manager does not know, is handed back). If
    /// it refuses, the connection is disconnected when it is still waiting
    /// for credentials, and is to be answered with the refusal if the
    /// underlying manager knew it.
    pub fn handle_auth_request_at(
        &mut self,
        connection_id: String,
        user_id: String,
        platform_str: &str,
        token: String,
        now: u64,
    ) -> (r: Result<AuthRequestOutcome, FlareError>)
        requires
            old(self).manager().wf(),
            old(self).manager().spec_stats().pending_auth_connections > 0,
            old(self).manager().spec_stats().active_users < usize::MAX,
            old(self).manager().spec_stats().total_connections < usize::MAX,
            old(self).manager().spec_stats().active_connections < usize::MAX,
            old(self).manager().spec_stats().total_users < usize::MAX,
        ensures
            final(self).manager().wf(),
            final(self).handler() == old(self).handler(),
            exists|verdict: Result<String, FlareError>|
                #[trigger] old(self).handler().answers_with_platform(
                    encode_utf8(token@),
                    Some(platform_from_name(platform_str@)),
                    None,
                    None,
                    verdict,
                ) && verdict_applied(
                    old(self).manager(),
                    final(self).manager(),
                    connection_id@,
                    platform_from_name(platform_str@),
                    now,
                    verdict,
                    r,
                ),
    {
        let platform = DevicePlatform::from_str(platform_str);
        let auth_data = token.as_str().as_bytes_vec();
        let verdict = self.auth_handler.authenticate_with_platform(auth_data, Some(platform.copy_platform()), None, None);
        let ghost v = verdict;
        let r = self.apply_auth_verdict_at(connection_id, platform, verdict, now);
        proof {
            assert(old(self).handler().answers_with_platform(
                encode_utf8(token@),
                Some(platform_from_name(platform_str@)),
                None,
                None,
                v,
            ));
        }
        r
    }

    /// Applies the handler's `verdict` on the credentials of
    /// `connection_id`, reported on `platform`, at `now`. A user it names is
    /// accepted: the authentication is completed for that user (see
    /// [`UserConnectionManager::complete_authentication_at`]), or, for a
    /// connection the underlying manager does not know, the error is handed
    /// back. A refusal is answered with [`refusal_prefix`] followed by its
    /// message, to a connection the underlying manager knows, and the
    /// connection is disconnected when it is still waiting for credentials.
    pub fn apply_auth_verdict_at(
        &mut self,
        connection_id: String,
        platform: DevicePlatform,
        verdict: Result<String, FlareError>,
        now: u64,
    ) -> (r: Result<AuthRequestOutcome, FlareError>)
        requires
            old(self).manager().wf(),
            verdict is Ok ==> {
                &&& old(self).manager().spec_stats().pending_auth_connections > 0
                &&& old(self).manager().spec_stats().active_users < usize::MAX
                &&& old(self).manager().spec_stats().total_connections < usize::MAX
                &&& old(self).manager().spec_stats().active_connections < usize::MAX
                &&& old(self).manager().spec_stats().total_users < usize::MAX
            },
            verdict is Err && old(self).manager().pending().contains_key(connection_id@)
                && old(self).manager().base().conns().contains_key(connection_id@)
                ==> old(self).manager().spec_stats().pending_auth_connections > 0,
        ensures
            final(self).manager().wf(),
            final(self).handler() == old(self).handler(),
            verdict_applied(old(self).manager(), final(self).manager(), connection_id@, platform@, now, verdict, r),
    {
        match verdict {
            Ok(uid) => {
                let accepted = uid.clone();
                match self.user_connection_manager.complete_authentication_at(connection_id, uid, platform, None, now) {
                    Err(e) => Err(e),
                    Ok(()) => Ok(AuthRequestOutcome::Accepted { user_id: accepted }),
                }
            },
            Err(e) => {
                let message = concat3("认证失败: ", e.message.as_str(), "");
                proof {
                    reveal_strlit("");
                    assert(message@ =~= refusal_prefix() + e.message@);
                    assert(message@.subrange(0, refusal_prefix().len() as int) =~= refusal_prefix());
                }
                let answer = self.user_connection_manager.get_connection_manager().get_connection(connection_id.as_str()).is_some();
                let _ = self.user_connection_manager.disconnect_unauthenticated_connection(connection_id.as_str());
                Ok(AuthRequestOutcome::Rejected { message, answer })
            },
        }
    }

    /// [`ServerAuthHandler::handle_auth_request_at`] at the current time.
    /// The time recorded for an accepted user is the clock's, so the outcome
    /// is stated for some reading of it.
    pub fn handle_auth_request(
        &mut self,
        connection_id: String,
        user_id: String,
        platform_str: &str,
        token: String,
    ) -> (r: Result<AuthRequestOutcome, FlareError>)
        requires
            old(self).manager().wf(),
            old(self).manager().spec_stats().pending_auth_connections > 0,
            old(self).manager().spec_stats().active_users < usize::MAX,
            old(self).manager().spec_stats().total_connections < usize::MAX,
            old(self).manager().spec_stats().active_connections < usize::MAX,
            old(self).manager().spec_stats().total_users < usize::MAX,
        ensures
            final(self).manager().wf(),
            final(self).handler() == old(self).handler(),
            exists|now: u64, verdict: Result<String, FlareError>|
                old(self).handler().answers_with_platform(
                    encode_utf8(token@),
                    Some(platform_from_name(platform_str@)),
                    None,
                    None,
                    verdict,
                ) && #[trigger] verdict_applied(
                    old(self).manager(),
                    final(self).manager(),
                    connection_id@,
                    platform_from_name(platform_str@),
                    now,
                    verdict,
                    r,
                ),
    {
        let now = crate::utils::current_timestamp_ms();
        let ghost c = connection_id@;
        let ghost t = token@;
        let r = self.handle_auth_request_at(connection_id, user_id, platform_str, token, now);
        proof {
            let v = choose|v: Result<String, FlareError>|
                #[trigger] old(self).handler().answers_with_platform(
                    encode_utf8(t),
                    Some(platform_from_name(platform_str@)),
                    None,
                    None,
                    v,
                ) && verdict_applied(
                    old(self).manager(),
                    self.manager(),
                    c,
                    platform_from_name(platform_str@),
                    now,
                    v,
                    r,
                );
            assert(verdict_applied(old(self).manager(), self.manager(), c, platform_from_name(platform_str@), now, v, r));
        }
        r
    }
}

} // verus!
