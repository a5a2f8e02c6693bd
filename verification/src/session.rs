//! The request-scoped session: a store handle paired with the identity, if
//! any, that the request's cookie resolved to, plus the login operation that
//! issues a fresh session token.

use vstd::prelude::*;

use crate::models::{User, UserView};
use crate::pool::{Pool, PoolError};
use crate::store::{
    auth_user, lemma_auth_user_find, lemma_create_then_resolve, lemma_resolve_unissued,
    resolve_token_in, token_issued, user_ids_unique, Db, DbView, SessionRecordView,
};
use crate::token::{all_token_chars, random_key};

verus! {

/// Length of every issued session token, in characters. Over a 62-symbol
/// alphabet this is far beyond brute-force reach for a session's lifetime.
pub const TOKEN_LENGTH: usize = 48;

/// Mathematical value of a [`Session`]: the store it holds a handle to and
/// the resolved identity, if any.
pub ghost struct SessionView {
    pub db: DbView,
    pub user: Option<UserView>,
}

/// A session is handed to every downstream request handler: the checked-out
/// store handle, and the authenticated user when the request carried a valid
/// session cookie. An anonymous session simply has no user.
#[derive(Debug)]
pub struct Session {
    pub db: Db,
    pub user: Option<User>,
}

impl View for Session {
    type V = SessionView;

    open spec fn view(&self) -> SessionView {
        SessionView {
            db: self.db@,
            user: match self.user {
                Some(ref u) => Some(u@),
                None => None,
            },
        }
    }
}

/// The view of an optional cookie value.
pub open spec fn key_view(key: Option<&str>) -> Option<Seq<char>> {
    match key {
        Some(k) => Some(k@),
        None => None,
    }
}

/// The identity a request resolves to: nothing when no cookie came, else
/// whatever the store's join lookup yields for the cookie's value.
pub open spec fn session_user_for(db: DbView, key: Option<Seq<char>>) -> Option<UserView> {
    match key {
        Some(t) => resolve_token_in(db.users, db.sessions, t),
        None => None,
    }
}

impl Session {
    /// Build the session for a request: resolve the optional cookie value
    /// through the store's join lookup and pair the result with the handle.
    /// An absent cookie, like an unmatched one, yields an anonymous session,
    /// never an error.
    pub fn from_key(db: Db, sessionkey: Option<&str>) -> (s: Session)
        ensures
            s@.db == db@,
            s@.user == session_user_for(db@, key_view(sessionkey)),
    {
        let user = match sessionkey {
            Some(key) => db.resolve_token(key),
            None => None,
        };
        Session { db, user }
    }

    /// Attempt to authenticate a user for this session.
    ///
    /// On valid credentials a fresh alphanumeric token of [`TOKEN_LENGTH`]
    /// characters is generated, exactly one session row for it is persisted,
    /// the session becomes authenticated for that user, and the token is
    /// returned for the caller to set as a cookie. The login succeeds if and
    /// only if the authenticator accepts the pair and the insert affected
    /// exactly one row — fail-closed, success is never reported without
    /// confirmed persistence. On invalid credentials nothing changes and
    /// nothing is returned.
    pub fn authenticate(&mut self, username: &str, password: &str) -> (r: Option<String>)
        ensures
            r is Some <==> auth_user(old(self)@.db.users, username@, password@) is Some,
            r is None ==> final(self)@ == old(self)@,
            r matches Some(t) ==> ({
                &&& t@.len() == TOKEN_LENGTH as int
                &&& all_token_chars(t@)
                &&& auth_user(old(self)@.db.users, username@, password@) matches Some(u)
                    && final(self)@.user == Some(u) && final(self)@.db.sessions == old(
                    self,
                )@.db.sessions.push((SessionRecordView { user_id: u.id, token: t@ }))
                &&& final(self)@.db.users == old(self)@.db.users
            }),
    {
        if let Some(user) = self.db.authenticate_user(username, password) {
            let secret = random_key(TOKEN_LENGTH);
            let rows = self.db.create_session(user.id, secret.clone());
            if rows == 1 {
                self.user = Some(user);
                return Some(secret);
            }
            // Fail closed: persistence was not confirmed, so the session
            // stays unauthenticated and no token is reported.
            return None;
        }
        None
    }

    /// The authenticated user, if the session has one.
    pub fn user(&self) -> (r: Option<&User>)
        ensures
            self@.user matches Some(u) ==> (r matches Some(ru) && ru@ == u),
            self@.user is None ==> r is None,
    {
        self.user.as_ref()
    }

    /// The session's store handle.
    pub fn db(&self) -> (r: &Db)
        ensures
            r@ == self@.db,
    {
        &self.db
    }

    /// Give the store handle up, for the caller to return to its pool once
    /// the request is done.
    pub fn into_db(self) -> (db: Db)
        ensures
            db@ == self@.db,
    {
        self.db
    }
}

/// Law: a request that carries no cookie, or a cookie whose value no session
/// row carries, resolves to an anonymous identity — never to an error.
pub proof fn lemma_anonymous_session(db: DbView, key: Option<Seq<char>>)
    requires
        key matches Some(t) ==> !token_issued(db.sessions, t),
    ensures
        session_user_for(db, key) is None,
{
    if key is Some {
        lemma_resolve_unissued(db.users, db.sessions, key.unwrap());
    }
}

/// Law: a login the authenticator accepts issues a token that the store then
/// resolves to the very same user. The token freshness demanded here is what
/// the generator's entropy provides: a token already present in the session
/// table is the one case left out.
pub proof fn lemma_login_then_resolve(
    db: DbView,
    username: Seq<char>,
    password: Seq<char>,
    t: Seq<char>,
)
    requires
        user_ids_unique(db.users),
        auth_user(db.users, username, password) is Some,
        !token_issued(db.sessions, t),
    ensures
        ({
            let u = auth_user(db.users, username, password).unwrap();
            resolve_token_in(
                db.users,
                db.sessions.push((SessionRecordView { user_id: u.id, token: t })),
                t,
            ) == Some(u)
        }),
{
    let u = auth_user(db.users, username, password).unwrap();
    lemma_auth_user_find(db.users, username, password);
    lemma_create_then_resolve(db.users, db.sessions, u, t);
}

/// Resolve one incoming request: check a handle out of the pool and build
/// the session for the request's optional cookie value.
///
/// Pool exhaustion fails the whole request with the checkout error — it is
/// never downgraded to an anonymous session — while an absent or unmatched
/// cookie yields an anonymous session, never an error.
pub fn resolve_session(pool: &mut Pool, sessionkey: Option<&str>) -> (r: Result<
    Session,
    PoolError,
>)
    ensures
        old(pool)@ matches Some(dbv) ==> (r matches Ok(s) && s@.db == dbv && s@.user
            == session_user_for(dbv, key_view(sessionkey))),
        old(pool)@ is None ==> (r matches Err(e) && e == PoolError::Exhausted),
        final(pool)@ is None,
{
    match pool.get() {
        Ok(db) => Ok(Session::from_key(db, sessionkey)),
        Err(e) => Err(e),
    }
}

} // verus!
