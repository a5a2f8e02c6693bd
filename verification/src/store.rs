//! In-memory model of the relational store behind the session layer.
//!
//! Two tables are modelled as growable rows: user records (identity plus the
//! credential the authenticator checks) and session records (one row per
//! active session, linking an issued token to a user). The store offers the
//! three operations the session layer needs: a credential check, a session
//! insert, and the token-to-user join lookup.

use vstd::prelude::*;

use crate::models::{User, UserView};

verus! {

/// Mathematical value of a stored credential record.
pub ghost struct UserRecordView {
    pub id: int,
    pub username: Seq<char>,
    pub realname: Seq<char>,
    pub password: Seq<char>,
}

/// A row of the user table: an identity plus the credential checked on login.
#[derive(Debug)]
pub struct UserRecord {
    pub id: i32,
    pub username: String,
    pub realname: String,
    pub password: String,
}

impl View for UserRecord {
    type V = UserRecordView;

    open spec fn view(&self) -> UserRecordView {
        UserRecordView {
            id: self.id as int,
            username: self.username@,
            realname: self.realname@,
            password: self.password@,
        }
    }
}

/// Mathematical value of a session row.
pub ghost struct SessionRecordView {
    pub user_id: int,
    pub token: Seq<char>,
}

/// A row of the session table: one row per active session.
#[derive(Debug)]
pub struct SessionRecord {
    pub user_id: i32,
    pub token: String,
}

impl View for SessionRecord {
    type V = SessionRecordView;

    open spec fn view(&self) -> SessionRecordView {
        SessionRecordView { user_id: self.user_id as int, token: self.token@ }
    }
}

/// Mathematical value of the store: the two tables as sequences of rows.
pub ghost struct DbView {
    pub users: Seq<UserRecordView>,
    pub sessions: Seq<SessionRecordView>,
}

/// The identity a credential record projects to: what `resolve` and the
/// authenticator hand out, with the password left behind.
pub open spec fn user_of(rec: UserRecordView) -> UserView {
    UserView { id: rec.id, username: rec.username, realname: rec.realname }
}

/// The user the authenticator yields for a credential pair: the identity of
/// the first record whose username and password both match, if any.
pub open spec fn auth_user(
    users: Seq<UserRecordView>,
    username: Seq<char>,
    password: Seq<char>,
) -> Option<UserView>
    decreases users.len(),
{
    if users.len() == 0 {
        None
    } else if users[0].username == username && users[0].password == password {
        Some(user_of(users[0]))
    } else {
        auth_user(users.drop_first(), username, password)
    }
}

/// The identity of the first user record carrying the given id, if any.
pub open spec fn find_user(users: Seq<UserRecordView>, id: int) -> Option<UserView>
    decreases users.len(),
{
    if users.len() == 0 {
        None
    } else if users[0].id == id {
        Some(user_of(users[0]))
    } else {
        find_user(users.drop_first(), id)
    }
}

/// The inner-join lookup from the session table to the user table: the user
/// behind the first session row whose token matches and whose user id has a
/// matching user record. A dangling session row is skipped, as a join skips
/// it.
pub open spec fn resolve_token_in(
    users: Seq<UserRecordView>,
    sessions: Seq<SessionRecordView>,
    token: Seq<char>,
) -> Option<UserView>
    decreases sessions.len(),
{
    if sessions.len() == 0 {
        None
    } else if sessions[0].token == token && find_user(users, sessions[0].user_id) is Some {
        find_user(users, sessions[0].user_id)
    } else {
        resolve_token_in(users, sessions.drop_first(), token)
    }
}

/// Whether some session row carries the given token.
pub open spec fn token_issued(sessions: Seq<SessionRecordView>, token: Seq<char>) -> bool {
    exists|i: int| 0 <= i < sessions.len() && (#[trigger] sessions[i]).token == token
}

/// Whether some user record carries the given id.
pub open spec fn has_user_id(users: Seq<UserRecordView>, id: int) -> bool {
    exists|i: int| 0 <= i < users.len() && (#[trigger] users[i]).id == id
}

/// The user table's key invariant: ids identify records uniquely.
pub open spec fn user_ids_unique(users: Seq<UserRecordView>) -> bool {
    forall|i: int, j: int|
        0 <= i < users.len() && 0 <= j < users.len() && i != j ==> (#[trigger] users[i]).id != (
        #[trigger] users[j]).id
}

/// Law: a token that no session row carries resolves to nothing, whatever
/// the user table holds.
pub proof fn lemma_resolve_unissued(
    users: Seq<UserRecordView>,
    sessions: Seq<SessionRecordView>,
    token: Seq<char>,
)
    requires
        !token_issued(sessions, token),
    ensures
        resolve_token_in(users, sessions, token) is None,
    decreases sessions.len(),
{
    if sessions.len() > 0 {
        assert(sessions[0].token != token);
        let tail = sessions.drop_first();
        assert(!token_issued(tail, token)) by {
            if token_issued(tail, token) {
                let i = choose|i: int|
                    0 <= i < tail.len() && (#[trigger] tail[i]).token == token;
                assert(sessions[i + 1] == tail[i]);
                assert(token_issued(sessions, token));
            }
        }
        lemma_resolve_unissued(users, tail, token);
    }
}

/// The user the authenticator yields is the identity of some record of the
/// user table.
pub proof fn lemma_auth_user_member(
    users: Seq<UserRecordView>,
    username: Seq<char>,
    password: Seq<char>,
)
    ensures
        auth_user(users, username, password) matches Some(u) ==> exists|i: int|
            0 <= i < users.len() && user_of(#[trigger] users[i]) == u,
    decreases users.len(),
{
    if users.len() == 0 {
    } else if users[0].username == username && users[0].password == password {
        assert(user_of(users[0]) == auth_user(users, username, password).unwrap());
    } else {
        let tail = users.drop_first();
        lemma_auth_user_member(tail, username, password);
        if auth_user(users, username, password) is Some {
            let u = auth_user(users, username, password).unwrap();
            let i = choose|i: int| 0 <= i < tail.len() && user_of(#[trigger] tail[i]) == u;
            assert(users[i + 1] == tail[i]);
        }
    }
}

/// Law: under the user table's key invariant, looking the authenticator's
/// answer up again by its id finds the very same identity.
pub proof fn lemma_auth_user_find(
    users: Seq<UserRecordView>,
    username: Seq<char>,
    password: Seq<char>,
)
    requires
        user_ids_unique(users),
    ensures
        auth_user(users, username, password) matches Some(u) ==> find_user(users, u.id) == Some(
            u,
        ),
    decreases users.len(),
{
    if users.len() == 0 {
    } else if users[0].username == username && users[0].password == password {
    } else {
        let tail = users.drop_first();
        assert(user_ids_unique(tail)) by {
            assert forall|i: int, j: int|
                0 <= i < tail.len() && 0 <= j < tail.len() && i != j implies (
            #[trigger] tail[i]).id != (#[trigger] tail[j]).id by {
                assert(tail[i] == users[i + 1]);
                assert(tail[j] == users[j + 1]);
            }
        }
        lemma_auth_user_find(tail, username, password);
        if auth_user(users, username, password) is Some {
            let u = auth_user(users, username, password).unwrap();
            lemma_auth_user_member(tail, username, password);
            let i = choose|i: int| 0 <= i < tail.len() && user_of(#[trigger] tail[i]) == u;
            assert(tail[i] == users[i + 1]);
            assert(users[0].id != users[i + 1].id);
        }
    }
}

/// Law: inserting one session row for a fresh token makes that token resolve
/// to the identity the row points at.
pub proof fn lemma_create_then_resolve(
    users: Seq<UserRecordView>,
    sessions: Seq<SessionRecordView>,
    u: UserView,
    token: Seq<char>,
)
    requires
        find_user(users, u.id) == Some(u),
        !token_issued(sessions, token),
    ensures
        resolve_token_in(
            users,
            sessions.push((SessionRecordView { user_id: u.id, token: token })),
            token,
        ) == Some(u),
    decreases sessions.len(),
{
    let rec = SessionRecordView { user_id: u.id, token: token };
    let pushed = sessions.push(rec);
    if sessions.len() == 0 {
        assert(pushed[0] == rec);
    } else {
        assert(sessions[0].token != token);
        let tail = sessions.drop_first();
        assert(!token_issued(tail, token)) by {
            if token_issued(tail, token) {
                let i = choose|i: int|
                    0 <= i < tail.len() && (#[trigger] tail[i]).token == token;
                assert(sessions[i + 1] == tail[i]);
                assert(token_issued(sessions, token));
            }
        }
        lemma_create_then_resolve(users, tail, u, token);
        assert(pushed[0] == sessions[0]);
        assert(pushed.drop_first() =~= tail.push(rec));
    }
}

/// Law: a token the store already resolves keeps resolving to the same
/// identity when another session row is appended — later logins do not
/// disturb sessions already established.
pub proof fn lemma_resolve_push_keeps(
    users: Seq<UserRecordView>,
    sessions: Seq<SessionRecordView>,
    rec: SessionRecordView,
    token: Seq<char>,
)
    requires
        resolve_token_in(users, sessions, token) is Some,
    ensures
        resolve_token_in(users, sessions.push(rec), token) == resolve_token_in(
            users,
            sessions,
            token,
        ),
    decreases sessions.len(),
{
    let tail = sessions.drop_first();
    let pushed = sessions.push(rec);
    assert(pushed[0] == sessions[0]);
    assert(pushed.drop_first() =~= tail.push(rec));
    if sessions[0].token == token && find_user(users, sessions[0].user_id) is Some {
    } else {
        lemma_resolve_push_keeps(users, tail, rec, token);
    }
}

/// Law: two logins for the same user under two distinct fresh tokens leave
/// both tokens resolving, independently, to that user.
pub proof fn lemma_two_logins_resolve(
    users: Seq<UserRecordView>,
    sessions: Seq<SessionRecordView>,
    u: UserView,
    t1: Seq<char>,
    t2: Seq<char>,
)
    requires
        find_user(users, u.id) == Some(u),
        !token_issued(sessions, t1),
        !token_issued(sessions, t2),
        t1 != t2,
    ensures
        ({
            let after = sessions.push((SessionRecordView { user_id: u.id, token: t1 })).push(
                (SessionRecordView { user_id: u.id, token: t2 }),
            );
            resolve_token_in(users, after, t1) == Some(u) && resolve_token_in(users, after, t2)
                == Some(u)
        }),
{
    let r1 = SessionRecordView { user_id: u.id, token: t1 };
    let r2 = SessionRecordView { user_id: u.id, token: t2 };
    let once = sessions.push(r1);
    lemma_create_then_resolve(users, sessions, u, t1);
    lemma_resolve_push_keeps(users, once, r2, t1);
    assert(!token_issued(once, t2)) by {
        if token_issued(once, t2) {
            let i = choose|i: int| 0 <= i < once.len() && (#[trigger] once[i]).token == t2;
            if i < sessions.len() {
                assert(once[i] == sessions[i]);
                assert(token_issued(sessions, t2));
            } else {
                assert(once[i] == r1);
            }
        }
    }
    lemma_create_then_resolve(users, once, u, t2);
}

/// The relational store: the user and session tables.
#[derive(Debug)]
pub struct Db {
    pub users: Vec<UserRecord>,
    pub sessions: Vec<SessionRecord>,
}

impl View for Db {
    type V = DbView;

    open spec fn view(&self) -> DbView {
        DbView {
            users: self.users@.map_values(|r: UserRecord| r@),
            sessions: self.sessions@.map_values(|r: SessionRecord| r@),
        }
    }
}

impl Db {
    /// An empty store: no users, no sessions.
    pub fn new() -> (db: Db)
        ensures
            db@.users == Seq::<UserRecordView>::empty(),
            db@.sessions == Seq::<SessionRecordView>::empty(),
    {
        let db = Db { users: Vec::new(), sessions: Vec::new() };
        proof {
            assert(db@.users =~= Seq::<UserRecordView>::empty());
            assert(db@.sessions =~= Seq::<SessionRecordView>::empty());
        }
        db
    }

    /// Number of rows in the session table.
    pub fn session_count(&self) -> (n: usize)
        ensures
            n == self@.sessions.len(),
    {
        self.sessions.len()
    }

    /// Whether the user table already holds a record with this id.
    fn contains_user_id(&self, id: i32) -> (r: bool)
        ensures
            r <==> has_user_id(self@.users, id as int),
    {
        let mut i: usize = 0;
        while i < self.users.len()
            invariant
                i <= self.users.len(),
                forall|j: int| 0 <= j < i ==> (#[trigger] self@.users[j]).id != id as int,
            decreases self.users.len() - i,
        {
            if self.users[i].id == id {
                proof {
                    assert(self@.users[i as int].id == id as int);
                }
                return true;
            }
            i += 1;
        }
        false
    }

    /// Register a user record the authenticator may accept. The id is the
    /// table's key: a record under an id already present is refused, so that
    /// ids keep identifying records uniquely.
    pub fn add_user(&mut self, id: i32, username: &str, realname: &str, password: &str) -> (added:
        bool)
        ensures
            added <==> !has_user_id(old(self)@.users, id as int),
            added ==> final(self)@.users == old(self)@.users.push(
                (UserRecordView {
                    id: id as int,
                    username: username@,
                    realname: realname@,
                    password: password@,
                }),
            ),
            !added ==> final(self)@.users == old(self)@.users,
            final(self)@.sessions == old(self)@.sessions,
            user_ids_unique(old(self)@.users) ==> user_ids_unique(final(self)@.users),
    {
        if self.contains_user_id(id) {
            return false;
        }
        let rec = UserRecord {
            id,
            username: username.to_owned(),
            realname: realname.to_owned(),
            password: password.to_owned(),
        };
        self.users.push(rec);
        proof {
            let prior = old(self)@.users;
            let now = self@.users;
            assert(now =~= prior.push(
                UserRecordView {
                    id: id as int,
                    username: username@,
                    realname: realname@,
                    password: password@,
                },
            ));
            if user_ids_unique(prior) {
                assert forall|i: int, j: int|
                    0 <= i < now.len() && 0 <= j < now.len() && i != j implies now[i].id
                    != now[j].id by {
                    if i < prior.len() && j < prior.len() {
                    } else if i < prior.len() {
                        assert(now[j].id == id as int);
                        assert(!has_user_id(prior, id as int));
                        assert(now[i] == prior[i]);
                        if now[i].id == id as int {
                            assert(has_user_id(prior, id as int));
                        }
                    } else {
                        assert(now[i].id == id as int);
                        assert(!has_user_id(prior, id as int));
                        assert(now[j] == prior[j]);
                        if now[j].id == id as int {
                            assert(has_user_id(prior, id as int));
                        }
                    }
                }
            }
        }
        true
    }

    /// Check a credential pair, yielding the matching identity or nothing.
    /// Nothing in the result distinguishes an unknown username from a wrong
    /// password.
    pub fn authenticate_user(&self, username: &str, password: &str) -> (r: Option<User>)
        ensures
            auth_user(self@.users, username@, password@) matches Some(u) ==> (r matches Some(ru)
                && ru@ == u),
            auth_user(self@.users, username@, password@) is None ==> r is None,
    {
        let uname = username.to_owned();
        let pword = password.to_owned();
        let ghost us = self@.users;
        proof {
            assert(us.skip(0) =~= us);
        }
        let mut i: usize = 0;
        while i < self.users.len()
            invariant
                i <= self.users.len(),
                us == self@.users,
                uname@ == username@,
                pword@ == password@,
                auth_user(us.skip(i as int), username@, password@) == auth_user(
                    us,
                    username@,
                    password@,
                ),
            decreases self.users.len() - i,
        {
            let rec = &self.users[i];
            proof {
                assert(us.skip(i as int)[0] == us[i as int]);
            }
            if rec.username == uname && rec.password == pword {
                return Some(
                    User {
                        id: rec.id,
                        username: rec.username.clone(),
                        realname: rec.realname.clone(),
                    },
                );
            }
            proof {
                assert(us.skip(i as int).drop_first() =~= us.skip(i as int + 1));
            }
            i += 1;
        }
        proof {
            assert(us.skip(self.users.len() as int) =~= Seq::<UserRecordView>::empty());
        }
        None
    }

    /// The identity behind a user id, if the table holds one.
    fn user_by_id(&self, id: i32) -> (r: Option<User>)
        ensures
            find_user(self@.users, id as int) matches Some(u) ==> (r matches Some(ru) && ru@ == u),
            find_user(self@.users, id as int) is None ==> r is None,
    {
        let ghost us = self@.users;
        proof {
            assert(us.skip(0) =~= us);
        }
        let mut i: usize = 0;
        while i < self.users.len()
            invariant
                i <= self.users.len(),
                us == self@.users,
                find_user(us.skip(i as int), id as int) == find_user(us, id as int),
            decreases self.users.len() - i,
        {
            let rec = &self.users[i];
            proof {
                assert(us.skip(i as int)[0] == us[i as int]);
            }
            if rec.id == id {
                return Some(
                    User {
                        id: rec.id,
                        username: rec.username.clone(),
                        realname: rec.realname.clone(),
                    },
                );
            }
            proof {
                assert(us.skip(i as int).drop_first() =~= us.skip(i as int + 1));
            }
            i += 1;
        }
        proof {
            assert(us.skip(self.users.len() as int) =~= Seq::<UserRecordView>::empty());
        }
        None
    }

    /// Insert one session row for the pair. The in-memory insert always
    /// affects exactly one row; the count is returned so that the caller can
    /// apply the store contract's fail-closed check.
    pub fn create_session(&mut self, user_id: i32, token: String) -> (rows: usize)
        ensures
            rows == 1,
            final(self)@.users == old(self)@.users,
            final(self)@.sessions == old(self)@.sessions.push(
                (SessionRecordView { user_id: user_id as int, token: token@ }),
            ),
    {
        let ghost t = token@;
        self.sessions.push(SessionRecord { user_id, token });
        proof {
            assert(self@.sessions =~= old(self)@.sessions.push(
                SessionRecordView { user_id: user_id as int, token: t },
            ));
        }
        1
    }

    /// The token-to-user join lookup: the user behind the first session row
    /// whose token matches the given one exactly, or nothing when no row
    /// matches.
    pub fn resolve_token(&self, token: &str) -> (r: Option<User>)
        ensures
            resolve_token_in(self@.users, self@.sessions, token@) matches Some(u) ==> (r matches
                Some(ru) && ru@ == u),
            resolve_token_in(self@.users, self@.sessions, token@) is None ==> r is None,
    {
        let tok = token.to_owned();
        let ghost us = self@.users;
        let ghost ss = self@.sessions;
        proof {
            assert(ss.skip(0) =~= ss);
        }
        let mut i: usize = 0;
        while i < self.sessions.len()
            invariant
                i <= self.sessions.len(),
                us == self@.users,
                ss == self@.sessions,
                tok@ == token@,
                resolve_token_in(us, ss.skip(i as int), token@) == resolve_token_in(
                    us,
                    ss,
                    token@,
                ),
            decreases self.sessions.len() - i,
        {
            let rec = &self.sessions[i];
            proof {
                assert(ss.skip(i as int)[0] == ss[i as int]);
            }
            if rec.token == tok {
                let found = self.user_by_id(rec.user_id);
                if found.is_some() {
                    return found;
                }
            }
            proof {
                assert(ss.skip(i as int).drop_first() =~= ss.skip(i as int + 1));
            }
            i += 1;
        }
        proof {
            assert(ss.skip(self.sessions.len() as int) =~= Seq::<SessionRecordView>::empty());
        }
        None
    }
}

} // verus!
