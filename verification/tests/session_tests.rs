use exauth::pool::{Pool, PoolError};
use exauth::session::resolve_session;
use exauth::store::Db;

fn db_with_alice() -> Db {
    let mut db = Db::new();
    assert!(db.add_user(1, "alice", "Alice Person", "secret123"));
    db
}

#[test]
fn login_issues_alphanumeric_token_of_configured_length() {
    let db = db_with_alice();
    let mut pool = Pool::new(db, 1);
    let mut session = resolve_session(&mut pool, None).expect("pool has a handle");
    assert!(session.user().is_none());

    let token = session
        .authenticate("alice", "secret123")
        .expect("valid credentials must yield a token");
    assert_eq!(token.len(), 48);
    assert!(token.chars().all(|c| c.is_ascii_alphanumeric()));

    let user = session.user().expect("session is now authenticated");
    assert_eq!(user.id, 1);
    assert_eq!(user.username, "alice");
    assert_eq!(user.realname, "Alice Person");
}

#[test]
fn issued_token_resolves_to_the_same_user() {
    let db = db_with_alice();
    let mut pool = Pool::new(db, 1);
    let mut session = resolve_session(&mut pool, None).expect("pool has a handle");
    let token = session.authenticate("alice", "secret123").expect("token");
    pool.put(session.into_db());

    let resolved = resolve_session(&mut pool, Some(&token)).expect("pool has a handle");
    let user = resolved.user().expect("issued token must resolve");
    assert_eq!(user.id, 1);
    assert_eq!(user.username, "alice");
}

#[test]
fn invalid_credentials_yield_nothing_and_add_no_row() {
    let db = db_with_alice();
    let mut pool = Pool::new(db, 1);
    let mut session = resolve_session(&mut pool, None).expect("pool has a handle");

    assert!(session.authenticate("alice", "wrongpass").is_none());
    assert!(session.user().is_none());
    assert_eq!(session.db().session_count(), 0);

    assert!(session.authenticate("mallory", "secret123").is_none());
    assert!(session.user().is_none());
    assert_eq!(session.db().session_count(), 0);
}

#[test]
fn two_logins_yield_two_distinct_tokens_and_both_resolve() {
    let db = db_with_alice();
    let mut pool = Pool::new(db, 1);
    let mut session = resolve_session(&mut pool, None).expect("pool has a handle");

    let first = session.authenticate("alice", "secret123").expect("token");
    let second = session.authenticate("alice", "secret123").expect("token");
    assert_ne!(first, second);

    let db = session.into_db();
    assert_eq!(db.session_count(), 2);
    assert_eq!(db.resolve_token(&first).expect("first token resolves").id, 1);
    assert_eq!(db.resolve_token(&second).expect("second token resolves").id, 1);
}

#[test]
fn absent_cookie_yields_anonymous_session() {
    let db = db_with_alice();
    let mut pool = Pool::new(db, 1);
    let session = resolve_session(&mut pool, None).expect("absent cookie is no error");
    assert!(session.user().is_none());
}

#[test]
fn unmatched_cookie_yields_anonymous_session() {
    let db = db_with_alice();
    let mut pool = Pool::new(db, 1);
    let session =
        resolve_session(&mut pool, Some("A0b1C2d3E4f5G6h7I8j9K0l1M2n3O4p5Q6r7S8t9U0v1W2x3"))
            .expect("an unmatched cookie is no error");
    assert!(session.user().is_none());
}

#[test]
fn exhausted_pool_fails_the_request() {
    let db = db_with_alice();
    let mut pool = Pool::new(db, 0);
    let err = resolve_session(&mut pool, None).expect_err("no handle to check out");
    assert_eq!(err, PoolError::Exhausted);
}

#[test]
fn checked_out_handle_leaves_the_pool_empty_until_put_back() {
    let db = db_with_alice();
    let mut pool = Pool::new(db, 1);
    let session = resolve_session(&mut pool, None).expect("first checkout succeeds");
    let err = resolve_session(&mut pool, None).expect_err("handle is checked out");
    assert_eq!(err, PoolError::Exhausted);

    pool.put(session.into_db());
    assert!(resolve_session(&mut pool, None).is_ok());
}
