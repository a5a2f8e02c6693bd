use exauth::store::Db;

#[test]
fn authenticator_checks_username_and_password_exactly() {
    let mut db = Db::new();
    assert!(db.add_user(1, "alice", "Alice Person", "secret123"));
    assert!(db.add_user(2, "bob", "Bob Person", "hunter2"));

    let alice = db.authenticate_user("alice", "secret123").expect("match");
    assert_eq!(alice.id, 1);
    assert_eq!(alice.username, "alice");
    assert_eq!(alice.realname, "Alice Person");

    let bob = db.authenticate_user("bob", "hunter2").expect("match");
    assert_eq!(bob.id, 2);

    assert!(db.authenticate_user("alice", "hunter2").is_none());
    assert!(db.authenticate_user("bob", "secret123").is_none());
    assert!(db.authenticate_user("", "").is_none());
}

#[test]
fn duplicate_user_id_is_refused() {
    let mut db = Db::new();
    assert!(db.add_user(1, "alice", "Alice Person", "secret123"));
    assert!(!db.add_user(1, "mallory", "Mallory Person", "letmein"));
    assert!(db.authenticate_user("mallory", "letmein").is_none());
}

#[test]
fn create_session_affects_exactly_one_row() {
    let mut db = Db::new();
    assert!(db.add_user(1, "alice", "Alice Person", "secret123"));
    assert_eq!(db.session_count(), 0);
    assert_eq!(db.create_session(1, String::from("tok-one")), 1);
    assert_eq!(db.session_count(), 1);
    assert_eq!(db.resolve_token("tok-one").expect("row resolves").id, 1);
}

#[test]
fn unissued_token_resolves_to_nothing() {
    let mut db = Db::new();
    assert!(db.add_user(1, "alice", "Alice Person", "secret123"));
    assert!(db.resolve_token("never-issued").is_none());
    db.create_session(1, String::from("issued"));
    assert!(db.resolve_token("issue").is_none());
    assert!(db.resolve_token("issuedd").is_none());
    assert!(db.resolve_token("ISSUED").is_none());
}

#[test]
fn resolve_takes_the_first_matching_row() {
    let mut db = Db::new();
    assert!(db.add_user(1, "alice", "Alice Person", "secret123"));
    assert!(db.add_user(2, "bob", "Bob Person", "hunter2"));
    db.create_session(1, String::from("shared"));
    db.create_session(2, String::from("shared"));
    assert_eq!(db.resolve_token("shared").expect("first row wins").id, 1);
}

#[test]
fn dangling_session_row_is_skipped_by_the_join() {
    let mut db = Db::new();
    assert!(db.add_user(1, "alice", "Alice Person", "secret123"));
    db.create_session(99, String::from("stale"));
    assert!(db.resolve_token("stale").is_none());
    db.create_session(1, String::from("stale"));
    assert_eq!(db.resolve_token("stale").expect("joined row wins").id, 1);
}
