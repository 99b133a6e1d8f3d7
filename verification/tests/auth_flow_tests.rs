use polarway_lakehouse::auth::actor::{
    approve_with, change_password_with, column_equals, delete_succeeded, extract_user_from_batch,
    handle_get_user, handle_verify_token, live_session_predicate, login_with, new_session,
    query_users, register_with, reject_predicate, session_predicate, session_with, user_row,
    validate_registration, AuthActor, UserRow, ACTIVE_USERS, PENDING_USERS,
};
use polarway_lakehouse::auth::types::{JwtClaims, SubscriptionTier, UserRole};
use polarway_lakehouse::clock::Instant;
use polarway_lakehouse::error::{ErrorKind, LakehouseError};
use polarway_lakehouse::store::DeleteMetrics;
use polarway_lakehouse::LakehouseConfig;

fn actor() -> AuthActor {
    AuthActor::new(&LakehouseConfig::new("/lake").with_jwt_secret("test-secret-key-for-testing-only"))
}

fn register(actor: &AuthActor, users: &mut Vec<UserRow>, username: &str, email: &str, password: &str) -> Result<polarway_lakehouse::auth::UserRecord, LakehouseError> {
    let username_taken = users.iter().any(|u| u.username == username);
    let email_taken = users.iter().any(|u| u.email == email);
    let registration = actor.handle_register(
        username.to_string(),
        email.to_string(),
        password.to_string(),
        "Test".to_string(),
        "User".to_string(),
        SubscriptionTier::Pioneer,
        username_taken,
        email_taken,
    )?;
    users.push(registration.row);
    Ok(registration.record)
}

fn by_username(users: &[UserRow], username: &str) -> Vec<UserRow> {
    users.iter().filter(|u| u.username == username).cloned().collect()
}

fn by_id(users: &[UserRow], id: &str) -> Vec<UserRow> {
    users.iter().filter(|u| u.user_id == id).cloned().collect()
}

#[test]
fn register_then_login() {
    let actor = actor();
    let mut users = Vec::new();
    let user = register(&actor, &mut users, "alice", "alice@example.com", "StrongP@ss123").unwrap();
    assert_eq!(user.username, "alice");
    assert_eq!(user.email, "alice@example.com");
    assert_eq!(user.role, UserRole::Pending);
    assert_eq!(user.subscription_tier, Some(SubscriptionTier::Pioneer));
    assert!(user.is_active);
    assert_eq!(user.last_login, None);
    assert_eq!(user.user_id.len(), 36);
    assert_eq!(user.user_id.matches('-').count(), 4);
    assert!(user.created_at.starts_with("20"));
    let row = &users[0];
    assert_eq!(row.role, "pending");
    assert_eq!(row.subscription_tier.as_deref(), Some("pioneer"));
    assert_eq!(row.preferences_json.as_deref(), Some("{}"));
    assert!(row.password_hash.starts_with("$argon2id$"));
    assert_ne!(row.password_hash, "StrongP@ss123");

    let ticket = actor
        .handle_login("alice".to_string(), "StrongP@ss123".to_string(), false, &by_username(&users, "alice"))
        .unwrap();
    assert_eq!(ticket.user.username, "alice");
    assert_eq!(ticket.claims.sub, user.user_id);
    assert_eq!(ticket.claims.username, "alice");
    assert_eq!(ticket.claims.role, "pending");
    assert_eq!(ticket.claims.exp - ticket.claims.iat, 7 * 86_400);
    let remembered = actor
        .handle_login("alice".to_string(), "StrongP@ss123".to_string(), true, &by_username(&users, "alice"))
        .unwrap();
    assert_eq!(remembered.claims.exp - remembered.claims.iat, 30 * 86_400);
}

#[test]
fn duplicate_registration_is_refused() {
    let actor = actor();
    let mut users = Vec::new();
    register(&actor, &mut users, "eve", "eve@example.com", "P@ssword123").unwrap();
    match register(&actor, &mut users, "eve", "eve2@example.com", "P@ssword123") {
        Err(LakehouseError::UserAlreadyExists(name)) => assert_eq!(name, "eve"),
        other => panic!("expected UserAlreadyExists, got {:?}", other),
    }
    match register(&actor, &mut users, "eve2", "eve@example.com", "P@ssword123") {
        Err(LakehouseError::UserAlreadyExists(name)) => assert_eq!(name, "eve@example.com"),
        other => panic!("expected UserAlreadyExists, got {:?}", other),
    }
    assert_eq!(users.len(), 1);
}

#[test]
fn wrong_password_and_unknown_user_are_invalid_credentials() {
    let actor = actor();
    let mut users = Vec::new();
    register(&actor, &mut users, "frank", "frank@example.com", "Correct!Pass1").unwrap();
    let wrong = actor.handle_login("frank".to_string(), "WrongPassword".to_string(), false, &by_username(&users, "frank"));
    assert!(matches!(wrong, Err(LakehouseError::InvalidCredentials)));
    let unknown = actor.handle_login("nobody".to_string(), "Correct!Pass1".to_string(), false, &by_username(&users, "nobody"));
    assert!(matches!(unknown, Err(LakehouseError::InvalidCredentials)));
    assert_eq!(LakehouseError::InvalidCredentials.kind(), ErrorKind::AuthInvalidCredentials);
}

#[test]
fn disabled_user_cannot_log_in() {
    let actor = actor();
    let mut users = Vec::new();
    register(&actor, &mut users, "gina", "gina@example.com", "Correct!Pass1").unwrap();
    users[0].is_active = false;
    match actor.handle_login("gina".to_string(), "Correct!Pass1".to_string(), false, &users) {
        Err(LakehouseError::AccountDisabled(name)) => assert_eq!(name, "gina"),
        other => panic!("expected AccountDisabled, got {:?}", other.map(|t| t.user)),
    }
    // A stored hash that is no PHC string is an internal error.
    users[0].is_active = true;
    users[0].password_hash = "not-a-hash".to_string();
    assert!(matches!(
        actor.handle_login("gina".to_string(), "Correct!Pass1".to_string(), false, &users),
        Err(LakehouseError::Internal(_))
    ));
}

#[test]
fn registration_faults_come_in_order() {
    let short = validate_registration("al", "no-at", "short");
    match short {
        Err(LakehouseError::AuthenticationFailed(m)) => assert_eq!(m, "Username must be at least 3 characters"),
        other => panic!("{:?}", other),
    }
    match validate_registration("alice", "no-at", "short") {
        Err(LakehouseError::AuthenticationFailed(m)) => assert_eq!(m, "Invalid email address"),
        other => panic!("{:?}", other),
    }
    match validate_registration("alice", "a@b", "short") {
        Err(LakehouseError::PasswordTooWeak(m)) => assert_eq!(m, "Password must be at least 8 characters"),
        other => panic!("{:?}", other),
    }
    assert!(validate_registration("abc", "@", "12345678").is_ok());
    // Lengths are counted in bytes.
    assert!(validate_registration("éé", "a@b", "12345678").is_ok());
    // A fault wins over a taken name.
    let refused = register_with(
        "al".to_string(), "a@b".to_string(), "12345678", "A".to_string(), "B".to_string(),
        SubscriptionTier::Free, true, true, Ok("hash".to_string()), "id".to_string(), Some("now".to_string()),
    );
    assert!(matches!(refused, Err(LakehouseError::AuthenticationFailed(_))));
    let failed_hash = register_with(
        "alice".to_string(), "a@b".to_string(), "12345678", "A".to_string(), "B".to_string(),
        SubscriptionTier::Free, false, false, Err("boom".to_string()), "id".to_string(), Some("now".to_string()),
    );
    match failed_hash {
        Err(LakehouseError::Internal(m)) => assert_eq!(m, "boom"),
        other => panic!("{:?}", other.map(|r| r.record)),
    }
    let ok = register_with(
        "alice".to_string(), "a@b".to_string(), "12345678", "A".to_string(), "B".to_string(),
        SubscriptionTier::Hobbyist, false, false, Ok("hash".to_string()), "id-1".to_string(), Some("2025-01-01T00:00:00+00:00".to_string()),
    ).unwrap();
    assert_eq!(ok.record.user_id, "id-1");
    assert_eq!(ok.record.created_at, "2025-01-01T00:00:00+00:00");
    assert_eq!(ok.row.password_hash, "hash");
    assert_eq!(ok.row.first_name.as_deref(), Some("A"));
    assert_eq!(ok.row.subscription_tier.as_deref(), Some("hobbyist"));
}

#[test]
fn approval_promotes_and_keeps_the_hash() {
    let actor = actor();
    let mut users = Vec::new();
    let user = register(&actor, &mut users, "diana", "diana@example.com", "Tr@derPass1").unwrap();
    let hash = users[0].password_hash.clone();
    let update = actor.handle_approve(&user.user_id, SubscriptionTier::Pioneer, &by_id(&users, &user.user_id)).unwrap();
    assert_eq!(update.delete_predicate, format!("user_id = '{}'", user.user_id));
    assert_eq!(update.record.role, UserRole::Trader);
    assert_eq!(update.record.subscription_tier, Some(SubscriptionTier::Pioneer));
    assert!(update.record.is_active);
    assert!(update.record.last_login.is_some());
    assert_eq!(update.record.created_at, user.created_at);
    assert_eq!(update.row.password_hash, hash);
    assert_eq!(update.row.role, "trader");
    // The approved user can still log in with the old password.
    users[0] = update.row;
    assert!(actor.handle_login("diana".to_string(), "Tr@derPass1".to_string(), false, &users).is_ok());
    let free = approve_with("u9", SubscriptionTier::Free, &users, Some("now".to_string())).unwrap();
    assert_eq!(free.record.role, UserRole::Registered);
    assert_eq!(free.record.user_id, "u9");
    assert_eq!(free.record.last_login.as_deref(), Some("now"));
    match approve_with("missing", SubscriptionTier::Free, &vec![], Some("now".to_string())) {
        Err(LakehouseError::UserNotFound(id)) => assert_eq!(id, "missing"),
        other => panic!("{:?}", other.map(|u| u.record)),
    }
}

#[test]
fn password_change_rewrites_the_hash() {
    let actor = actor();
    let mut users = Vec::new();
    let user = register(&actor, &mut users, "grace", "grace@example.com", "OldP@ss1234").unwrap();
    let old_hash = users[0].password_hash.clone();
    let update = actor.handle_change_password(&user.user_id, "OldP@ss1234", "NewP@ss5678", &users).unwrap();
    assert_ne!(update.row.password_hash, old_hash);
    assert_eq!(update.row.username, "grace");
    assert_eq!(update.row.role, "pending");
    users[0] = update.row;
    assert!(matches!(
        actor.handle_login("grace".to_string(), "OldP@ss1234".to_string(), false, &users),
        Err(LakehouseError::InvalidCredentials)
    ));
    assert!(actor.handle_login("grace".to_string(), "NewP@ss5678".to_string(), false, &users).is_ok());

    match actor.handle_change_password(&user.user_id, "NewP@ss5678", "short", &users) {
        Err(LakehouseError::PasswordTooWeak(m)) => assert_eq!(m, "Must be at least 8 characters"),
        other => panic!("{:?}", other.map(|u| u.record)),
    }
    assert!(matches!(
        actor.handle_change_password(&user.user_id, "wrong-old", "NewP@ss9999", &users),
        Err(LakehouseError::InvalidCredentials)
    ));
    assert!(matches!(
        actor.handle_change_password("ghost", "x", "NewP@ss9999", &vec![]),
        Err(LakehouseError::UserNotFound(_))
    ));
    let failed = change_password_with("u1", "NewP@ss9999", &users, Ok(true), Err("no memory".to_string()));
    match failed {
        Err(LakehouseError::Internal(m)) => assert_eq!(m, "no memory"),
        other => panic!("{:?}", other.map(|u| u.record)),
    }
    let unreadable = change_password_with("u1", "NewP@ss9999", &users, Err("bad hash".to_string()), Ok("h".to_string()));
    assert!(matches!(unreadable, Err(LakehouseError::Internal(_))));
}

#[test]
fn sessions_store_the_hash_of_the_token() {
    let user_rows = vec![sample_row()];
    let ticket = login_with(
        "alice".to_string(),
        7,
        &user_rows,
        Ok(true),
        Instant { secs: 1_700_000_000, nanos: 0 },
        Some("created".to_string()),
        Some("expires".to_string()),
    )
    .unwrap();
    assert_eq!(ticket.claims.iat, 1_700_000_000);
    assert_eq!(ticket.claims.exp, 1_700_000_000 + 7 * 86_400);
    let session = new_session("abc", &ticket);
    // SHA-256 of "abc".
    assert_eq!(session.token_hash, "ba7816bf8f01cfea414140de5dae2223b00361a396177a9cb410ff61f20015ad");
    assert_eq!(session.user_id, "u1");
    assert_eq!(session.username, "alice");
    assert_eq!(session.role, "trader");
    assert_eq!(session.created_at, "created");
    assert_eq!(session.expires_at, "expires");
    assert!(!session.is_revoked);
    assert_eq!(session_with("h".to_string(), &ticket).token_hash, "h");
    assert_eq!(
        session_predicate("abc"),
        "token_hash = 'ba7816bf8f01cfea414140de5dae2223b00361a396177a9cb410ff61f20015ad'"
    );
    assert_eq!(
        live_session_predicate("abc"),
        "token_hash = 'ba7816bf8f01cfea414140de5dae2223b00361a396177a9cb410ff61f20015ad' AND is_revoked = false"
    );
    // Times before the epoch cannot be written into claims.
    let early = login_with("alice".to_string(), 7, &user_rows, Ok(true), Instant { secs: -5, nanos: 0 }, Some("c".to_string()), Some("e".to_string()));
    assert!(matches!(early, Err(LakehouseError::Internal(_))));
    let no_text = login_with("alice".to_string(), 7, &user_rows, Ok(true), Instant { secs: 5, nanos: 0 }, None, Some("e".to_string()));
    assert!(matches!(no_text, Err(LakehouseError::Internal(_))));
}

fn sample_row() -> UserRow {
    UserRow {
        user_id: "u1".to_string(),
        username: "alice".to_string(),
        email: "alice@example.com".to_string(),
        password_hash: "$argon2id$fake_hash".to_string(),
        role: "Trader".to_string(),
        subscription_tier: Some("PIONEER".to_string()),
        first_name: None,
        last_name: Some("Smith".to_string()),
        is_active: true,
        created_at: "2025-01-01T00:00:00Z".to_string(),
        last_login: None,
        preferences_json: Some("{}".to_string()),
    }
}

#[test]
fn rows_become_records() {
    let rows = vec![sample_row(), UserRow { user_id: "u2".to_string(), role: "weird".to_string(), subscription_tier: None, ..sample_row() }];
    let user = extract_user_from_batch(&rows, 0).unwrap();
    assert_eq!(user.role, UserRole::Trader);
    assert_eq!(user.subscription_tier, Some(SubscriptionTier::Pioneer));
    assert_eq!(user.first_name, "");
    assert_eq!(user.last_name, "Smith");
    assert_eq!(user.last_login, None);
    let all = query_users(&rows);
    assert_eq!(all.len(), 2);
    assert_eq!(all[1].user_id, "u2");
    assert_eq!(all[1].role, UserRole::Guest);
    assert_eq!(all[1].subscription_tier, None);
    assert_eq!(handle_get_user(&rows).map(|u| u.user_id), Some("u1".to_string()));
    assert!(handle_get_user(&vec![]).is_none());
    let back = user_row(&user, "h".to_string());
    assert_eq!(back.role, "trader");
    assert_eq!(back.subscription_tier.as_deref(), Some("pioneer"));
    assert_eq!(back.first_name.as_deref(), Some(""));
    assert_eq!(back.password_hash, "h");
}

#[test]
fn token_verification_needs_claims_session_and_user() {
    let claims = Some(JwtClaims { sub: "u1".to_string(), username: "alice".to_string(), role: "trader".to_string(), exp: 10, iat: 1 });
    let rows = vec![sample_row()];
    assert_eq!(handle_verify_token(&claims, 1, &rows).map(|u| u.user_id), Some("u1".to_string()));
    assert!(handle_verify_token(&None, 1, &rows).is_none());
    assert!(handle_verify_token(&claims, 0, &rows).is_none());
    assert!(handle_verify_token(&claims, 1, &vec![]).is_none());
}

#[test]
fn predicates_and_outcomes() {
    assert_eq!(column_equals("username", "alice"), "username = 'alice'");
    assert_eq!(reject_predicate("u1"), "user_id = 'u1' AND role = 'pending'");
    assert_eq!(PENDING_USERS, "role = 'pending'");
    assert_eq!(ACTIVE_USERS, "is_active = true");
    assert!(delete_succeeded(&Ok(DeleteMetrics { num_deleted_rows: 0, new_version: 3 })));
    assert!(!delete_succeeded(&Err(LakehouseError::TableNotFound("sessions".to_string()))));
    let actor = actor();
    assert_eq!(actor.jwt_secret, "test-secret-key-for-testing-only");
    assert_eq!(actor.session_days(false), 7);
    assert_eq!(actor.session_days(true), 30);
}
