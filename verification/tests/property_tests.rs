use threaded_messages::errors::AppError;
use threaded_messages::message::MessageModel;
use threaded_messages::store::Store;
use threaded_messages::token::{encode_token, verify_token};
use threaded_messages::users::UsersModel;

fn seeded_user(id: i32, email: &str) -> UsersModel {
    UsersModel {
        id,
        name: "someone".to_string(),
        email: email.to_string(),
        password: "irrelevant".to_string(),
        created_at: 0,
        updated_at: 0,
    }
}

fn one_user_store() -> Store {
    Store {
        users: vec![seeded_user(1, "a@example.com")],
        messages: vec![],
        next_user_id: 2,
        next_message_id: 1,
    }
}

#[test]
fn subtree_of_fresh_root_is_the_row_itself() {
    // Create a thread root, then reconstruct its subtree: exactly one row,
    // equal to the created message.
    let mut store = one_user_store();
    let created = MessageModel::create_at(1, "hello".to_string(), None, 7, &mut store).unwrap();
    let rows = MessageModel::find_messages_by_id(created.id, &store).unwrap();
    assert_eq!(rows.len(), 1);
    assert_eq!(rows[0].id, created.id);
    assert_eq!(rows[0].user_id, created.user_id);
    assert_eq!(rows[0].message, created.message);
    assert_eq!(rows[0].parent_id, created.parent_id);
    assert_eq!(rows[0].message_time, created.message_time);
}

#[test]
fn subtree_contains_root_child_and_grandchild() {
    // m <- d1 <- d2, plus an unrelated root: subtreeOf(m) is {m, d1, d2}.
    let mut store = one_user_store();
    let m = MessageModel::create_at(1, "m".to_string(), None, 1, &mut store).unwrap();
    let other = MessageModel::create_at(1, "other root".to_string(), None, 1, &mut store).unwrap();
    let d1 = MessageModel::create_at(1, "d1".to_string(), Some(m.id), 2, &mut store).unwrap();
    let d2 = MessageModel::create_at(1, "d2".to_string(), Some(d1.id), 3, &mut store).unwrap();

    let rows = MessageModel::find_messages_by_id(m.id, &store).unwrap();
    let mut ids: Vec<i32> = rows.iter().map(|r| r.id).collect();
    ids.sort();
    assert_eq!(ids, vec![m.id, d1.id, d2.id]);
    assert!(!ids.contains(&other.id));
}

#[test]
fn create_rejects_missing_author_and_missing_parent() {
    let mut store = one_user_store();
    let e = MessageModel::create_at(99, "body".to_string(), None, 0, &mut store).unwrap_err();
    assert!(matches!(e, AppError::NotFound(m) if m == "User not found."));

    let e = MessageModel::create_at(1, "body".to_string(), Some(42), 0, &mut store).unwrap_err();
    assert!(matches!(e, AppError::NotFound(m) if m == "Parent message not found."));
}

#[test]
fn modify_and_delete_reject_missing_message() {
    let mut store = one_user_store();
    let e = MessageModel::modify_at(5, "body".to_string(), 0, &mut store).unwrap_err();
    assert!(matches!(e, AppError::NotFound(m) if m == "Message not found."));

    let e = MessageModel::delete(5, &mut store).unwrap_err();
    assert!(matches!(e, AppError::NotFound(m) if m == "Message not found."));
}

#[test]
fn time_range_bounds_are_optional_and_inclusive() {
    // Three messages at t1 < t2 < t3 for one author.
    let (t1, t2, t3) = (10u64, 20u64, 30u64);
    let mut store = one_user_store();
    let m1 = MessageModel::create_at(1, "first".to_string(), None, t1, &mut store).unwrap();
    let m2 = MessageModel::create_at(1, "second".to_string(), None, t2, &mut store).unwrap();
    let m3 = MessageModel::create_at(1, "third".to_string(), None, t3, &mut store).unwrap();

    let times = |rows: Vec<threaded_messages::message::MessageModelResponse>| {
        let mut ts: Vec<u64> = rows.iter().map(|r| r.message_time).collect();
        ts.sort();
        ts
    };

    let rows =
        MessageModel::find_by_user_id_and_time_range(1, Some(t2), None, &store).unwrap();
    assert_eq!(times(rows), vec![t2, t3]);

    let rows =
        MessageModel::find_by_user_id_and_time_range(1, None, Some(t2), &store).unwrap();
    assert_eq!(times(rows), vec![t1, t2]);

    let rows =
        MessageModel::find_by_user_id_and_time_range(1, Some(t1), Some(t3), &store).unwrap();
    assert_eq!(times(rows), vec![t1, t2, t3]);

    let rows = MessageModel::find_by_user_id_and_time_range(1, None, None, &store).unwrap();
    assert_eq!(times(rows), vec![t1, t2, t3]);

    let _ = (m1, m2, m3);
}

#[test]
fn register_then_login_round_trip() {
    let mut store = Store::new();
    let resp = UsersModel::create(
        "alice".to_string(),
        "alice@example.com".to_string(),
        "correct horse".to_string(),
        &mut store,
    )
    .unwrap();
    assert_eq!(resp.name, "alice");
    assert_eq!(resp.email, "alice@example.com");

    // The stored credential is a salted hash, never the plaintext.
    assert_ne!(store.users[0].password, "correct horse");

    // Correct password: a non-empty token.
    let token = UsersModel::login(
        "alice@example.com".to_string(),
        "correct horse".to_string(),
        b"secret",
        &store,
    )
    .unwrap();
    assert!(!token.is_empty());

    // Wrong password: InvalidCredentials.
    let e = UsersModel::login(
        "alice@example.com".to_string(),
        "wrong horse".to_string(),
        b"secret",
        &store,
    )
    .unwrap_err();
    assert!(matches!(e, AppError::InvalidCredentials));

    // Unknown email: NotFound.
    let e = UsersModel::login(
        "bob@example.com".to_string(),
        "correct horse".to_string(),
        b"secret",
        &store,
    )
    .unwrap_err();
    assert!(matches!(e, AppError::NotFound(m) if m == "User not found."));
}

#[test]
fn duplicate_email_is_rejected_the_second_time() {
    let mut store = Store::new();
    UsersModel::create(
        "alice".to_string(),
        "same@example.com".to_string(),
        "pw one".to_string(),
        &mut store,
    )
    .unwrap();
    let e = UsersModel::create(
        "alicia".to_string(),
        "same@example.com".to_string(),
        "pw two".to_string(),
        &mut store,
    )
    .unwrap_err();
    assert!(matches!(e, AppError::DuplicateEmail));
    assert_eq!(store.users.len(), 1);
}

#[test]
fn token_is_valid_within_24_hours_and_expired_after() {
    let issued: u64 = 1_700_000_000;
    let token = encode_token(42, issued, b"secret").unwrap();

    // Accepted one hour after issuance; the claims carry the id in decimal
    // and the 24-hour expiry.
    let claims = verify_token(&token, issued + 3600, b"secret").unwrap();
    assert_eq!(claims.sub, "42");
    assert_eq!(claims.exp, issued + 86400);

    // Rejected 25 hours after issuance.
    let e = verify_token(&token, issued + 25 * 3600, b"secret").unwrap_err();
    assert!(matches!(e, AppError::TokenExpired));
}

#[test]
fn tampered_or_foreign_tokens_are_invalid() {
    let issued: u64 = 1_700_000_000;
    let token = encode_token(7, issued, b"secret").unwrap();

    // Wrong secret: the signature does not check out.
    let e = verify_token(&token, issued + 1, b"other secret").unwrap_err();
    assert!(matches!(e, AppError::InvalidToken));

    // Not a token at all.
    let e = verify_token("garbage", issued + 1, b"secret").unwrap_err();
    assert!(matches!(e, AppError::InvalidToken));

    // A tampered payload.
    let mut broken = token.clone();
    broken.push('x');
    let e = verify_token(&broken, issued + 1, b"secret").unwrap_err();
    assert!(matches!(e, AppError::InvalidToken));
}

#[test]
fn id_space_exhaustion_is_a_storage_failure() {
    let mut store = one_user_store();
    store.next_message_id = i32::MAX;
    let e = MessageModel::create_at(1, "body".to_string(), None, 0, &mut store).unwrap_err();
    assert!(matches!(e, AppError::StorageFailure));

    let mut store = Store::new();
    store.next_user_id = i32::MAX;
    let e = UsersModel::create(
        "alice".to_string(),
        "alice@example.com".to_string(),
        "pw".to_string(),
        &mut store,
    )
    .unwrap_err();
    assert!(matches!(e, AppError::StorageFailure));
}

#[test]
fn modify_keeps_immutable_fields_and_delete_does_not_cascade() {
    let mut store = one_user_store();
    let root = MessageModel::create_at(1, "root".to_string(), None, 5, &mut store).unwrap();
    let child = MessageModel::create_at(1, "child".to_string(), Some(root.id), 6, &mut store)
        .unwrap();

    // Modify changes body and updated_at only.
    let row = MessageModel::modify_at(child.id, "edited".to_string(), 99, &mut store).unwrap();
    assert_eq!(row.message, "edited");
    assert_eq!(row.message_time, 6);
    let stored = store.messages.iter().find(|m| m.id == child.id).unwrap();
    assert_eq!(stored.message, "edited");
    assert_eq!(stored.created_at, 6);
    assert_eq!(stored.updated_at, 99);

    // Deleting the root orphans the child: it stays, parent reference
    // dangling, and is now the root of its own subtree.
    assert_eq!(MessageModel::delete(root.id, &mut store).unwrap(), root.id);
    assert_eq!(store.messages.len(), 1);
    assert_eq!(store.messages[0].parent_id, Some(root.id));
    let rows = MessageModel::find_messages_by_id(child.id, &store).unwrap();
    assert_eq!(rows.len(), 1);
}

#[test]
fn error_descriptions_name_the_missing_entity() {
    let e = AppError::NotFound("User not found.".to_string());
    assert_eq!(e.describe(), "User not found.");
    assert_eq!(AppError::DuplicateEmail.describe(), "Email already registered.");
    assert_eq!(AppError::InvalidToken.describe(), "Invalid token.");
    assert_eq!(AppError::TokenExpired.describe(), "Token expired.");
    assert_eq!(AppError::InvalidCredentials.describe(), "Invalid password.");
    assert_eq!(AppError::HashingFailure.describe(), "Credential primitive failure.");
    assert_eq!(AppError::StorageFailure.describe(), "Storage failure.");
}
