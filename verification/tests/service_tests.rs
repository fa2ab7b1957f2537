use threaded_messages::errors::AppError;
use threaded_messages::mutations::MutationRoot;
use threaded_messages::queries::QueryRoot;
use threaded_messages::store::Store;
use threaded_messages::token::encode_token;
use threaded_messages::users::UsersModel;

const SECRET: &[u8] = b"secret";

fn seeded_user(id: i32, email: &str) -> UsersModel {
    UsersModel {
        id,
        name: "someone".to_string(),
        email: email.to_string(),
        password: "irrelevant".to_string(),
        created_at: 0,
        updated_at: 0,
    }
}

fn two_user_store() -> Store {
    Store {
        users: vec![seeded_user(1, "a@example.com"), seeded_user(2, "b@example.com")],
        messages: vec![],
        next_user_id: 3,
        next_message_id: 1,
    }
}

#[test]
fn mutations_require_a_token_of_the_author() {
    let mut store = two_user_store();
    let now: u64 = 1_700_000_000;
    let token1 = encode_token(1, now, SECRET).unwrap();
    let token2 = encode_token(2, now, SECRET).unwrap();

    // Creating on someone else's behalf is rejected.
    let e = MutationRoot::create_message(
        1,
        "hi".to_string(),
        None,
        token2.clone(),
        now,
        SECRET,
        &mut store,
    )
    .unwrap_err();
    assert!(matches!(e, AppError::InvalidToken));

    // With the author's own token the message is created.
    let row = MutationRoot::create_message(
        1,
        "hi".to_string(),
        None,
        token1.clone(),
        now,
        SECRET,
        &mut store,
    )
    .unwrap();
    assert_eq!(row.user_id, 1);

    // Another user cannot modify or delete it.
    let e = MutationRoot::modify_message(
        row.id,
        "defaced".to_string(),
        token2.clone(),
        now,
        SECRET,
        &mut store,
    )
    .unwrap_err();
    assert!(matches!(e, AppError::InvalidToken));
    let e = MutationRoot::delete_message(row.id, token2, now, SECRET, &mut store).unwrap_err();
    assert!(matches!(e, AppError::InvalidToken));

    // The author can.
    let edited = MutationRoot::modify_message(
        row.id,
        "edited".to_string(),
        token1.clone(),
        now,
        SECRET,
        &mut store,
    )
    .unwrap();
    assert_eq!(edited.message, "edited");
    assert_eq!(
        MutationRoot::delete_message(row.id, token1, now, SECRET, &mut store).unwrap(),
        row.id
    );
}

#[test]
fn expired_tokens_gate_every_mutation() {
    let mut store = two_user_store();
    let issued: u64 = 1_700_000_000;
    let token = encode_token(1, issued, SECRET).unwrap();
    let late = issued + 25 * 3600;

    let e = MutationRoot::create_message(
        1,
        "hi".to_string(),
        None,
        token.clone(),
        late,
        SECRET,
        &mut store,
    )
    .unwrap_err();
    assert!(matches!(e, AppError::TokenExpired));
    let e = MutationRoot::modify_message(1, "x".to_string(), token.clone(), late, SECRET, &mut store)
        .unwrap_err();
    assert!(matches!(e, AppError::TokenExpired));
    let e = MutationRoot::delete_message(1, token, late, SECRET, &mut store).unwrap_err();
    assert!(matches!(e, AppError::TokenExpired));
}

#[test]
fn mutating_a_missing_message_with_a_valid_token_is_not_found() {
    let mut store = two_user_store();
    let now: u64 = 1_700_000_000;
    let token = encode_token(1, now, SECRET).unwrap();
    let e = MutationRoot::modify_message(9, "x".to_string(), token.clone(), now, SECRET, &mut store)
        .unwrap_err();
    assert!(matches!(e, AppError::NotFound(m) if m == "Message not found."));
    let e = MutationRoot::delete_message(9, token, now, SECRET, &mut store).unwrap_err();
    assert!(matches!(e, AppError::NotFound(m) if m == "Message not found."));
}

#[test]
fn create_user_registers_and_queries_read_back() {
    let mut store = Store::new();
    let now: u64 = 1_700_000_000;
    let resp =
        MutationRoot::create_user("carol".to_string(), "c@example.com".to_string(), "pw".to_string(), now, &mut store)
            .unwrap();
    assert_eq!(resp.id(), 1);
    assert_eq!(resp.name(), "carol");
    assert_eq!(resp.email(), "c@example.com");

    let token = encode_token(resp.id, now, SECRET).unwrap();
    let m = MutationRoot::create_message(
        resp.id,
        "first post".to_string(),
        None,
        token,
        now,
        SECRET,
        &mut store,
    )
    .unwrap();

    let rows = QueryRoot::find_by_user_id_and_time_range(resp.id, None, None, &store).unwrap();
    assert_eq!(rows.len(), 1);
    assert_eq!(rows[0].id(), m.id);
    assert_eq!(rows[0].user_id(), resp.id);
    assert_eq!(rows[0].message(), "first post");
    assert_eq!(rows[0].parent_id(), None);
    assert_eq!(rows[0].message_time(), now);

    let thread = QueryRoot::find_messages_by_id(m.id, &store).unwrap();
    assert_eq!(thread.len(), 1);

    let e = QueryRoot::find_by_user_id_and_time_range(77, None, None, &store).unwrap_err();
    assert!(matches!(e, AppError::NotFound(msg) if msg == "User not found."));
    let e = QueryRoot::find_messages_by_id(77, &store).unwrap_err();
    assert!(matches!(e, AppError::NotFound(msg) if msg == "Message not found."));
}
