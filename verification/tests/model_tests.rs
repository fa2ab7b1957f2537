use argon2::PasswordVerifier;
use threaded_messages::message::MessageModel;
use threaded_messages::store::Store;
use threaded_messages::users::UsersModel;

fn seeded_user(id: i32, name: &str, password: &str, email: &str) -> UsersModel {
    UsersModel {
        id,
        name: name.to_string(),
        email: email.to_string(),
        password: password.to_string(),
        created_at: 0,
        updated_at: 0,
    }
}

fn seeded_message(id: i32, user_id: i32, body: &str, parent_id: Option<i32>, t: u64) -> MessageModel {
    MessageModel {
        id,
        user_id,
        message: body.to_string(),
        parent_id,
        message_time: t,
        created_at: t,
        updated_at: t,
    }
}

#[test]
fn message_create() {
    let user_id = 1;
    let message = "test message".to_string();
    let parent_id = None;

    // Create user.
    let mut store = Store {
        users: vec![seeded_user(user_id, "test", "test", "test@example.com")],
        messages: vec![],
        next_user_id: 2,
        next_message_id: 1,
    };
    // Create message.
    let row = MessageModel::create(user_id, message.clone(), parent_id, &mut store).unwrap();

    assert_eq!(row.user_id, user_id);
    assert_eq!(row.message, message);
    assert_eq!(row.parent_id, parent_id);
}

#[test]
fn modify() {
    let user_id = 1;
    let message = "test message".to_string();

    // Create user and message.
    let mut store = Store {
        users: vec![seeded_user(user_id, "test", "test", "test@example.com")],
        messages: vec![seeded_message(1, user_id, &message, None, 0)],
        next_user_id: 2,
        next_message_id: 2,
    };

    let modified_message = "modified message".to_string();
    // Modify message.
    let row = MessageModel::modify(1, modified_message.clone(), &mut store).unwrap();

    assert_eq!(row.message, modified_message);
}

#[test]
fn delete() {
    let user_id = 1;
    let message = "test message".to_string();

    // Create user and message.
    let mut store = Store {
        users: vec![seeded_user(user_id, "test", "test", "test@example.com")],
        messages: vec![seeded_message(1, user_id, &message, None, 0)],
        next_user_id: 2,
        next_message_id: 2,
    };

    // Delete message.
    MessageModel::delete(user_id, &mut store).unwrap();

    // Check if message deleted.
    assert_eq!(store.messages.len(), 0);
}

#[test]
fn find_by_user_id_and_time_range() {
    let user_id = 1;
    let message = "test message".to_string();

    // Create user and message.
    let message_time: u64 = 1_700_000_000;
    let mut store = Store {
        users: vec![seeded_user(user_id, "test", "test", "test@example.com")],
        messages: vec![],
        next_user_id: 2,
        next_message_id: 1,
    };
    store
        .messages
        .push(seeded_message(1, user_id, &message, None, message_time));
    store.next_message_id = 2;

    // Find by user_id.
    let rows = MessageModel::find_by_user_id_and_time_range(user_id, None, None, &store).unwrap();
    assert_eq!(rows.len(), 1);
    // Find by user_id and start_time.
    let rows =
        MessageModel::find_by_user_id_and_time_range(user_id, Some(message_time), None, &store)
            .unwrap();
    assert_eq!(rows.len(), 1);
    // Find by user_id and end_time.
    let rows =
        MessageModel::find_by_user_id_and_time_range(user_id, None, Some(message_time), &store)
            .unwrap();
    assert_eq!(rows.len(), 1);
    // Find by user_id and start_time and end_time.
    let rows = MessageModel::find_by_user_id_and_time_range(
        user_id,
        Some(message_time),
        Some(message_time),
        &store,
    )
    .unwrap();
    assert_eq!(rows.len(), 1);
}

#[test]
fn find_messages_by_id() {
    let user_id = 1;
    let message = "test message".to_string();

    // Create user, a root message and a reply to it.
    let store = Store {
        users: vec![seeded_user(user_id, "test", "test", "test@example.com")],
        messages: vec![
            seeded_message(1, user_id, &message, None, 0),
            seeded_message(2, user_id, &message, Some(1), 0),
        ],
        next_user_id: 2,
        next_message_id: 3,
    };

    // Find thread.
    let rows = MessageModel::find_messages_by_id(user_id, &store).unwrap();
    assert_eq!(rows.len(), 2);
}

#[test]
fn users_create() {
    let name = "test";
    let email = "example.example.com";
    let password = "password";

    let mut store = Store::new();
    UsersModel::create(
        name.to_string(),
        email.to_string(),
        password.to_string(),
        &mut store,
    )
    .unwrap();
    let rows: Vec<&UsersModel> = store.users.iter().filter(|u| u.email == email).collect();
    assert_eq!(rows.len(), 1);

    // Check password.
    let parsed_hash = argon2::PasswordHash::new(&rows[0].password).expect("Unable to parse hash.");
    assert!(argon2::Argon2::default()
        .verify_password(password.as_bytes(), &parsed_hash)
        .is_ok());
}

#[test]
fn login() {
    let name = "test";
    let email = "example.example.com";
    let password = "password";

    let mut store = Store::new();
    UsersModel::create(
        name.to_string(),
        email.to_string(),
        password.to_string(),
        &mut store,
    )
    .unwrap();
    let token = UsersModel::login(email.to_string(), password.to_string(), b"secret", &store)
        .unwrap();
    assert!(!token.is_empty());
}
