use rpg_core::errors::Error;
use rpg_core::game::GameDb;
use rpg_core::id_alloc::IdAllocator;

fn registered_db_with_character() -> (GameDb, u64) {
    let mut db = GameDb::new();
    assert_eq!(db.register_user(1, "alice".to_string(), 1), Ok(()));
    let id = db
        .create_character(
            1,
            "Aria".to_string(),
            "mage".to_string(),
            "pale".to_string(),
            "red".to_string(),
            "green".to_string(),
            "robe".to_string(),
            2,
        )
        .expect("creation should succeed");
    (db, id)
}

#[test]
fn login_binds_session_and_refreshes_account() {
    let (mut db, id) = registered_db_with_character();
    assert_eq!(db.login(1, id, 30), Ok(()));
    let s = db.get_session(1).expect("session should exist");
    assert_eq!(s.identity, 1);
    assert_eq!(s.character_id, Some(id));
    assert_eq!(s.connected_at, 30);
    assert_eq!(s.last_activity, 30);
    let account = db.get_account(1).expect("account should exist");
    assert_eq!(account.last_login, 30);
    assert_eq!(account.created_at, 1);
}

#[test]
fn login_requires_registration() {
    let (mut db, id) = registered_db_with_character();
    assert_eq!(db.login(2, id, 30), Err(Error::NotRegistered));
    assert!(db.get_session(2).is_none());
}

#[test]
fn login_rejects_missing_character() {
    let (mut db, _id) = registered_db_with_character();
    assert_eq!(db.login(1, 99, 30), Err(Error::NotFound));
    assert!(db.get_session(1).is_none());
}

#[test]
fn login_rejects_foreign_character() {
    let (mut db, id) = registered_db_with_character();
    assert_eq!(db.register_user(2, "bob".to_string(), 1), Ok(()));
    assert_eq!(db.login(2, id, 30), Err(Error::NotOwner));
    assert!(db.get_session(2).is_none());
}

#[test]
fn login_then_logout_leaves_no_session() {
    let (mut db, id) = registered_db_with_character();
    assert_eq!(db.login(1, id, 30), Ok(()));
    assert_eq!(db.logout(1), Ok(()));
    assert!(db.get_session(1).is_none());
    assert_eq!(db.sessions.sessions.len(), 0);
}

#[test]
fn disconnect_after_logout_is_a_silent_no_op() {
    let (mut db, id) = registered_db_with_character();
    assert_eq!(db.login(1, id, 30), Ok(()));
    assert_eq!(db.logout(1), Ok(()));
    let sessions_before = db.sessions.sessions.len();
    let accounts_before = db.accounts.users.len();
    let characters_before = db.characters.characters.len();
    db.on_client_disconnect(1);
    assert_eq!(db.sessions.sessions.len(), sessions_before);
    assert_eq!(db.accounts.users.len(), accounts_before);
    assert_eq!(db.characters.characters.len(), characters_before);
}

#[test]
fn logout_without_session_reports_not_logged_in() {
    let (mut db, _id) = registered_db_with_character();
    assert_eq!(db.logout(1), Err(Error::NotLoggedIn));
}

#[test]
fn connect_establishes_unbound_session() {
    let mut db = GameDb::new();
    // a transport connect needs no account
    db.on_client_connect(9, 50);
    let s = db.get_session(9).expect("session should exist");
    assert_eq!(s.identity, 9);
    assert_eq!(s.character_id, None);
    assert_eq!(s.connected_at, 50);
    assert_eq!(s.last_activity, 50);
}

#[test]
fn reconnect_replaces_stale_session() {
    let (mut db, id) = registered_db_with_character();
    assert_eq!(db.login(1, id, 30), Ok(()));
    db.on_client_connect(1, 60);
    assert_eq!(db.sessions.sessions.len(), 1);
    let s = db.get_session(1).expect("session should exist");
    assert_eq!(s.character_id, None);
    assert_eq!(s.connected_at, 60);
}

#[test]
fn position_update_refreshes_session_activity() {
    let (mut db, id) = registered_db_with_character();
    assert_eq!(db.login(1, id, 30), Ok(()));
    assert_eq!(db.update_position(1, id, 5.0f32.to_bits(), 7.0f32.to_bits(), None, 35), Ok(()));
    let s = db.get_session(1).expect("session should exist");
    assert_eq!(s.last_activity, 35);
    assert_eq!(s.connected_at, 30);
    assert_eq!(s.character_id, Some(id));
}

#[test]
fn position_update_is_permitted_without_a_session() {
    let (mut db, id) = registered_db_with_character();
    assert_eq!(db.update_position(1, id, 5.0f32.to_bits(), 7.0f32.to_bits(), None, 35), Ok(()));
    let c = db.get_character(id).expect("character should exist");
    assert_eq!(f32::from_bits(c.position_x), 5.0);
    assert!(db.get_session(1).is_none());
}

#[test]
fn full_scenario_from_registration_to_relogin() {
    let mut db = GameDb::new();
    assert_eq!(db.register_user(1, "alice".to_string(), 10), Ok(()));
    let id = db
        .create_character(
            1,
            "Aria".to_string(),
            "mage".to_string(),
            "pale".to_string(),
            "red".to_string(),
            "green".to_string(),
            "robe".to_string(),
            11,
        )
        .expect("creation should succeed");
    assert_eq!(id, 1);
    assert_eq!(db.login(1, id, 12), Ok(()));
    let before = db.get_character(id).expect("character should exist");
    assert_eq!(db.update_position(1, id, 5.0f32.to_bits(), 7.0f32.to_bits(), None, 13), Ok(()));
    let after = db.get_character(id).expect("character should exist");
    assert!(after.last_updated > before.last_updated);
    assert_eq!(db.logout(1), Ok(()));
    assert!(db.get_session(1).is_none());
    // policy: a position update without an active session is still permitted
    assert_eq!(db.update_position(1, id, 5.0f32.to_bits(), 7.0f32.to_bits(), None, 14), Ok(()));
}

#[test]
fn allocator_counts_independently_per_name() {
    let mut ids = IdAllocator::new();
    let a = "alpha".to_string();
    let b = "beta".to_string();
    assert_eq!(ids.current(&a), 0);
    assert_eq!(ids.next(&a), Ok(1));
    assert_eq!(ids.next(&a), Ok(2));
    assert_eq!(ids.next(&b), Ok(1));
    assert_eq!(ids.current(&a), 2);
    assert_eq!(ids.current(&b), 1);
}

#[test]
fn error_messages_name_each_failure() {
    assert_eq!(Error::AlreadyRegistered.message(), "User already registered");
    assert_eq!(Error::NotRegistered.message(), "User not registered");
    assert_eq!(Error::NameTaken.message(), "Character name already taken");
    assert_eq!(Error::NotFound.message(), "Character not found");
    assert_eq!(Error::NotOwner.message(), "Not your character");
    assert_eq!(Error::NotLoggedIn.message(), "Not logged in");
    assert_eq!(Error::AllocationFailure.message(), "Identifier allocation failed");
}
