use rpg_core::errors::Error;
use rpg_core::game::GameDb;
use rpg_core::records::Counter;
use rpg_core::records::Direction;

fn sample_character(db: &mut GameDb, identity: u64, name: &str, now: i64) -> u64 {
    db.create_character(
        identity,
        name.to_string(),
        "mage".to_string(),
        "pale".to_string(),
        "red".to_string(),
        "green".to_string(),
        "robe".to_string(),
        now,
    )
    .expect("creation should succeed")
}

#[test]
fn register_creates_one_account() {
    let mut db = GameDb::new();
    assert_eq!(db.register_user(7, "alice".to_string(), 10), Ok(()));
    assert!(db.is_registered(7));
    let account = db.get_account(7).expect("account should exist");
    assert_eq!(account.identity, 7);
    assert_eq!(account.username, "alice");
    assert_eq!(account.created_at, 10);
    assert_eq!(account.last_login, 10);
    assert_eq!(db.accounts.users.len(), 1);
}

#[test]
fn register_twice_fails_and_keeps_one_account() {
    let mut db = GameDb::new();
    assert_eq!(db.register_user(7, "alice".to_string(), 10), Ok(()));
    assert_eq!(
        db.register_user(7, "alice again".to_string(), 20),
        Err(Error::AlreadyRegistered)
    );
    assert_eq!(db.accounts.users.len(), 1);
    let account = db.get_account(7).expect("account should exist");
    assert_eq!(account.username, "alice");
    assert_eq!(account.last_login, 10);
}

#[test]
fn register_many_identities_each_has_one_account() {
    let mut db = GameDb::new();
    for identity in 0u64..20 {
        assert_eq!(db.register_user(identity, format!("user{}", identity), 5), Ok(()));
        assert_eq!(db.register_user(identity, "dup".to_string(), 6), Err(Error::AlreadyRegistered));
    }
    assert_eq!(db.accounts.users.len(), 20);
}

#[test]
fn character_ids_strictly_increase_without_repeats() {
    let mut db = GameDb::new();
    assert_eq!(db.register_user(1, "alice".to_string(), 1), Ok(()));
    let mut ids: Vec<u64> = Vec::new();
    for n in 0u64..50 {
        let id = sample_character(&mut db, 1, &format!("hero{}", n), 2);
        ids.push(id);
    }
    for (k, id) in ids.iter().enumerate() {
        assert_eq!(*id, k as u64 + 1);
    }
    for w in ids.windows(2) {
        assert!(w[0] < w[1]);
    }
    let mut dedup = ids.clone();
    dedup.sort();
    dedup.dedup();
    assert_eq!(dedup.len(), 50);
}

#[test]
fn create_character_requires_registration() {
    let mut db = GameDb::new();
    let r = db.create_character(
        1,
        "Aria".to_string(),
        "mage".to_string(),
        "pale".to_string(),
        "red".to_string(),
        "green".to_string(),
        "robe".to_string(),
        2,
    );
    assert_eq!(r, Err(Error::NotRegistered));
    assert_eq!(db.characters.characters.len(), 0);
    assert_eq!(db.characters.appearances.len(), 0);
}

#[test]
fn create_character_rejects_taken_name() {
    let mut db = GameDb::new();
    assert_eq!(db.register_user(1, "alice".to_string(), 1), Ok(()));
    assert_eq!(db.register_user(2, "bob".to_string(), 1), Ok(()));
    let first = sample_character(&mut db, 1, "Aria", 2);
    assert_eq!(first, 1);
    // the name is taken globally, even by another account's character
    let r = db.create_character(
        2,
        "Aria".to_string(),
        "rogue".to_string(),
        "tan".to_string(),
        "black".to_string(),
        "blue".to_string(),
        "leather".to_string(),
        3,
    );
    assert_eq!(r, Err(Error::NameTaken));
    assert_eq!(db.characters.characters.len(), 1);
}

#[test]
fn exhausted_counter_reports_allocation_failure() {
    let mut db = GameDb::new();
    assert_eq!(db.register_user(1, "alice".to_string(), 1), Ok(()));
    db.ids.counters.push(Counter { name: "character_id".to_string(), value: u64::MAX });
    let r = db.create_character(
        1,
        "Aria".to_string(),
        "mage".to_string(),
        "pale".to_string(),
        "red".to_string(),
        "green".to_string(),
        "robe".to_string(),
        2,
    );
    assert_eq!(r, Err(Error::AllocationFailure));
    assert_eq!(db.characters.characters.len(), 0);
}

#[test]
fn creation_round_trip_returns_inputs_and_spawn_default() {
    let mut db = GameDb::new();
    assert_eq!(db.register_user(1, "alice".to_string(), 1), Ok(()));
    let id = db
        .create_character(
            1,
            "Aria".to_string(),
            "mage".to_string(),
            "pale".to_string(),
            "red".to_string(),
            "green".to_string(),
            "robe".to_string(),
            42,
        )
        .expect("creation should succeed");
    let c = db.get_character(id).expect("character should exist");
    assert_eq!(c.id, id);
    assert_eq!(c.user_identity, 1);
    assert_eq!(c.name, "Aria");
    assert_eq!(c.class, "mage");
    assert_eq!(c.level, 1);
    assert_eq!(f32::from_bits(c.position_x), 0.0);
    assert_eq!(f32::from_bits(c.position_y), 0.0);
    assert_eq!(c.facing, None);
    assert_eq!(c.created_at, 42);
    assert_eq!(c.last_updated, 42);
    let a = db.get_appearance(id).expect("appearance should exist");
    assert_eq!(a.character_id, id);
    assert_eq!(a.skin, "pale");
    assert_eq!(a.hair, "red");
    assert_eq!(a.eyes, "green");
    assert_eq!(a.outfit, "robe");
    let by_name = db.get_character_by_name(&"Aria".to_string()).expect("lookup should succeed");
    assert_eq!(by_name.id, id);
    assert_eq!(db.owner_of(id), Some(1));
}

#[test]
fn update_position_by_non_owner_fails_and_changes_nothing() {
    let mut db = GameDb::new();
    assert_eq!(db.register_user(1, "alice".to_string(), 1), Ok(()));
    assert_eq!(db.register_user(2, "bob".to_string(), 1), Ok(()));
    let id = sample_character(&mut db, 1, "Aria", 2);
    let before = db.get_character(id).expect("character should exist");
    let r = db.update_position(2, id, 5.0f32.to_bits(), 7.0f32.to_bits(), Some(Direction::Up), 9);
    assert_eq!(r, Err(Error::NotOwner));
    let after = db.get_character(id).expect("character should exist");
    assert_eq!(before, after);
}

#[test]
fn update_position_on_missing_character_fails_not_found() {
    let mut db = GameDb::new();
    assert_eq!(db.register_user(1, "alice".to_string(), 1), Ok(()));
    let r = db.update_position(1, 99, 5.0f32.to_bits(), 7.0f32.to_bits(), None, 9);
    assert_eq!(r, Err(Error::NotFound));
}

#[test]
fn update_position_replaces_position_and_timestamp_only() {
    let mut db = GameDb::new();
    assert_eq!(db.register_user(1, "alice".to_string(), 1), Ok(()));
    let id = sample_character(&mut db, 1, "Aria", 2);
    let r = db.update_position(1, id, 5.0f32.to_bits(), 7.0f32.to_bits(), Some(Direction::Left), 9);
    assert_eq!(r, Ok(()));
    let c = db.get_character(id).expect("character should exist");
    assert_eq!(f32::from_bits(c.position_x), 5.0);
    assert_eq!(f32::from_bits(c.position_y), 7.0);
    assert_eq!(c.facing, Some(Direction::Left));
    assert_eq!(c.last_updated, 9);
    assert_eq!(c.name, "Aria");
    assert_eq!(c.class, "mage");
    assert_eq!(c.level, 1);
    assert_eq!(c.created_at, 2);
}
