//! The laws of the data layer, stated over the same spec functions the
//! operations' contracts use and proved once and for all.
//!
//! Each law quantifies over every well-formed state, so together with the
//! operations' postconditions (every operation returns a well-formed state) it
//! holds after any sequence of operations.

use vstd::prelude::*;

use crate::accounts::lemma_user_index_unique;
use crate::characters::char_index;
use crate::characters::char_record;
use crate::characters::has_char;
use crate::characters::lemma_char_index_unique;
use crate::characters::lemma_name_index_unique;
use crate::game::GameDb;
use crate::sessions::lemma_session_index_unique;

verus! {

/// At most one account exists per identity: in any well-formed state, two
/// account records holding the same identity are the same record. Since
/// `register_user` both requires and restores well-formedness, this holds
/// after any sequence of registrations.
pub proof fn lemma_one_account_per_identity(db: GameDb, i: int, j: int)
    requires
        db.wf(),
        0 <= i < db.accounts.users@.len(),
        0 <= j < db.accounts.users@.len(),
        db.accounts.users@[i].identity == db.accounts.users@[j].identity,
    ensures
        i == j,
{
    lemma_user_index_unique(db.accounts.users@, db.accounts.users@[i].identity, i);
    lemma_user_index_unique(db.accounts.users@, db.accounts.users@[j].identity, j);
}

/// Character identifiers never repeat: in any well-formed state, two character
/// records holding the same identifier are the same record. Strict increase is
/// part of `create_character`'s contract: the identifier it returns exceeds
/// the identifier of every character that existed before the call.
pub proof fn lemma_character_ids_never_repeat(db: GameDb, i: int, j: int)
    requires
        db.wf(),
        0 <= i < db.characters.characters@.len(),
        0 <= j < db.characters.characters@.len(),
        db.characters.characters@[i].id == db.characters.characters@[j].id,
    ensures
        i == j,
{
    lemma_char_index_unique(db.characters.characters@, db.characters.characters@[i].id, i);
    lemma_char_index_unique(db.characters.characters@, db.characters.characters@[j].id, j);
}

/// Character names never repeat: in any well-formed state, two character
/// records holding the same name are the same record.
pub proof fn lemma_one_character_per_name(db: GameDb, i: int, j: int)
    requires
        db.wf(),
        0 <= i < db.characters.characters@.len(),
        0 <= j < db.characters.characters@.len(),
        db.characters.characters@[i].name@ == db.characters.characters@[j].name@,
    ensures
        i == j,
{
    lemma_name_index_unique(db.characters.characters@, db.characters.characters@[i].name@, i);
    lemma_name_index_unique(db.characters.characters@, db.characters.characters@[j].name@, j);
}

/// At most one session exists per identity: in any well-formed state, two
/// session records holding the same identity are the same record.
pub proof fn lemma_one_session_per_identity(db: GameDb, i: int, j: int)
    requires
        db.wf(),
        0 <= i < db.sessions.sessions@.len(),
        0 <= j < db.sessions.sessions@.len(),
        db.sessions.sessions@[i].identity == db.sessions.sessions@[j].identity,
    ensures
        i == j,
{
    lemma_session_index_unique(db.sessions.sessions@, db.sessions.sessions@[i].identity, i);
    lemma_session_index_unique(db.sessions.sessions@, db.sessions.sessions@[j].identity, j);
}

/// Round trip: in a well-formed state whose last character record was just
/// appended, looking that character up by its identifier yields exactly the
/// appended record, and looking its appearance up yields exactly the appended
/// appearance. Together with `create_character`'s contract — it appends a
/// record whose fields are the given inputs and the spawn position — and the
/// contracts of `get_character` and `get_appearance`, a lookup after a
/// successful creation returns the inputs unchanged.
pub proof fn lemma_lookup_after_create(db: GameDb, id: u64)
    requires
        db.wf(),
        db.characters.characters@.len() > 0,
        db.characters.characters@.last().id == id,
    ensures
        has_char(db.characters.characters@, id),
        char_record(db.characters.characters@, id) == db.characters.characters@.last(),
        db.characters.appearances@[char_index(db.characters.characters@, id)]
            == db.characters.appearances@.last(),
{
    let chars = db.characters.characters@;
    lemma_char_index_unique(chars, id, chars.len() - 1);
}

} // verus!
