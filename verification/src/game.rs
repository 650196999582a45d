//! The data layer as a whole: the five keyed collections and the atomic
//! operations a hosting runtime drives.
//!
//! Every operation validates against the current state and either commits all
//! its writes or returns an error having written nothing. Policies, chosen
//! once and encoded here as the single source of truth:
//!
//! - registering an identity that already holds an account fails with
//!   `AlreadyRegistered` (no silent refresh);
//! - character names are unique across all characters of all accounts;
//! - a position update is permitted for the owner whether or not a session is
//!   active; an active session merely has its activity timestamp refreshed;
//! - registration grants no starter characters;
//! - new characters spawn at the origin.

use vstd::prelude::*;

use crate::accounts::AccountRegistry;
use crate::accounts::has_user;
use crate::accounts::lemma_has_user_update;
use crate::accounts::user_index;
use crate::accounts::user_record;
use crate::characters::CharacterRegistry;
use crate::characters::char_index;
use crate::characters::char_record;
use crate::characters::has_char;
use crate::characters::lemma_has_char_push;
use crate::characters::lemma_has_char_update;
use crate::characters::name_index;
use crate::characters::name_taken;
use crate::errors::Error;
use crate::id_alloc::IdAllocator;
use crate::id_alloc::counter_value;
use crate::records::Character;
use crate::records::CharacterAppearance;
use crate::records::Direction;
use crate::records::SPAWN_X;
use crate::records::SPAWN_Y;
use crate::records::Session;
use crate::records::User;
use crate::sessions::SessionManager;
use crate::sessions::has_session;
use crate::sessions::session_index;
use crate::sessions::session_record;

verus! {

/// The name of the counter that issues character identifiers.
pub open spec fn character_counter_name() -> Seq<char> {
    "character_id"@
}

/// Whether every character in `chars` carries an identifier in `1 ..= bound`.
pub open spec fn ids_ok(chars: Seq<Character>, bound: u64) -> bool {
    forall|i: int| 0 <= i < chars.len() ==> 1 <= (#[trigger] chars[i]).id <= bound
}

/// Whether every character in `chars` is owned by a registered account.
pub open spec fn owners_ok(chars: Seq<Character>, users: Seq<User>) -> bool {
    forall|i: int|
        0 <= i < chars.len() ==> has_user(users, (#[trigger] chars[i]).user_identity)
}

/// Whether every session bound to a character references one that exists.
pub open spec fn session_refs_ok(sess: Seq<Session>, chars: Seq<Character>) -> bool {
    forall|i: int|
        0 <= i < sess.len() ==> match (#[trigger] sess[i]).character_id {
            Some(cid) => has_char(chars, cid),
            None => true,
        }
}

/// The whole data layer: the identifier counters and the four record
/// collections, mutated only through the operations below.
pub struct GameDb {
    /// The identifier counters.
    pub ids: IdAllocator,
    /// The account records.
    pub accounts: AccountRegistry,
    /// The character and appearance records.
    pub characters: CharacterRegistry,
    /// The session records.
    pub sessions: SessionManager,
}

impl GameDb {
    /// The value the character counter currently holds: the last identifier
    /// issued, or 0 when none was issued yet.
    pub open spec fn char_counter(self) -> u64 {
        counter_value(self.ids.counters@, character_counter_name())
    }

    /// The cross-record invariant every operation preserves: each collection
    /// is well formed, every character identifier was issued by the counter
    /// and lies in `1 ..= counter`, every character is owned by a registered
    /// account, and every session bound to a character references one that
    /// exists.
    pub open spec fn wf(self) -> bool {
        &&& self.ids.wf()
        &&& self.accounts.wf()
        &&& self.characters.wf()
        &&& self.sessions.wf()
        &&& ids_ok(self.characters.characters@, self.char_counter())
        &&& owners_ok(self.characters.characters@, self.accounts.users@)
        &&& session_refs_ok(self.sessions.sessions@, self.characters.characters@)
    }

    /// An empty data layer, as the host sees it at system start.
    pub fn new() -> (r: Self)
        ensures
            r.wf(),
            r.ids.counters@.len() == 0,
            r.accounts.users@.len() == 0,
            r.characters.characters@.len() == 0,
            r.characters.appearances@.len() == 0,
            r.sessions.sessions@.len() == 0,
    {
        GameDb {
            ids: IdAllocator::new(),
            accounts: AccountRegistry::new(),
            characters: CharacterRegistry::new(),
            sessions: SessionManager::new(),
        }
    }

    /// Creates the account of `identity` with display name `username` and both
    /// timestamps set to `now`. Fails with `AlreadyRegistered`, changing
    /// nothing, when an account for `identity` already exists; no starter
    /// characters are granted.
    pub fn register_user(&mut self, identity: u64, username: String, now: i64) -> (r: Result<
        (),
        Error,
    >)
        requires
            old(self).wf(),
        ensures
            final(self).wf(),
            has_user(old(self).accounts.users@, identity) ==> r == Err::<(), Error>(
                Error::AlreadyRegistered,
            ) && *final(self) == *old(self),
            !has_user(old(self).accounts.users@, identity) ==> ({
                &&& r == Ok::<(), Error>(())
                &&& final(self).accounts.users@ == old(self).accounts.users@.push(
                    (User { identity, username, created_at: now, last_login: now }),
                )
                &&& final(self).ids == old(self).ids
                &&& final(self).characters == old(self).characters
                &&& final(self).sessions == old(self).sessions
            }),
    {
        let r = self.accounts.register(identity, username, now);
        proof {
            if !has_user(old(self).accounts.users@, identity) {
                assert forall|i: int|
                    0 <= i < self.characters.characters@.len() implies has_user(
                    self.accounts.users@,
                    (#[trigger] self.characters.characters@[i]).user_identity,
                ) by {
                    let owner = self.characters.characters@[i].user_identity;
                    assert(has_user(old(self).accounts.users@, owner));
                    let k = choose|k: int|
                        0 <= k < old(self).accounts.users@.len() && old(
                            self,
                        ).accounts.users@[k].identity == owner;
                    assert(self.accounts.users@[k].identity == owner);
                }
            }
        }
        r
    }

    /// Whether an account exists for `identity`; a pure lookup.
    pub fn is_registered(&self, identity: u64) -> (r: bool)
        requires
            self.wf(),
        ensures
            r == has_user(self.accounts.users@, identity),
    {
        self.accounts.is_registered(identity)
    }

    /// The account of `identity`, if any; a pure lookup.
    pub fn get_account(&self, identity: u64) -> (r: Option<User>)
        requires
            self.wf(),
        ensures
            match r {
                Some(u) => has_user(self.accounts.users@, identity) && u == user_record(
                    self.accounts.users@,
                    identity,
                ),
                None => !has_user(self.accounts.users@, identity),
            },
    {
        self.accounts.get(identity)
    }

    /// Creates a character for `identity` together with its appearance, as one
    /// atomic step. The identifier is freshly issued and exceeds every
    /// identifier handed out before; the character spawns at the origin with
    /// level 1 and no facing. Fails with `NotRegistered` when no account for
    /// `identity` exists, with `NameTaken` when some character already carries
    /// `name`, and with `AllocationFailure` when the counter is exhausted; on
    /// failure nothing changes.
    pub fn create_character(
        &mut self,
        identity: u64,
        name: String,
        class: String,
        skin: String,
        hair: String,
        eyes: String,
        outfit: String,
        now: i64,
    ) -> (r: Result<u64, Error>)
        requires
            old(self).wf(),
        ensures
            final(self).wf(),
            !has_user(old(self).accounts.users@, identity) ==> r == Err::<u64, Error>(
                Error::NotRegistered,
            ) && *final(self) == *old(self),
            has_user(old(self).accounts.users@, identity) && name_taken(
                old(self).characters.characters@,
                name@,
            ) ==> r == Err::<u64, Error>(Error::NameTaken) && *final(self) == *old(self),
            has_user(old(self).accounts.users@, identity) && !name_taken(
                old(self).characters.characters@,
                name@,
            ) && old(self).char_counter() == u64::MAX ==> r == Err::<u64, Error>(
                Error::AllocationFailure,
            ) && *final(self) == *old(self),
            has_user(old(self).accounts.users@, identity) && !name_taken(
                old(self).characters.characters@,
                name@,
            ) && old(self).char_counter() < u64::MAX ==> ({
                let id = (old(self).char_counter() + 1) as u64;
                &&& r == Ok::<u64, Error>(id)
                &&& final(self).char_counter() == id
                &&& final(self).characters.characters@ == old(self).characters.characters@.push(
                    (Character {
                        id,
                        user_identity: identity,
                        name,
                        class,
                        level: 1,
                        position_x: SPAWN_X,
                        position_y: SPAWN_Y,
                        facing: None,
                        created_at: now,
                        last_updated: now,
                    }),
                )
                &&& final(self).characters.appearances@ == old(self).characters.appearances@.push(
                    (CharacterAppearance { character_id: id, skin, hair, eyes, outfit }),
                )
                &&& final(self).accounts == old(self).accounts
                &&& final(self).sessions == old(self).sessions
                &&& forall|i: int|
                    0 <= i < old(self).characters.characters@.len() ==> (#[trigger] old(
                        self,
                    ).characters.characters@[i]).id < id
            }),
    {
        if !self.accounts.is_registered(identity) {
            return Err(Error::NotRegistered);
        }
        if self.characters.name_exists(&name) {
            return Err(Error::NameTaken);
        }
        let counter_name: String = "character_id".to_owned();
        let id: u64 = match self.ids.next(&counter_name) {
            Ok(v) => v,
            Err(e) => {
                return Err(e);
            },
        };
        proof {
            assert forall|k: int|
                0 <= k < self.characters.characters@.len() implies (#[trigger] self.characters.characters@[k]).id
                < id by {
                assert(1 <= self.characters.characters@[k].id <= old(self).char_counter());
            }
            if has_char(self.characters.characters@, id) {
                let k = choose|k: int|
                    0 <= k < self.characters.characters@.len()
                        && self.characters.characters@[k].id == id;
                assert(self.characters.characters@[k].id < id);
            }
        }
        let c = Character {
            id,
            user_identity: identity,
            name,
            class,
            level: 1,
            position_x: SPAWN_X,
            position_y: SPAWN_Y,
            facing: None,
            created_at: now,
            last_updated: now,
        };
        let a = CharacterAppearance { character_id: id, skin, hair, eyes, outfit };
        self.characters.insert_new(c, a);
        proof {
            let chars = self.characters.characters@;
            let old_chars = old(self).characters.characters@;
            assert forall|k: int| 0 <= k < chars.len() implies 1 <= (#[trigger] chars[k]).id
                <= self.char_counter() by {
                if k < old_chars.len() {
                    assert(chars[k] == old_chars[k]);
                    assert(1 <= old_chars[k].id <= old(self).char_counter());
                }
            }
            assert forall|k: int| 0 <= k < chars.len() implies has_user(
                self.accounts.users@,
                (#[trigger] chars[k]).user_identity,
            ) by {
                if k < old_chars.len() {
                    assert(chars[k] == old_chars[k]);
                    assert(has_user(old(self).accounts.users@, old_chars[k].user_identity));
                }
            }
            assert forall|k: int|
                0 <= k < self.sessions.sessions@.len() implies match (#[trigger] self.sessions.sessions@[k]).character_id {
                Some(cid) => has_char(chars, cid),
                None => true,
            } by {
                match self.sessions.sessions@[k].character_id {
                    Some(cid) => {
                        lemma_has_char_push(old_chars, chars.last(), cid);
                    },
                    None => {},
                }
            }
        }
        Ok(id)
    }

    /// The character with identifier `id`, if any; a pure lookup.
    pub fn get_character(&self, id: u64) -> (r: Option<Character>)
        requires
            self.wf(),
        ensures
            match r {
                Some(c) => has_char(self.characters.characters@, id) && c == char_record(
                    self.characters.characters@,
                    id,
                ),
                None => !has_char(self.characters.characters@, id),
            },
    {
        self.characters.get(id)
    }

    /// The character named `name`, if any; a pure lookup.
    pub fn get_character_by_name(&self, name: &String) -> (r: Option<Character>)
        requires
            self.wf(),
        ensures
            match r {
                Some(c) => name_taken(self.characters.characters@, name@) && c
                    == self.characters.characters@[name_index(self.characters.characters@, name@)],
                None => !name_taken(self.characters.characters@, name@),
            },
    {
        self.characters.by_name(name)
    }

    /// The identity owning character `id`, if any; a pure lookup.
    pub fn owner_of(&self, id: u64) -> (r: Option<u64>)
        requires
            self.wf(),
        ensures
            match r {
                Some(owner) => has_char(self.characters.characters@, id) && owner == char_record(
                    self.characters.characters@,
                    id,
                ).user_identity,
                None => !has_char(self.characters.characters@, id),
            },
    {
        self.characters.owner_of(id)
    }

    /// The appearance of character `id`, if any; a pure lookup.
    pub fn get_appearance(&self, id: u64) -> (r: Option<CharacterAppearance>)
        requires
            self.wf(),
        ensures
            match r {
                Some(a) => has_char(self.characters.characters@, id) && a
                    == self.characters.appearances@[char_index(self.characters.characters@, id)]
                    && a.character_id == id,
                None => !has_char(self.characters.characters@, id),
            },
    {
        self.characters.get_appearance(id)
    }

    /// The session of `identity`, if any; a pure lookup.
    pub fn get_session(&self, identity: u64) -> (r: Option<Session>)
        requires
            self.wf(),
        ensures
            match r {
                Some(s) => has_session(self.sessions.sessions@, identity) && s == session_record(
                    self.sessions.sessions@,
                    identity,
                ),
                None => !has_session(self.sessions.sessions@, identity),
            },
    {
        self.sessions.get(identity)
    }

    /// Logs `identity` in on character `character_id`: refreshes the account's
    /// last login and binds the session, replacing a stale one. Fails with
    /// `NotRegistered` when no account exists, with `NotFound` when no such
    /// character exists, and with `NotOwner` when the character is owned by
    /// another identity; on failure nothing changes.
    pub fn login(&mut self, identity: u64, character_id: u64, now: i64) -> (r: Result<(), Error>)
        requires
            old(self).wf(),
        ensures
            final(self).wf(),
            !has_user(old(self).accounts.users@, identity) ==> r == Err::<(), Error>(
                Error::NotRegistered,
            ) && *final(self) == *old(self),
            has_user(old(self).accounts.users@, identity) && !has_char(
                old(self).characters.characters@,
                character_id,
            ) ==> r == Err::<(), Error>(Error::NotFound) && *final(self) == *old(self),
            has_user(old(self).accounts.users@, identity) && has_char(
                old(self).characters.characters@,
                character_id,
            ) && char_record(old(self).characters.characters@, character_id).user_identity
                != identity ==> r == Err::<(), Error>(Error::NotOwner) && *final(self) == *old(
                self,
            ),
            has_user(old(self).accounts.users@, identity) && has_char(
                old(self).characters.characters@,
                character_id,
            ) && char_record(old(self).characters.characters@, character_id).user_identity
                == identity ==> ({
                let u = user_record(old(self).accounts.users@, identity);
                let fresh = (Session {
                    identity,
                    character_id: Some(character_id),
                    connected_at: now,
                    last_activity: now,
                });
                &&& r == Ok::<(), Error>(())
                &&& final(self).accounts.users@ == old(self).accounts.users@.update(
                    user_index(old(self).accounts.users@, identity),
                    (User {
                        identity: u.identity,
                        username: u.username,
                        created_at: u.created_at,
                        last_login: now,
                    }),
                )
                &&& has_session(final(self).sessions.sessions@, identity)
                &&& session_record(final(self).sessions.sessions@, identity) == fresh
                &&& has_session(old(self).sessions.sessions@, identity)
                    ==> final(self).sessions.sessions@ == old(self).sessions.sessions@.update(
                    session_index(old(self).sessions.sessions@, identity),
                    fresh,
                )
                &&& !has_session(old(self).sessions.sessions@, identity)
                    ==> final(self).sessions.sessions@ == old(self).sessions.sessions@.push(fresh)
                &&& final(self).characters == old(self).characters
                &&& final(self).ids == old(self).ids
            }),
    {
        if !self.accounts.is_registered(identity) {
            return Err(Error::NotRegistered);
        }
        let owner = match self.characters.owner_of(character_id) {
            None => {
                return Err(Error::NotFound);
            },
            Some(owner) => owner,
        };
        if owner != identity {
            return Err(Error::NotOwner);
        }
        let _ = self.accounts.touch_login(identity, now);
        proof {
            lemma_has_user_update(
                old(self).accounts.users@,
                user_index(old(self).accounts.users@, identity),
                self.accounts.users@[user_index(old(self).accounts.users@, identity)],
            );
        }
        self.sessions.bind_login(identity, character_id, now);
        proof {
            let sess = self.sessions.sessions@;
            let old_sess = old(self).sessions.sessions@;
            let chars = self.characters.characters@;
            assert forall|k: int|
                0 <= k < sess.len() implies match (#[trigger] sess[k]).character_id {
                Some(cid) => has_char(chars, cid),
                None => true,
            } by {
                if k < old_sess.len() && sess[k] != old_sess[k] {
                    assert(sess[k].character_id == Some(character_id));
                }
                if k >= old_sess.len() {
                    assert(sess[k].character_id == Some(character_id));
                }
            }
        }
        Ok(())
    }

    /// Removes the session of `identity` on an explicit logout. Fails with
    /// `NotLoggedIn`, changing nothing, when no session exists; afterwards no
    /// session for `identity` remains either way.
    pub fn logout(&mut self, identity: u64) -> (r: Result<(), Error>)
        requires
            old(self).wf(),
        ensures
            final(self).wf(),
            !has_session(final(self).sessions.sessions@, identity),
            !has_session(old(self).sessions.sessions@, identity) ==> r == Err::<(), Error>(
                Error::NotLoggedIn,
            ) && *final(self) == *old(self),
            has_session(old(self).sessions.sessions@, identity) ==> r == Ok::<(), Error>(())
                && final(self).sessions.sessions@ == old(self).sessions.sessions@.remove(
                session_index(old(self).sessions.sessions@, identity),
            ),
            final(self).ids == old(self).ids,
            final(self).accounts == old(self).accounts,
            final(self).characters == old(self).characters,
            forall|other: u64|
                other != identity ==> has_session(final(self).sessions.sessions@, other)
                    == has_session(old(self).sessions.sessions@, other),
    {
        let r = self.sessions.logout(identity);
        proof {
            self.lemma_session_refs_after_shrink(*old(self), identity);
        }
        r
    }

    /// Establishes a session for `identity` on a transport connect, replacing
    /// a stale one; never fails.
    pub fn on_client_connect(&mut self, identity: u64, now: i64)
        requires
            old(self).wf(),
        ensures
            final(self).wf(),
            final(self).ids == old(self).ids,
            final(self).accounts == old(self).accounts,
            final(self).characters == old(self).characters,
            has_session(final(self).sessions.sessions@, identity),
            session_record(final(self).sessions.sessions@, identity) == (Session {
                identity,
                character_id: None,
                connected_at: now,
                last_activity: now,
            }),
            has_session(old(self).sessions.sessions@, identity) ==> final(self).sessions.sessions@
                == old(self).sessions.sessions@.update(
                session_index(old(self).sessions.sessions@, identity),
                (Session { identity, character_id: None, connected_at: now, last_activity: now }),
            ),
            !has_session(old(self).sessions.sessions@, identity) ==> final(self).sessions.sessions@
                == old(self).sessions.sessions@.push(
                (Session { identity, character_id: None, connected_at: now, last_activity: now }),
            ),
    {
        self.sessions.on_connect(identity, now);
        proof {
            let sess = self.sessions.sessions@;
            let old_sess = old(self).sessions.sessions@;
            let chars = self.characters.characters@;
            assert forall|k: int|
                0 <= k < sess.len() implies match (#[trigger] sess[k]).character_id {
                Some(cid) => has_char(chars, cid),
                None => true,
            } by {
                if k < old_sess.len() && sess[k] != old_sess[k] {
                    assert(sess[k].character_id == None::<u64>);
                }
                if k >= old_sess.len() {
                    assert(sess[k].character_id == None::<u64>);
                }
            }
        }
    }

    /// Removes the session of `identity` on a transport disconnect; a silent
    /// no-op when none exists, so the host may call it unconditionally.
    pub fn on_client_disconnect(&mut self, identity: u64)
        requires
            old(self).wf(),
        ensures
            final(self).wf(),
            !has_session(final(self).sessions.sessions@, identity),
            !has_session(old(self).sessions.sessions@, identity) ==> *final(self) == *old(self),
            has_session(old(self).sessions.sessions@, identity) ==> final(self).sessions.sessions@
                == old(self).sessions.sessions@.remove(
                session_index(old(self).sessions.sessions@, identity),
            ),
            final(self).ids == old(self).ids,
            final(self).accounts == old(self).accounts,
            final(self).characters == old(self).characters,
            forall|other: u64|
                other != identity ==> has_session(final(self).sessions.sessions@, other)
                    == has_session(old(self).sessions.sessions@, other),
    {
        self.sessions.on_disconnect(identity);
        proof {
            self.lemma_session_refs_after_shrink(*old(self), identity);
        }
    }

    /// Replaces the position, facing and update timestamp of character
    /// `character_id`, provided `identity` owns it, and refreshes the activity
    /// timestamp of the caller's session if one is active; an active session
    /// is not required. Fails with `NotFound` when no such character exists
    /// and with `NotOwner` when it is owned by another identity; on failure
    /// nothing changes.
    pub fn update_position(
        &mut self,
        identity: u64,
        character_id: u64,
        x: u32,
        y: u32,
        facing: Option<Direction>,
        now: i64,
    ) -> (r: Result<(), Error>)
        requires
            old(self).wf(),
        ensures
            final(self).wf(),
            !has_char(old(self).characters.characters@, character_id) ==> r == Err::<(), Error>(
                Error::NotFound,
            ) && *final(self) == *old(self),
            has_char(old(self).characters.characters@, character_id) && char_record(
                old(self).characters.characters@,
                character_id,
            ).user_identity != identity ==> r == Err::<(), Error>(Error::NotOwner) && *final(self)
                == *old(self),
            has_char(old(self).characters.characters@, character_id) && char_record(
                old(self).characters.characters@,
                character_id,
            ).user_identity == identity ==> ({
                let c = char_record(old(self).characters.characters@, character_id);
                &&& r == Ok::<(), Error>(())
                &&& final(self).characters.characters@ == old(self).characters.characters@.update(
                    char_index(old(self).characters.characters@, character_id),
                    (Character {
                        id: c.id,
                        user_identity: c.user_identity,
                        name: c.name,
                        class: c.class,
                        level: c.level,
                        position_x: x,
                        position_y: y,
                        facing: facing,
                        created_at: c.created_at,
                        last_updated: now,
                    }),
                )
                &&& final(self).characters.appearances@ == old(self).characters.appearances@
                &&& final(self).ids == old(self).ids
                &&& final(self).accounts == old(self).accounts
                &&& !has_session(old(self).sessions.sessions@, identity) ==> final(self).sessions
                    == old(self).sessions
                &&& has_session(old(self).sessions.sessions@, identity) ==> ({
                    let s = session_record(old(self).sessions.sessions@, identity);
                    final(self).sessions.sessions@ == old(self).sessions.sessions@.update(
                        session_index(old(self).sessions.sessions@, identity),
                        (Session {
                            identity: s.identity,
                            character_id: s.character_id,
                            connected_at: s.connected_at,
                            last_activity: now,
                        }),
                    )
                })
            }),
    {
        let r = self.characters.update_position(character_id, identity, x, y, facing, now);
        match r {
            Ok(()) => {
                proof {
                    let chars = self.characters.characters@;
                    let old_chars = old(self).characters.characters@;
                    let i = char_index(old_chars, character_id);
                    assert(chars == old_chars.update(i, chars[i]));
                    assert(chars[i].id == old_chars[i].id);
                    assert forall|k: int| 0 <= k < chars.len() implies 1 <= (#[trigger] chars[k]).id
                        <= self.char_counter() by {
                        assert(1 <= old_chars[k].id <= old(self).char_counter());
                    }
                    assert forall|k: int| 0 <= k < chars.len() implies has_user(
                        self.accounts.users@,
                        (#[trigger] chars[k]).user_identity,
                    ) by {
                        assert(has_user(old(self).accounts.users@, old_chars[k].user_identity));
                    }
                    lemma_has_char_update(old_chars, i, chars[i]);
                    assert forall|k: int|
                        0 <= k < self.sessions.sessions@.len() implies match (#[trigger] self.sessions.sessions@[k]).character_id {
                        Some(cid) => has_char(chars, cid),
                        None => true,
                    } by {
                        match self.sessions.sessions@[k].character_id {
                            Some(cid) => {
                                assert(has_char(old_chars, cid));
                            },
                            None => {},
                        }
                    }
                }
                self.sessions.touch_activity(identity, now);
                proof {
                    let sess = self.sessions.sessions@;
                    let mid_sess = old(self).sessions.sessions@;
                    let chars = self.characters.characters@;
                    assert forall|k: int|
                        0 <= k < sess.len() implies match (#[trigger] sess[k]).character_id {
                        Some(cid) => has_char(chars, cid),
                        None => true,
                    } by {
                        assert(sess[k].character_id == mid_sess[k].character_id);
                    }
                }
                Ok(())
            },
            Err(e) => Err(e),
        }
    }

    /// After a session removal (or no-op), every remaining session still
    /// references an existing character, given that every session did before.
    proof fn lemma_session_refs_after_shrink(self, prev: Self, identity: u64)
        requires
            prev.wf(),
            self.ids == prev.ids,
            self.accounts == prev.accounts,
            self.characters == prev.characters,
            !has_session(prev.sessions.sessions@, identity) ==> self.sessions == prev.sessions,
            has_session(prev.sessions.sessions@, identity) ==> self.sessions.sessions@
                == prev.sessions.sessions@.remove(
                session_index(prev.sessions.sessions@, identity),
            ),
        ensures
            session_refs_ok(self.sessions.sessions@, self.characters.characters@),
    {
        let sess = self.sessions.sessions@;
        let old_sess = prev.sessions.sessions@;
        let chars = self.characters.characters@;
        if has_session(old_sess, identity) {
            let i = session_index(old_sess, identity);
            assert forall|k: int|
                0 <= k < sess.len() implies match (#[trigger] sess[k]).character_id {
                Some(cid) => has_char(chars, cid),
                None => true,
            } by {
                if k < i {
                    assert(sess[k] == old_sess[k]);
                } else {
                    assert(sess[k] == old_sess[k + 1]);
                }
            }
        }
    }
}

} // verus!
