//! The record types of the five keyed collections.
//!
//! Identities are opaque to this layer: the host hands each caller a value
//! that is only ever compared for equality, carried here as a `u64`.
//! Timestamps are milliseconds since the Unix epoch, supplied by the host and
//! assumed monotonic. Positions are carried as opaque 32-bit patterns that the
//! host interprets as IEEE 754 single-precision coordinates; this layer stores
//! and replaces them without arithmetic, so bit equality is the only notion it
//! needs.

use vstd::prelude::*;

verus! {

/// The bit pattern of the spawn x coordinate: positive zero.
pub const SPAWN_X: u32 = 0;

/// The bit pattern of the spawn y coordinate: positive zero.
pub const SPAWN_Y: u32 = 0;

/// A facing direction a character can optionally hold.
#[derive(Clone, Copy, Debug, PartialEq, Eq, Structural)]
pub enum Direction {
    Up,
    Down,
    Left,
    Right,
}

/// An account record, keyed by the caller identity.
#[derive(Debug, PartialEq)]
pub struct User {
    /// The opaque caller identity owning this account; unique across accounts.
    pub identity: u64,
    /// The display name; not required to be unique.
    pub username: String,
    /// When the account was created.
    pub created_at: i64,
    /// When the account last logged in; registration counts as a login.
    pub last_login: i64,
}

/// A character record, keyed by its numeric identifier.
#[derive(Debug, PartialEq)]
pub struct Character {
    /// Globally unique, strictly increasing, never reused.
    pub id: u64,
    /// The identity of the owning account.
    pub user_identity: u64,
    /// The character's name; unique across all characters.
    pub name: String,
    /// The character's class tag.
    pub class: String,
    /// The character's level; new characters start at 1.
    pub level: u32,
    /// The x coordinate, as an opaque single-precision bit pattern.
    pub position_x: u32,
    /// The y coordinate, as an opaque single-precision bit pattern.
    pub position_y: u32,
    /// The optional facing direction.
    pub facing: Option<Direction>,
    /// When the character was created.
    pub created_at: i64,
    /// When the character was last replaced by a position update.
    pub last_updated: i64,
}

/// An appearance record, keyed by its character's identifier and created
/// atomically with it; immutable thereafter.
#[derive(Debug, PartialEq)]
pub struct CharacterAppearance {
    /// The identifier of the character this appearance belongs to.
    pub character_id: u64,
    pub skin: String,
    pub hair: String,
    pub eyes: String,
    pub outfit: String,
}

/// An active session, keyed by the caller identity; at most one per identity.
#[derive(Debug, PartialEq)]
pub struct Session {
    /// The identity this session belongs to.
    pub identity: u64,
    /// The character the session is bound to; `None` until an explicit login.
    pub character_id: Option<u64>,
    /// When the session was established.
    pub connected_at: i64,
    /// When the session last saw activity.
    pub last_activity: i64,
}

/// A named identifier counter; the current value is the last value issued.
#[derive(Debug, PartialEq)]
pub struct Counter {
    /// The counter's name, unique across counters.
    pub name: String,
    /// The last issued value; 0 when nothing was issued yet.
    pub value: u64,
}

impl Clone for User {
    fn clone(&self) -> (res: Self)
        ensures
            res == *self,
    {
        User {
            identity: self.identity,
            username: self.username.clone(),
            created_at: self.created_at,
            last_login: self.last_login,
        }
    }
}

impl Clone for Character {
    fn clone(&self) -> (res: Self)
        ensures
            res == *self,
    {
        Character {
            id: self.id,
            user_identity: self.user_identity,
            name: self.name.clone(),
            class: self.class.clone(),
            level: self.level,
            position_x: self.position_x,
            position_y: self.position_y,
            facing: self.facing,
            created_at: self.created_at,
            last_updated: self.last_updated,
        }
    }
}

impl Clone for CharacterAppearance {
    fn clone(&self) -> (res: Self)
        ensures
            res == *self,
    {
        CharacterAppearance {
            character_id: self.character_id,
            skin: self.skin.clone(),
            hair: self.hair.clone(),
            eyes: self.eyes.clone(),
            outfit: self.outfit.clone(),
        }
    }
}

impl Clone for Session {
    fn clone(&self) -> (res: Self)
        ensures
            res == *self,
    {
        Session {
            identity: self.identity,
            character_id: self.character_id,
            connected_at: self.connected_at,
            last_activity: self.last_activity,
        }
    }
}

impl Clone for Counter {
    fn clone(&self) -> (res: Self)
        ensures
            res == *self,
    {
        Counter { name: self.name.clone(), value: self.value }
    }
}

} // verus!
