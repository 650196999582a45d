//! The failure taxonomy of the data layer.
//!
//! Every operation returns a typed outcome; none of these conditions aborts
//! the process, and an operation that fails leaves the state unchanged.

use vstd::prelude::*;

verus! {

/// A recoverable failure of one of the transactional operations.
#[derive(Clone, Copy, Debug, PartialEq, Eq, Structural)]
pub enum Error {
    /// An account already exists for the caller's identity.
    AlreadyRegistered,
    /// No account exists for the caller's identity.
    NotRegistered,
    /// The requested character name is already in use.
    NameTaken,
    /// No character with the given identifier exists.
    NotFound,
    /// The character exists but is owned by another identity.
    NotOwner,
    /// No active session exists for the caller's identity.
    NotLoggedIn,
    /// The identifier counter cannot issue a further value.
    AllocationFailure,
}

impl Error {
    /// A short description of the failure, for hosts that surface it to clients.
    pub fn message(&self) -> String {
        match self {
            Error::AlreadyRegistered => "User already registered".to_owned(),
            Error::NotRegistered => "User not registered".to_owned(),
            Error::NameTaken => "Character name already taken".to_owned(),
            Error::NotFound => "Character not found".to_owned(),
            Error::NotOwner => "Not your character".to_owned(),
            Error::NotLoggedIn => "Not logged in".to_owned(),
            Error::AllocationFailure => "Identifier allocation failed".to_owned(),
        }
    }
}

} // verus!
