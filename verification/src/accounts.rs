//! The account registry: one account per identity.
//!
//! Registration is strict: registering an identity that already holds an
//! account fails with `AlreadyRegistered` and changes nothing. Updates replace
//! the whole record, never a single field in place.

use vstd::prelude::*;

use crate::errors::Error;
use crate::records::User;

verus! {

/// Whether some account in `s` belongs to `identity`.
pub open spec fn has_user(s: Seq<User>, identity: u64) -> bool {
    exists|i: int| 0 <= i < s.len() && s[i].identity == identity
}

/// The index of the account owned by `identity`; meaningful only when
/// `has_user(s, identity)` holds and identities are distinct.
pub open spec fn user_index(s: Seq<User>, identity: u64) -> int {
    choose|i: int| 0 <= i < s.len() && s[i].identity == identity
}

/// The account record owned by `identity`.
pub open spec fn user_record(s: Seq<User>, identity: u64) -> User {
    s[user_index(s, identity)]
}

/// Whether the accounts in `s` belong to pairwise distinct identities.
pub open spec fn users_distinct(s: Seq<User>) -> bool {
    forall|i: int, j: int| 0 <= i < j < s.len() ==> s[i].identity != s[j].identity
}

/// Any index holding the looked-up identity is the index `user_index` picks,
/// provided identities are distinct.
pub proof fn lemma_user_index_unique(s: Seq<User>, identity: u64, i: int)
    requires
        users_distinct(s),
        0 <= i < s.len(),
        s[i].identity == identity,
    ensures
        has_user(s, identity),
        user_index(s, identity) == i,
{
    assert(has_user(s, identity));
    let j = user_index(s, identity);
    if i != j {
        if i < j {
            assert(s[i].identity != s[j].identity);
        } else {
            assert(s[j].identity != s[i].identity);
        }
    }
}

/// Replacing an account with one of the same identity changes no identity's
/// membership.
pub proof fn lemma_has_user_update(s: Seq<User>, i: int, u: User)
    requires
        0 <= i < s.len(),
        u.identity == s[i].identity,
    ensures
        forall|id: u64| has_user(s.update(i, u), id) == has_user(s, id),
{
    let t = s.update(i, u);
    assert forall|id: u64| has_user(t, id) == has_user(s, id) by {
        if has_user(t, id) {
            let k = choose|k: int| 0 <= k < t.len() && t[k].identity == id;
            assert(s[k].identity == id || s[i].identity == id);
            assert(has_user(s, id));
        }
        if has_user(s, id) {
            let k = choose|k: int| 0 <= k < s.len() && s[k].identity == id;
            assert(t[k].identity == id || t[i].identity == id);
            assert(has_user(t, id));
        }
    }
}

/// The owner of the account records.
pub struct AccountRegistry {
    /// The accounts, one record per identity.
    pub users: Vec<User>,
}

impl AccountRegistry {
    /// The registry's invariant: account identities never repeat.
    pub open spec fn wf(self) -> bool {
        users_distinct(self.users@)
    }

    /// A registry with no accounts.
    pub fn new() -> (r: Self)
        ensures
            r.wf(),
            r.users@.len() == 0,
    {
        AccountRegistry { users: Vec::new() }
    }

    /// Whether an account exists for `identity`; a pure lookup.
    pub fn is_registered(&self, identity: u64) -> (r: bool)
        requires
            self.wf(),
        ensures
            r == has_user(self.users@, identity),
    {
        let n = self.users.len();
        let mut i: usize = 0;
        while i < n
            invariant
                n == self.users@.len(),
                0 <= i <= n,
                forall|k: int| 0 <= k < i ==> self.users@[k].identity != identity,
            decreases n - i,
        {
            if self.users[i].identity == identity {
                return true;
            }
            i = i + 1;
        }
        false
    }

    /// The account owned by `identity`, if any; a pure lookup.
    pub fn get(&self, identity: u64) -> (r: Option<User>)
        requires
            self.wf(),
        ensures
            match r {
                Some(u) => has_user(self.users@, identity) && u == user_record(
                    self.users@,
                    identity,
                ),
                None => !has_user(self.users@, identity),
            },
    {
        let n = self.users.len();
        let mut i: usize = 0;
        while i < n
            invariant
                n == self.users@.len(),
                0 <= i <= n,
                self.wf(),
                forall|k: int| 0 <= k < i ==> self.users@[k].identity != identity,
            decreases n - i,
        {
            if self.users[i].identity == identity {
                proof {
                    lemma_user_index_unique(self.users@, identity, i as int);
                }
                return Some(self.users[i].clone());
            }
            i = i + 1;
        }
        None
    }

    /// Creates the account for `identity` with both timestamps set to `now`.
    /// Fails with `AlreadyRegistered`, changing nothing, when an account for
    /// `identity` already exists.
    pub fn register(&mut self, identity: u64, username: String, now: i64) -> (r: Result<
        (),
        Error,
    >)
        requires
            old(self).wf(),
        ensures
            final(self).wf(),
            has_user(old(self).users@, identity) ==> r == Err::<(), Error>(
                Error::AlreadyRegistered,
            ) && *final(self) == *old(self),
            !has_user(old(self).users@, identity) ==> r == Ok::<(), Error>(())
                && final(self).users@ == old(self).users@.push(
                (User { identity, username, created_at: now, last_login: now }),
            ),
    {
        if self.is_registered(identity) {
            return Err(Error::AlreadyRegistered);
        }
        self.users.push(User { identity, username, created_at: now, last_login: now });
        Ok(())
    }

    /// Replaces the account of `identity` with the same record carrying
    /// `last_login = now`. Fails with `NotRegistered`, changing nothing, when
    /// no account for `identity` exists.
    pub fn touch_login(&mut self, identity: u64, now: i64) -> (r: Result<(), Error>)
        requires
            old(self).wf(),
        ensures
            final(self).wf(),
            !has_user(old(self).users@, identity) ==> r == Err::<(), Error>(Error::NotRegistered)
                && *final(self) == *old(self),
            has_user(old(self).users@, identity) ==> ({
                let u = user_record(old(self).users@, identity);
                r == Ok::<(), Error>(()) && final(self).users@ == old(self).users@.update(
                    user_index(old(self).users@, identity),
                    (User {
                        identity: u.identity,
                        username: u.username,
                        created_at: u.created_at,
                        last_login: now,
                    }),
                )
            }),
    {
        let n = self.users.len();
        let mut i: usize = 0;
        while i < n
            invariant
                n == self.users@.len(),
                0 <= i <= n,
                old(self).wf(),
                *self == *old(self),
                forall|k: int| 0 <= k < i ==> self.users@[k].identity != identity,
            decreases n - i,
        {
            if self.users[i].identity == identity {
                proof {
                    lemma_user_index_unique(self.users@, identity, i as int);
                }
                let fresh = User {
                    identity: self.users[i].identity,
                    username: self.users[i].username.clone(),
                    created_at: self.users[i].created_at,
                    last_login: now,
                };
                self.users[i] = fresh;
                return Ok(());
            }
            i = i + 1;
        }
        Err(Error::NotRegistered)
    }
}

} // verus!
