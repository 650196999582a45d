//! The session manager: at most one active session per identity.
//!
//! Sessions are driven both by transport events (connect, disconnect), which
//! never fail, and by explicit user actions (login, logout), which report
//! state errors. A stale session is replaced, never duplicated.

use vstd::prelude::*;

use crate::errors::Error;
use crate::records::Session;

verus! {

/// Whether some session in `s` belongs to `identity`.
pub open spec fn has_session(s: Seq<Session>, identity: u64) -> bool {
    exists|i: int| 0 <= i < s.len() && s[i].identity == identity
}

/// The index of the session owned by `identity`; meaningful only when
/// `has_session(s, identity)` holds and identities are distinct.
pub open spec fn session_index(s: Seq<Session>, identity: u64) -> int {
    choose|i: int| 0 <= i < s.len() && s[i].identity == identity
}

/// The session record owned by `identity`.
pub open spec fn session_record(s: Seq<Session>, identity: u64) -> Session {
    s[session_index(s, identity)]
}

/// Whether the sessions in `s` belong to pairwise distinct identities.
pub open spec fn sessions_distinct(s: Seq<Session>) -> bool {
    forall|i: int, j: int| 0 <= i < j < s.len() ==> s[i].identity != s[j].identity
}

/// Any index holding the looked-up identity is the index `session_index`
/// picks, provided identities are distinct.
pub proof fn lemma_session_index_unique(s: Seq<Session>, identity: u64, i: int)
    requires
        sessions_distinct(s),
        0 <= i < s.len(),
        s[i].identity == identity,
    ensures
        has_session(s, identity),
        session_index(s, identity) == i,
{
    assert(has_session(s, identity));
    let j = session_index(s, identity);
    if i != j {
        if i < j {
            assert(s[i].identity != s[j].identity);
        } else {
            assert(s[j].identity != s[i].identity);
        }
    }
}

/// Removing the one session of an identity leaves no session for it, and
/// leaves every other identity's membership untouched.
pub proof fn lemma_remove_session(s: Seq<Session>, identity: u64, i: int)
    requires
        sessions_distinct(s),
        0 <= i < s.len(),
        s[i].identity == identity,
    ensures
        !has_session(s.remove(i), identity),
        sessions_distinct(s.remove(i)),
        forall|other: u64|
            other != identity ==> has_session(s.remove(i), other) == has_session(s, other),
{
    let t = s.remove(i);
    assert forall|k: int| 0 <= k < t.len() implies t[k].identity != identity by {
        if k < i {
            assert(t[k] == s[k]);
            lemma_session_index_unique(s, s[k].identity, k);
            if s[k].identity == identity {
                lemma_session_index_unique(s, identity, i);
            }
        } else {
            assert(t[k] == s[k + 1]);
            if s[k + 1].identity == identity {
                lemma_session_index_unique(s, identity, i);
                lemma_session_index_unique(s, identity, k + 1);
            }
        }
    }
    assert forall|other: u64| other != identity implies has_session(t, other) == has_session(
        s,
        other,
    ) by {
        if has_session(t, other) {
            let k = choose|k: int| 0 <= k < t.len() && t[k].identity == other;
            if k < i {
                assert(s[k].identity == other);
            } else {
                assert(s[k + 1].identity == other);
            }
            assert(has_session(s, other));
        }
        if has_session(s, other) {
            let k = choose|k: int| 0 <= k < s.len() && s[k].identity == other;
            if k < i {
                assert(t[k].identity == other);
            } else {
                assert(k > i);
                assert(t[k - 1].identity == other);
            }
            assert(has_session(t, other));
        }
    }
}

/// The owner of the session records.
pub struct SessionManager {
    /// The sessions, at most one record per identity.
    pub sessions: Vec<Session>,
}

impl SessionManager {
    /// The manager's invariant: session identities never repeat.
    pub open spec fn wf(self) -> bool {
        sessions_distinct(self.sessions@)
    }

    /// A manager with no sessions.
    pub fn new() -> (r: Self)
        ensures
            r.wf(),
            r.sessions@.len() == 0,
    {
        SessionManager { sessions: Vec::new() }
    }

    /// The session of `identity`, if any; a pure lookup.
    pub fn get(&self, identity: u64) -> (r: Option<Session>)
        requires
            self.wf(),
        ensures
            match r {
                Some(s) => has_session(self.sessions@, identity) && s == session_record(
                    self.sessions@,
                    identity,
                ),
                None => !has_session(self.sessions@, identity),
            },
    {
        let n = self.sessions.len();
        let mut i: usize = 0;
        while i < n
            invariant
                n == self.sessions@.len(),
                0 <= i <= n,
                self.wf(),
                forall|k: int| 0 <= k < i ==> self.sessions@[k].identity != identity,
            decreases n - i,
        {
            if self.sessions[i].identity == identity {
                proof {
                    lemma_session_index_unique(self.sessions@, identity, i as int);
                }
                return Some(self.sessions[i].clone());
            }
            i = i + 1;
        }
        None
    }

    /// Stores `fresh` as the one session of `fresh.identity`, replacing a
    /// stale session if one exists and appending otherwise.
    fn upsert(&mut self, fresh: Session)
        requires
            old(self).wf(),
        ensures
            final(self).wf(),
            has_session(old(self).sessions@, fresh.identity) ==> final(self).sessions@ == old(
                self,
            ).sessions@.update(session_index(old(self).sessions@, fresh.identity), fresh),
            !has_session(old(self).sessions@, fresh.identity) ==> final(self).sessions@ == old(
                self,
            ).sessions@.push(fresh),
            has_session(final(self).sessions@, fresh.identity),
            session_record(final(self).sessions@, fresh.identity) == fresh,
    {
        let n = self.sessions.len();
        let mut i: usize = 0;
        while i < n
            invariant
                n == self.sessions@.len(),
                0 <= i <= n,
                old(self).wf(),
                *self == *old(self),
                forall|k: int| 0 <= k < i ==> self.sessions@[k].identity != fresh.identity,
            decreases n - i,
        {
            if self.sessions[i].identity == fresh.identity {
                proof {
                    lemma_session_index_unique(self.sessions@, fresh.identity, i as int);
                }
                self.sessions[i] = fresh;
                proof {
                    lemma_session_index_unique(self.sessions@, fresh.identity, i as int);
                }
                return ;
            }
            i = i + 1;
        }
        self.sessions.push(fresh);
        proof {
            lemma_session_index_unique(self.sessions@, fresh.identity, n as int);
        }
    }

    /// Establishes a session for `identity` on a transport connect: both
    /// timestamps are set to `now` and no character is bound yet. Idempotent
    /// in the sense that a stale session is replaced, never duplicated; never
    /// fails.
    pub fn on_connect(&mut self, identity: u64, now: i64)
        requires
            old(self).wf(),
        ensures
            final(self).wf(),
            ({
                let fresh = (Session {
                    identity,
                    character_id: None,
                    connected_at: now,
                    last_activity: now,
                });
                &&& has_session(old(self).sessions@, identity) ==> final(self).sessions@ == old(
                    self,
                ).sessions@.update(session_index(old(self).sessions@, identity), fresh)
                &&& !has_session(old(self).sessions@, identity) ==> final(self).sessions@ == old(
                    self,
                ).sessions@.push(fresh)
                &&& has_session(final(self).sessions@, identity)
                &&& session_record(final(self).sessions@, identity) == fresh
            }),
    {
        self.upsert(
            Session { identity, character_id: None, connected_at: now, last_activity: now },
        );
    }

    /// Binds the session of `identity` to `character_id` with both timestamps
    /// set to `now`, replacing a stale session if one exists. The caller has
    /// already checked account and character; this step never fails.
    pub fn bind_login(&mut self, identity: u64, character_id: u64, now: i64)
        requires
            old(self).wf(),
        ensures
            final(self).wf(),
            ({
                let fresh = (Session {
                    identity,
                    character_id: Some(character_id),
                    connected_at: now,
                    last_activity: now,
                });
                &&& has_session(old(self).sessions@, identity) ==> final(self).sessions@ == old(
                    self,
                ).sessions@.update(session_index(old(self).sessions@, identity), fresh)
                &&& !has_session(old(self).sessions@, identity) ==> final(self).sessions@ == old(
                    self,
                ).sessions@.push(fresh)
                &&& has_session(final(self).sessions@, identity)
                &&& session_record(final(self).sessions@, identity) == fresh
            }),
    {
        self.upsert(
            Session {
                identity,
                character_id: Some(character_id),
                connected_at: now,
                last_activity: now,
            },
        );
    }

    /// Removes the session of `identity` on a transport disconnect; a silent
    /// no-op when none exists, so it is safe to call unconditionally.
    pub fn on_disconnect(&mut self, identity: u64)
        requires
            old(self).wf(),
        ensures
            final(self).wf(),
            !has_session(final(self).sessions@, identity),
            !has_session(old(self).sessions@, identity) ==> *final(self) == *old(self),
            has_session(old(self).sessions@, identity) ==> final(self).sessions@ == old(
                self,
            ).sessions@.remove(session_index(old(self).sessions@, identity)),
            forall|other: u64|
                other != identity ==> has_session(final(self).sessions@, other) == has_session(
                    old(self).sessions@,
                    other,
                ),
    {
        let n = self.sessions.len();
        let mut i: usize = 0;
        while i < n
            invariant
                n == self.sessions@.len(),
                0 <= i <= n,
                old(self).wf(),
                *self == *old(self),
                forall|k: int| 0 <= k < i ==> self.sessions@[k].identity != identity,
            decreases n - i,
        {
            if self.sessions[i].identity == identity {
                proof {
                    lemma_session_index_unique(self.sessions@, identity, i as int);
                    lemma_remove_session(self.sessions@, identity, i as int);
                }
                self.sessions.remove(i);
                return ;
            }
            i = i + 1;
        }
        assert(!has_session(self.sessions@, identity));
    }

    /// Removes the session of `identity` on an explicit logout. Fails with
    /// `NotLoggedIn`, changing nothing, when no session exists; on success no
    /// session for `identity` remains.
    pub fn logout(&mut self, identity: u64) -> (r: Result<(), Error>)
        requires
            old(self).wf(),
        ensures
            final(self).wf(),
            !has_session(final(self).sessions@, identity),
            !has_session(old(self).sessions@, identity) ==> r == Err::<(), Error>(
                Error::NotLoggedIn,
            ) && *final(self) == *old(self),
            has_session(old(self).sessions@, identity) ==> r == Ok::<(), Error>(())
                && final(self).sessions@ == old(self).sessions@.remove(
                session_index(old(self).sessions@, identity),
            ),
            forall|other: u64|
                other != identity ==> has_session(final(self).sessions@, other) == has_session(
                    old(self).sessions@,
                    other,
                ),
    {
        let n = self.sessions.len();
        let mut i: usize = 0;
        while i < n
            invariant
                n == self.sessions@.len(),
                0 <= i <= n,
                old(self).wf(),
                *self == *old(self),
                forall|k: int| 0 <= k < i ==> self.sessions@[k].identity != identity,
            decreases n - i,
        {
            if self.sessions[i].identity == identity {
                proof {
                    lemma_session_index_unique(self.sessions@, identity, i as int);
                    lemma_remove_session(self.sessions@, identity, i as int);
                }
                self.sessions.remove(i);
                return Ok(());
            }
            i = i + 1;
        }
        assert(!has_session(self.sessions@, identity));
        Err(Error::NotLoggedIn)
    }

    /// Replaces the session of `identity` with the same record carrying
    /// `last_activity = now`; a silent no-op when no session exists.
    pub fn touch_activity(&mut self, identity: u64, now: i64)
        requires
            old(self).wf(),
        ensures
            final(self).wf(),
            !has_session(old(self).sessions@, identity) ==> *final(self) == *old(self),
            has_session(old(self).sessions@, identity) ==> ({
                let s = session_record(old(self).sessions@, identity);
                final(self).sessions@ == old(self).sessions@.update(
                    session_index(old(self).sessions@, identity),
                    (Session {
                        identity: s.identity,
                        character_id: s.character_id,
                        connected_at: s.connected_at,
                        last_activity: now,
                    }),
                )
            }),
    {
        let n = self.sessions.len();
        let mut i: usize = 0;
        while i < n
            invariant
                n == self.sessions@.len(),
                0 <= i <= n,
                old(self).wf(),
                *self == *old(self),
                forall|k: int| 0 <= k < i ==> self.sessions@[k].identity != identity,
            decreases n - i,
        {
            if self.sessions[i].identity == identity {
                proof {
                    lemma_session_index_unique(self.sessions@, identity, i as int);
                }
                let fresh = Session {
                    identity: self.sessions[i].identity,
                    character_id: self.sessions[i].character_id,
                    connected_at: self.sessions[i].connected_at,
                    last_activity: now,
                };
                self.sessions[i] = fresh;
                return ;
            }
            i = i + 1;
        }
    }
}

} // verus!
