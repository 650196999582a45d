//! The character registry: character records and their appearance records.
//!
//! Identifiers never repeat, names are unique across all characters, and every
//! character is created atomically with exactly one appearance record. A
//! position update replaces the whole character record; ownership is checked
//! before anything is written.

use vstd::prelude::*;

use crate::errors::Error;
use crate::records::Character;
use crate::records::CharacterAppearance;
use crate::records::Direction;

verus! {

/// Whether some character in `s` carries the identifier `id`.
pub open spec fn has_char(s: Seq<Character>, id: u64) -> bool {
    exists|i: int| 0 <= i < s.len() && s[i].id == id
}

/// The index of the character with identifier `id`; meaningful only when
/// `has_char(s, id)` holds and identifiers are distinct.
pub open spec fn char_index(s: Seq<Character>, id: u64) -> int {
    choose|i: int| 0 <= i < s.len() && s[i].id == id
}

/// The character record with identifier `id`.
pub open spec fn char_record(s: Seq<Character>, id: u64) -> Character {
    s[char_index(s, id)]
}

/// Whether some character in `s` carries the name `name`.
pub open spec fn name_taken(s: Seq<Character>, name: Seq<char>) -> bool {
    exists|i: int| 0 <= i < s.len() && s[i].name@ == name
}

/// The index of the character named `name`; meaningful only when
/// `name_taken(s, name)` holds and names are distinct.
pub open spec fn name_index(s: Seq<Character>, name: Seq<char>) -> int {
    choose|i: int| 0 <= i < s.len() && s[i].name@ == name
}

/// Whether the characters in `s` carry pairwise distinct identifiers.
pub open spec fn char_ids_distinct(s: Seq<Character>) -> bool {
    forall|i: int, j: int| 0 <= i < j < s.len() ==> s[i].id != s[j].id
}

/// Whether the characters in `s` carry pairwise distinct names.
pub open spec fn char_names_distinct(s: Seq<Character>) -> bool {
    forall|i: int, j: int| 0 <= i < j < s.len() ==> s[i].name@ != s[j].name@
}

/// Any index carrying the looked-up identifier is the index `char_index`
/// picks, provided identifiers are distinct.
pub proof fn lemma_char_index_unique(s: Seq<Character>, id: u64, i: int)
    requires
        char_ids_distinct(s),
        0 <= i < s.len(),
        s[i].id == id,
    ensures
        has_char(s, id),
        char_index(s, id) == i,
{
    assert(has_char(s, id));
    let j = char_index(s, id);
    if i != j {
        if i < j {
            assert(s[i].id != s[j].id);
        } else {
            assert(s[j].id != s[i].id);
        }
    }
}

/// Any index carrying the looked-up name is the index `name_index` picks,
/// provided names are distinct.
pub proof fn lemma_name_index_unique(s: Seq<Character>, name: Seq<char>, i: int)
    requires
        char_names_distinct(s),
        0 <= i < s.len(),
        s[i].name@ == name,
    ensures
        name_taken(s, name),
        name_index(s, name) == i,
{
    assert(name_taken(s, name));
    let j = name_index(s, name);
    if i != j {
        if i < j {
            assert(s[i].name@ != s[j].name@);
        } else {
            assert(s[j].name@ != s[i].name@);
        }
    }
}

/// Appending a character adds membership for its identifier and keeps every
/// other identifier's membership as it was.
pub proof fn lemma_has_char_push(s: Seq<Character>, c: Character, id: u64)
    ensures
        has_char(s.push(c), id) == (has_char(s, id) || c.id == id),
{
    if has_char(s, id) {
        let k = choose|k: int| 0 <= k < s.len() && s[k].id == id;
        assert(s.push(c)[k].id == id);
    }
    if c.id == id {
        assert(s.push(c)[s.len() as int].id == id);
    }
    if has_char(s.push(c), id) {
        let k = choose|k: int| 0 <= k < s.push(c).len() && s.push(c)[k].id == id;
        if k < s.len() {
            assert(s[k].id == id);
        }
    }
}

/// Replacing a character with one of the same identifier changes no
/// identifier's membership.
pub proof fn lemma_has_char_update(s: Seq<Character>, i: int, c: Character)
    requires
        0 <= i < s.len(),
        c.id == s[i].id,
    ensures
        forall|id: u64| has_char(s.update(i, c), id) == has_char(s, id),
{
    let t = s.update(i, c);
    assert forall|id: u64| has_char(t, id) == has_char(s, id) by {
        if has_char(t, id) {
            let k = choose|k: int| 0 <= k < t.len() && t[k].id == id;
            assert(s[k].id == id || s[i].id == id);
            assert(has_char(s, id));
        }
        if has_char(s, id) {
            let k = choose|k: int| 0 <= k < s.len() && s[k].id == id;
            assert(t[k].id == id || t[i].id == id);
            assert(has_char(t, id));
        }
    }
}

/// The owner of the character and appearance records.
pub struct CharacterRegistry {
    /// The characters, one record per identifier.
    pub characters: Vec<Character>,
    /// The appearances, kept in step with `characters`: the record at any
    /// index belongs to the character at the same index.
    pub appearances: Vec<CharacterAppearance>,
}

impl CharacterRegistry {
    /// The registry's invariant: identifiers and names never repeat, and each
    /// character has exactly one appearance, stored at its own index.
    pub open spec fn wf(self) -> bool {
        &&& char_ids_distinct(self.characters@)
        &&& char_names_distinct(self.characters@)
        &&& self.appearances@.len() == self.characters@.len()
        &&& forall|i: int|
            0 <= i < self.characters@.len() ==> self.appearances@[i].character_id
                == self.characters@[i].id
    }

    /// A registry with no characters.
    pub fn new() -> (r: Self)
        ensures
            r.wf(),
            r.characters@.len() == 0,
            r.appearances@.len() == 0,
    {
        CharacterRegistry { characters: Vec::new(), appearances: Vec::new() }
    }

    /// Whether a character named `name` exists; a pure lookup.
    pub fn name_exists(&self, name: &String) -> (r: bool)
        requires
            self.wf(),
        ensures
            r == name_taken(self.characters@, name@),
    {
        let n = self.characters.len();
        let mut i: usize = 0;
        while i < n
            invariant
                n == self.characters@.len(),
                0 <= i <= n,
                forall|k: int| 0 <= k < i ==> self.characters@[k].name@ != name@,
            decreases n - i,
        {
            if self.characters[i].name == *name {
                return true;
            }
            i = i + 1;
        }
        false
    }

    /// The character with identifier `id`, if any; a pure lookup.
    pub fn get(&self, id: u64) -> (r: Option<Character>)
        requires
            self.wf(),
        ensures
            match r {
                Some(c) => has_char(self.characters@, id) && c == char_record(
                    self.characters@,
                    id,
                ),
                None => !has_char(self.characters@, id),
            },
    {
        let n = self.characters.len();
        let mut i: usize = 0;
        while i < n
            invariant
                n == self.characters@.len(),
                0 <= i <= n,
                self.wf(),
                forall|k: int| 0 <= k < i ==> self.characters@[k].id != id,
            decreases n - i,
        {
            if self.characters[i].id == id {
                proof {
                    lemma_char_index_unique(self.characters@, id, i as int);
                }
                return Some(self.characters[i].clone());
            }
            i = i + 1;
        }
        None
    }

    /// The character named `name`, if any; a pure lookup.
    pub fn by_name(&self, name: &String) -> (r: Option<Character>)
        requires
            self.wf(),
        ensures
            match r {
                Some(c) => name_taken(self.characters@, name@) && c == self.characters@[name_index(
                    self.characters@,
                    name@,
                )],
                None => !name_taken(self.characters@, name@),
            },
    {
        let n = self.characters.len();
        let mut i: usize = 0;
        while i < n
            invariant
                n == self.characters@.len(),
                0 <= i <= n,
                self.wf(),
                forall|k: int| 0 <= k < i ==> self.characters@[k].name@ != name@,
            decreases n - i,
        {
            if self.characters[i].name == *name {
                proof {
                    lemma_name_index_unique(self.characters@, name@, i as int);
                }
                return Some(self.characters[i].clone());
            }
            i = i + 1;
        }
        None
    }

    /// The identity owning the character with identifier `id`, if any; a pure
    /// lookup.
    pub fn owner_of(&self, id: u64) -> (r: Option<u64>)
        requires
            self.wf(),
        ensures
            match r {
                Some(owner) => has_char(self.characters@, id) && owner == char_record(
                    self.characters@,
                    id,
                ).user_identity,
                None => !has_char(self.characters@, id),
            },
    {
        let n = self.characters.len();
        let mut i: usize = 0;
        while i < n
            invariant
                n == self.characters@.len(),
                0 <= i <= n,
                self.wf(),
                forall|k: int| 0 <= k < i ==> self.characters@[k].id != id,
            decreases n - i,
        {
            if self.characters[i].id == id {
                proof {
                    lemma_char_index_unique(self.characters@, id, i as int);
                }
                return Some(self.characters[i].user_identity);
            }
            i = i + 1;
        }
        None
    }

    /// The appearance of the character with identifier `id`, if any; a pure
    /// lookup. Exactly the characters that exist have an appearance.
    pub fn get_appearance(&self, id: u64) -> (r: Option<CharacterAppearance>)
        requires
            self.wf(),
        ensures
            match r {
                Some(a) => has_char(self.characters@, id) && a == self.appearances@[char_index(
                    self.characters@,
                    id,
                )] && a.character_id == id,
                None => !has_char(self.characters@, id),
            },
    {
        let n = self.characters.len();
        let mut i: usize = 0;
        while i < n
            invariant
                n == self.characters@.len(),
                0 <= i <= n,
                self.wf(),
                forall|k: int| 0 <= k < i ==> self.characters@[k].id != id,
            decreases n - i,
        {
            if self.characters[i].id == id {
                proof {
                    lemma_char_index_unique(self.characters@, id, i as int);
                }
                return Some(self.appearances[i].clone());
            }
            i = i + 1;
        }
        None
    }

    /// Inserts a character and its appearance as one atomic step. The caller
    /// guarantees a fresh identifier and a fresh name; the appearance must
    /// carry the character's identifier.
    pub fn insert_new(&mut self, c: Character, a: CharacterAppearance)
        requires
            old(self).wf(),
            !has_char(old(self).characters@, c.id),
            !name_taken(old(self).characters@, c.name@),
            a.character_id == c.id,
        ensures
            final(self).wf(),
            final(self).characters@ == old(self).characters@.push(c),
            final(self).appearances@ == old(self).appearances@.push(a),
    {
        self.characters.push(c);
        self.appearances.push(a);
    }

    /// Replaces the record of character `id` with the same record carrying the
    /// new position, facing and `last_updated = now`, provided `caller` owns
    /// it. Fails with `NotFound` when no such character exists and with
    /// `NotOwner` when it is owned by another identity; on failure nothing
    /// changes.
    pub fn update_position(
        &mut self,
        id: u64,
        caller: u64,
        x: u32,
        y: u32,
        facing: Option<Direction>,
        now: i64,
    ) -> (r: Result<(), Error>)
        requires
            old(self).wf(),
        ensures
            final(self).wf(),
            !has_char(old(self).characters@, id) ==> r == Err::<(), Error>(Error::NotFound)
                && *final(self) == *old(self),
            has_char(old(self).characters@, id) && char_record(
                old(self).characters@,
                id,
            ).user_identity != caller ==> r == Err::<(), Error>(Error::NotOwner) && *final(self)
                == *old(self),
            has_char(old(self).characters@, id) && char_record(
                old(self).characters@,
                id,
            ).user_identity == caller ==> ({
                let c = char_record(old(self).characters@, id);
                &&& r == Ok::<(), Error>(())
                &&& final(self).characters@ == old(self).characters@.update(
                    char_index(old(self).characters@, id),
                    (Character {
                        id: c.id,
                        user_identity: c.user_identity,
                        name: c.name,
                        class: c.class,
                        level: c.level,
                        position_x: x,
                        position_y: y,
                        facing: facing,
                        created_at: c.created_at,
                        last_updated: now,
                    }),
                )
                &&& final(self).appearances@ == old(self).appearances@
            }),
    {
        let n = self.characters.len();
        let mut i: usize = 0;
        while i < n
            invariant
                n == self.characters@.len(),
                0 <= i <= n,
                old(self).wf(),
                *self == *old(self),
                forall|k: int| 0 <= k < i ==> self.characters@[k].id != id,
            decreases n - i,
        {
            if self.characters[i].id == id {
                proof {
                    lemma_char_index_unique(self.characters@, id, i as int);
                }
                if self.characters[i].user_identity != caller {
                    return Err(Error::NotOwner);
                }
                let fresh = Character {
                    id: self.characters[i].id,
                    user_identity: self.characters[i].user_identity,
                    name: self.characters[i].name.clone(),
                    class: self.characters[i].class.clone(),
                    level: self.characters[i].level,
                    position_x: x,
                    position_y: y,
                    facing: facing,
                    created_at: self.characters[i].created_at,
                    last_updated: now,
                };
                self.characters[i] = fresh;
                return Ok(());
            }
            i = i + 1;
        }
        Err(Error::NotFound)
    }
}

} // verus!
