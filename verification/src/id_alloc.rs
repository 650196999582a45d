//! Issuance of unique, strictly increasing numeric identifiers.
//!
//! Counters are full records keyed by name; issuing reads the current value,
//! stores the incremented value, and returns it, all within one operation, so
//! that under the host's per-operation isolation two callers never observe the
//! same issued value.

use vstd::prelude::*;

use crate::errors::Error;
use crate::records::Counter;

verus! {

/// Whether some counter in `s` carries the name `name`.
pub open spec fn has_counter(s: Seq<Counter>, name: Seq<char>) -> bool {
    exists|i: int| 0 <= i < s.len() && s[i].name@ == name
}

/// The index of the counter named `name`; meaningful only when
/// `has_counter(s, name)` holds and names are distinct.
pub open spec fn counter_index(s: Seq<Counter>, name: Seq<char>) -> int {
    choose|i: int| 0 <= i < s.len() && s[i].name@ == name
}

/// The current value of the counter named `name`, or 0 if it was never used.
pub open spec fn counter_value(s: Seq<Counter>, name: Seq<char>) -> u64 {
    if has_counter(s, name) {
        s[counter_index(s, name)].value
    } else {
        0
    }
}

/// Whether the counters in `s` carry pairwise distinct names.
pub open spec fn counter_names_distinct(s: Seq<Counter>) -> bool {
    forall|i: int, j: int| 0 <= i < j < s.len() ==> s[i].name@ != s[j].name@
}

/// Any index carrying the looked-up name is the index `counter_index` picks,
/// provided names are distinct.
pub proof fn lemma_counter_index_unique(s: Seq<Counter>, name: Seq<char>, i: int)
    requires
        counter_names_distinct(s),
        0 <= i < s.len(),
        s[i].name@ == name,
    ensures
        has_counter(s, name),
        counter_index(s, name) == i,
{
    assert(has_counter(s, name));
    let j = counter_index(s, name);
    if i != j {
        if i < j {
            assert(s[i].name@ != s[j].name@);
        } else {
            assert(s[j].name@ != s[i].name@);
        }
    }
}

/// The owner of the counter records.
pub struct IdAllocator {
    /// The counters, one record per name.
    pub counters: Vec<Counter>,
}

impl IdAllocator {
    /// The allocator's invariant: counter names never repeat.
    pub open spec fn wf(self) -> bool {
        counter_names_distinct(self.counters@)
    }

    /// An allocator holding no counters; every counter starts at 0.
    pub fn new() -> (r: Self)
        ensures
            r.wf(),
            r.counters@.len() == 0,
    {
        IdAllocator { counters: Vec::new() }
    }

    /// The current value of the named counter, without issuing.
    pub fn current(&self, name: &String) -> (r: u64)
        requires
            self.wf(),
        ensures
            r == counter_value(self.counters@, name@),
    {
        let n = self.counters.len();
        let mut i: usize = 0;
        while i < n
            invariant
                n == self.counters@.len(),
                0 <= i <= n,
                self.wf(),
                forall|k: int| 0 <= k < i ==> self.counters@[k].name@ != name@,
            decreases n - i,
        {
            if self.counters[i].name == *name {
                proof {
                    lemma_counter_index_unique(self.counters@, name@, i as int);
                }
                return self.counters[i].value;
            }
            i = i + 1;
        }
        assert(!has_counter(self.counters@, name@));
        0
    }

    /// Issues the next value of the named counter: stores current value + 1
    /// and returns it. Fails with `AllocationFailure` only when the counter is
    /// exhausted, and then changes nothing.
    pub fn next(&mut self, name: &String) -> (r: Result<u64, Error>)
        requires
            old(self).wf(),
        ensures
            final(self).wf(),
            counter_value(old(self).counters@, name@) < u64::MAX ==> ({
                let v = (counter_value(old(self).counters@, name@) + 1) as u64;
                &&& r == Ok::<u64, Error>(v)
                &&& counter_value(final(self).counters@, name@) == v
                &&& has_counter(old(self).counters@, name@) ==> final(self).counters@
                    == old(self).counters@.update(
                    counter_index(old(self).counters@, name@),
                    (Counter { name: old(self).counters@[counter_index(old(self).counters@, name@)].name, value: v }),
                )
                &&& !has_counter(old(self).counters@, name@) ==> final(self).counters@
                    == old(self).counters@.push((Counter { name: *name, value: v }))
            }),
            counter_value(old(self).counters@, name@) == u64::MAX ==> ({
                &&& r == Err::<u64, Error>(Error::AllocationFailure)
                &&& *final(self) == *old(self)
            }),
    {
        let n = self.counters.len();
        let mut i: usize = 0;
        while i < n
            invariant
                n == self.counters@.len(),
                0 <= i <= n,
                self.wf(),
                *self == *old(self),
                forall|k: int| 0 <= k < i ==> self.counters@[k].name@ != name@,
            decreases n - i,
        {
            if self.counters[i].name == *name {
                proof {
                    lemma_counter_index_unique(self.counters@, name@, i as int);
                }
                let cur: u64 = self.counters[i].value;
                if cur == u64::MAX {
                    return Err(Error::AllocationFailure);
                }
                let v: u64 = cur + 1;
                let fresh = Counter { name: self.counters[i].name.clone(), value: v };
                self.counters[i] = fresh;
                proof {
                    lemma_counter_index_unique(self.counters@, name@, i as int);
                }
                return Ok(v);
            }
            i = i + 1;
        }
        assert(!has_counter(self.counters@, name@));
        let v: u64 = 1;
        self.counters.push(Counter { name: name.clone(), value: v });
        proof {
            lemma_counter_index_unique(self.counters@, name@, n as int);
            assert(forall|k: int| 0 <= k < n ==> self.counters@[k] == old(self).counters@[k]);
        }
        Ok(v)
    }
}

} // verus!
