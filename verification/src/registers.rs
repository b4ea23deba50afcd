//! The register bank: a mapping from a value (the register id) to its own
//! ordered stack of values.
//!
//! Entries are held in an association list with unique ids; the bank's view
//! is the mathematical map from id to contents, oldest value first. An id
//! never pushed to is absent from the map; a register emptied by pops stays
//! present with empty contents, and reads against it fail just as against an
//! absent one. Entries are created on first push and never deleted.

use crate::error::Error;
use crate::val::Val;
use vstd::prelude::*;

verus! {

struct RegEntry {
    id: Val,
    vals: Vec<Val>,
}

/// The register bank.
pub struct Registers {
    entries: Vec<RegEntry>,
}

spec fn entries_map(s: Seq<RegEntry>) -> Map<Val, Seq<Val>>
    decreases s.len(),
{
    if s.len() == 0 {
        Map::empty()
    } else {
        entries_map(s.drop_last()).insert(s.last().id, s.last().vals@)
    }
}

spec fn distinct_ids(s: Seq<RegEntry>) -> bool {
    forall|i: int, j: int| 0 <= i < j < s.len() ==> s[i].id != s[j].id
}

/// With distinct ids, the map agrees with each entry of the list.
proof fn lemma_entries_map_index(s: Seq<RegEntry>, i: int)
    requires
        distinct_ids(s),
        0 <= i < s.len(),
    ensures
        entries_map(s).contains_key(s[i].id),
        entries_map(s)[s[i].id] == s[i].vals@,
    decreases s.len(),
{
    if i < s.len() - 1 {
        assert(distinct_ids(s.drop_last()));
        lemma_entries_map_index(s.drop_last(), i);
    }
}

/// An id held by no entry is absent from the map.
proof fn lemma_entries_map_absent(s: Seq<RegEntry>, k: Val)
    requires
        forall|i: int| 0 <= i < s.len() ==> s[i].id != k,
    ensures
        !entries_map(s).contains_key(k),
    decreases s.len(),
{
    if s.len() > 0 {
        lemma_entries_map_absent(s.drop_last(), k);
    }
}

/// Replacing one entry's contents, id unchanged, updates just that key.
proof fn lemma_entries_map_update(s: Seq<RegEntry>, i: int, e: RegEntry)
    requires
        distinct_ids(s),
        0 <= i < s.len(),
        e.id == s[i].id,
    ensures
        entries_map(s.update(i, e)) == entries_map(s).insert(e.id, e.vals@),
    decreases s.len(),
{
    let t = s.update(i, e);
    if i == s.len() - 1 {
        assert(t.drop_last() =~= s.drop_last());
        assert(entries_map(t) =~= entries_map(s).insert(e.id, e.vals@));
    } else {
        assert(distinct_ids(s.drop_last()));
        assert(t.drop_last() =~= s.drop_last().update(i, e));
        lemma_entries_map_update(s.drop_last(), i, e);
        assert(t.last() == s.last());
        assert(entries_map(t) =~= entries_map(s).insert(e.id, e.vals@));
    }
}

impl Registers {
    /// The bank as a map from register id to contents, oldest first.
    pub closed spec fn view(&self) -> Map<Val, Seq<Val>> {
        entries_map(self.entries@)
    }

    /// Well-formedness: each id owns at most one entry.
    pub closed spec fn wf(&self) -> bool {
        distinct_ids(self.entries@)
    }

    /// An empty bank: no register exists.
    pub fn new() -> (r: Registers)
        ensures
            r.wf(),
            r@ == Map::<Val, Seq<Val>>::empty(),
    {
        Registers { entries: Vec::new() }
    }

    /// The index of the entry holding `id`, if one exists.
    fn find(&self, id: &Val) -> (r: Option<usize>)
        requires
            self.wf(),
        ensures
            match r {
                Some(i) => {
                    &&& i < self.entries@.len()
                    &&& self.entries@[i as int].id == *id
                    &&& self@.contains_key(*id)
                    &&& self@[*id] == self.entries@[i as int].vals@
                },
                None => !self@.contains_key(*id),
            },
    {
        let n: usize = self.entries.len();
        let mut i: usize = 0;
        while i < n
            invariant
                i <= n,
                n == self.entries@.len(),
                self.wf(),
                forall|j: int| 0 <= j < i ==> self.entries@[j].id != *id,
            decreases n - i,
        {
            if self.entries[i].id == *id {
                proof {
                    lemma_entries_map_index(self.entries@, i as int);
                }
                return Some(i);
            }
            i = i + 1;
        }
        proof {
            lemma_entries_map_absent(self.entries@, *id);
        }
        None
    }

    /// Appends `val` to `id`'s register, creating the register on its
    /// first push. Always succeeds.
    pub fn push(&mut self, id: Val, val: Val)
        requires
            old(self).wf(),
        ensures
            final(self).wf(),
            final(self)@ == old(self)@.insert(
                id,
                (if old(self)@.contains_key(id) {
                    old(self)@[id]
                } else {
                    Seq::<Val>::empty()
                }).push(val),
            ),
    {
        match self.find(&id) {
            Some(i) => {
                let ghost s0 = self.entries@;
                let mut e = self.entries.remove(i);
                e.vals.push(val);
                self.entries.insert(i, e);
                proof {
                    assert(self.entries@ =~= s0.update(i as int, e));
                    lemma_entries_map_update(s0, i as int, e);
                    assert(e.vals@ == s0[i as int].vals@.push(val));
                }
            },
            None => {
                let ghost s0 = self.entries@;
                let mut vals: Vec<Val> = Vec::new();
                vals.push(val);
                let e = RegEntry { id, vals };
                self.entries.push(e);
                proof {
                    assert forall|i: int| 0 <= i < s0.len() implies s0[i].id != id by {
                        if s0[i].id == id {
                            lemma_entries_map_index(s0, i);
                        }
                    }
                    assert(self.entries@.drop_last() =~= s0);
                    assert(e.vals@ =~= Seq::<Val>::empty().push(val));
                }
            },
        }
    }

    /// Removes and returns the most recently pushed value for `id`; fails
    /// with `EndOfRegister` when `id`'s register is absent or empty, leaving
    /// the bank unchanged.
    pub fn pop(&mut self, id: &Val) -> (r: Result<Val, Error>)
        requires
            old(self).wf(),
        ensures
            final(self).wf(),
            old(self)@.contains_key(*id) && old(self)@[*id].len() > 0 ==> {
                &&& r == Ok::<Val, Error>(old(self)@[*id].last())
                &&& final(self)@ == old(self)@.insert(*id, old(self)@[*id].drop_last())
            },
            !(old(self)@.contains_key(*id) && old(self)@[*id].len() > 0) ==> {
                &&& r == Err::<Val, Error>(Error::EndOfRegister(*id))
                &&& final(self)@ == old(self)@
            },
    {
        match self.find(id) {
            Some(i) => {
                if self.entries[i].vals.len() == 0 {
                    return Err(Error::EndOfRegister(*id));
                }
                let ghost s0 = self.entries@;
                let mut e = self.entries.remove(i);
                let v = match e.vals.pop() {
                    Some(v) => v,
                    None => {
                        proof {
                            assert(false);
                        }
                        *id
                    },
                };
                self.entries.insert(i, e);
                proof {
                    assert(self.entries@ =~= s0.update(i as int, e));
                    lemma_entries_map_update(s0, i as int, e);
                }
                Ok(v)
            },
            None => Err(Error::EndOfRegister(*id)),
        }
    }

    /// Returns the most recently pushed value for `id` without removing it;
    /// fails with `EndOfRegister` when `id`'s register is absent or empty.
    pub fn val(&self, id: &Val) -> (r: Result<Val, Error>)
        requires
            self.wf(),
        ensures
            self@.contains_key(*id) && self@[*id].len() > 0 ==> r == Ok::<Val, Error>(
                self@[*id].last(),
            ),
            !(self@.contains_key(*id) && self@[*id].len() > 0) ==> r == Err::<Val, Error>(
                Error::EndOfRegister(*id),
            ),
    {
        match self.find(id) {
            Some(i) => {
                let len: usize = self.entries[i].vals.len();
                if len == 0 {
                    Err(Error::EndOfRegister(*id))
                } else {
                    Ok(self.entries[i].vals[len - 1])
                }
            },
            None => Err(Error::EndOfRegister(*id)),
        }
    }

    /// The current contents of `id`'s register, oldest first, or nothing at
    /// all when the register does not exist.
    pub fn iter(&self, id: &Val) -> (r: Option<Vec<Val>>)
        requires
            self.wf(),
        ensures
            match r {
                Some(v) => self@.contains_key(*id) && v@ == self@[*id],
                None => !self@.contains_key(*id),
            },
    {
        match self.find(id) {
            Some(i) => {
                let n: usize = self.entries[i].vals.len();
                let mut out: Vec<Val> = Vec::new();
                let mut j: usize = 0;
                while j < n
                    invariant
                        j <= n,
                        i < self.entries@.len(),
                        n == self.entries@[i as int].vals@.len(),
                        out@ == self.entries@[i as int].vals@.take(j as int),
                    decreases n - j,
                {
                    out.push(self.entries[i].vals[j]);
                    proof {
                        assert(self.entries@[i as int].vals@.take(j + 1)
                            =~= self.entries@[i as int].vals@.take(j as int).push(
                            self.entries@[i as int].vals@[j as int],
                        ));
                    }
                    j = j + 1;
                }
                proof {
                    assert(self.entries@[i as int].vals@.take(n as int) =~= self.entries@[
                        i as int].vals@);
                }
                Some(out)
            },
            None => None,
        }
    }
}

} // verus!
