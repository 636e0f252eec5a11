//! The shared cache of last-known parameter values.
//!
//! A mapping from hierarchical parameter path to the last accepted
//! value for that path.  Keys are case- and byte-exact, unique, and
//! never deleted; every mutation goes through [`Cache::insert`], which
//! replaces any previous value (last-write-wins).

use vstd::prelude::*;

use crate::value::{Value, ValueModel};

verus! {

/// Mapping from parameter path to last-known [`Value`].
#[derive(Debug)]
pub struct Cache {
    entries: Vec<(String, Value)>,
}

/// The map denoted by a sequence of path/value entries; a later entry
/// for the same path wins.
pub open spec fn entries_map(s: Seq<(String, Value)>) -> Map<Seq<char>, ValueModel>
    decreases s.len(),
{
    if s.len() == 0 {
        Map::empty()
    } else {
        entries_map(s.drop_last()).insert(s.last().0@, s.last().1@)
    }
}

/// No two entries share a path.
pub open spec fn keys_unique(s: Seq<(String, Value)>) -> bool {
    forall|i: int, j: int| 0 <= i < j < s.len() ==> s[i].0@ != s[j].0@
}

/// A key is in the entry map exactly when some entry carries it.
proof fn lemma_entries_map_contains(s: Seq<(String, Value)>, k: Seq<char>)
    ensures
        entries_map(s).contains_key(k) <==> exists|i: int| 0 <= i < s.len() && s[i].0@ == k,
    decreases s.len(),
{
    if s.len() > 0 {
        lemma_entries_map_contains(s.drop_last(), k);
        if s.last().0@ == k {
            assert(s[s.len() - 1].0@ == k);
        } else if entries_map(s).contains_key(k) {
            let i = choose|i: int| 0 <= i < s.drop_last().len() && s.drop_last()[i].0@ == k;
            assert(s[i].0@ == k);
        } else {
            assert forall|i: int| 0 <= i < s.len() implies s[i].0@ != k by {
                if i < s.len() - 1 {
                    assert(s.drop_last()[i].0@ == s[i].0@);
                }
            }
        }
    }
}

/// With unique keys, the entry that carries a path determines the map's
/// value at that path.
proof fn lemma_entries_map_at(s: Seq<(String, Value)>, i: int)
    requires
        keys_unique(s),
        0 <= i < s.len(),
    ensures
        entries_map(s).contains_key(s[i].0@),
        entries_map(s)[s[i].0@] == s[i].1@,
    decreases s.len(),
{
    if i == s.len() - 1 {
        assert(s[i] == s.last());
    } else {
        assert(keys_unique(s.drop_last()));
        assert(s.drop_last()[i] == s[i]);
        lemma_entries_map_at(s.drop_last(), i);
        assert(s.last().0@ != s[i].0@);
    }
}

/// Updating the entry that carries a path is inserting at that path.
proof fn lemma_entries_map_update(s: Seq<(String, Value)>, i: int, e: (String, Value))
    requires
        keys_unique(s),
        0 <= i < s.len(),
        e.0@ == s[i].0@,
    ensures
        entries_map(s.update(i, e)) == entries_map(s).insert(e.0@, e.1@),
    decreases s.len(),
{
    let t = s.update(i, e);
    if i == s.len() - 1 {
        assert(t.drop_last() == s.drop_last());
        assert(t.last() == e);
        assert(entries_map(t) == entries_map(s.drop_last()).insert(e.0@, e.1@));
        assert(entries_map(s).insert(e.0@, e.1@) == entries_map(s.drop_last()).insert(
            s.last().0@,
            s.last().1@,
        ).insert(e.0@, e.1@));
        assert(entries_map(s.drop_last()).insert(e.0@, e.1@) =~= entries_map(s.drop_last()).insert(
            s.last().0@,
            s.last().1@,
        ).insert(e.0@, e.1@));
    } else {
        assert(keys_unique(s.drop_last()));
        assert(s.drop_last()[i] == s[i]);
        lemma_entries_map_update(s.drop_last(), i, e);
        assert(t.drop_last() == s.drop_last().update(i, e));
        assert(t.last() == s.last());
        assert(entries_map(t) == entries_map(s.drop_last()).insert(e.0@, e.1@).insert(
            s.last().0@,
            s.last().1@,
        ));
        assert(s.last().0@ != e.0@);
        assert(entries_map(s.drop_last()).insert(e.0@, e.1@).insert(s.last().0@, s.last().1@)
            =~= entries_map(s.drop_last()).insert(s.last().0@, s.last().1@).insert(e.0@, e.1@));
    }
}

impl Cache {
    /// The map this cache denotes.
    pub closed spec fn as_map(&self) -> Map<Seq<char>, ValueModel> {
        entries_map(self.entries@)
    }

    /// Well-formed: one live entry per path.
    pub closed spec fn wf(&self) -> bool {
        keys_unique(self.entries@)
    }

    /// An empty cache.
    pub fn new() -> (c: Cache)
        ensures
            c.wf(),
            c.as_map() == Map::<Seq<char>, ValueModel>::empty(),
    {
        Cache { entries: Vec::new() }
    }

    /// Index of the entry carrying `path`, if any.
    fn find(&self, path: &str) -> (r: Option<usize>)
        requires
            self.wf(),
        ensures
            match r {
                Some(i) => i < self.entries@.len() && self.entries@[i as int].0@ == path@,
                None => !self.as_map().contains_key(path@),
            },
    {
        let key: String = path.to_owned();
        let n = self.entries.len();
        let mut i: usize = 0;
        while i < n
            invariant
                n == self.entries@.len(),
                i <= n,
                key@ == path@,
                forall|j: int| 0 <= j < i ==> self.entries@[j].0@ != path@,
            decreases n - i,
        {
            if self.entries[i].0 == key {
                return Some(i);
            }
            i = i + 1;
        }
        proof {
            lemma_entries_map_contains(self.entries@, path@);
        }
        None
    }

    /// Immediate, non-blocking check whether a path has a cached value.
    pub fn contains(&self, path: &str) -> (r: bool)
        requires
            self.wf(),
        ensures
            r == self.as_map().contains_key(path@),
    {
        match self.find(path) {
            Some(i) => {
                proof {
                    lemma_entries_map_at(self.entries@, i as int);
                }
                true
            },
            None => false,
        }
    }

    /// Immediate, non-blocking lookup of the last-known value for a path.
    pub fn get(&self, path: &str) -> (r: Option<&Value>)
        requires
            self.wf(),
        ensures
            match r {
                Some(v) => self.as_map().contains_key(path@) && v@ == self.as_map()[path@],
                None => !self.as_map().contains_key(path@),
            },
    {
        match self.find(path) {
            Some(i) => {
                proof {
                    lemma_entries_map_at(self.entries@, i as int);
                }
                Some(&self.entries[i].1)
            },
            None => None,
        }
    }

    /// Store the last accepted value for a path, replacing any previous
    /// one.  Entries are created on first insert and never deleted.
    pub fn insert(&mut self, path: &str, value: Value)
        requires
            old(self).wf(),
        ensures
            final(self).wf(),
            final(self).as_map() == old(self).as_map().insert(path@, value@),
    {
        let key: String = path.to_owned();
        match self.find(path) {
            Some(i) => {
                let ghost s = self.entries@;
                let ghost e = (key, value);
                proof {
                    lemma_entries_map_update(s, i as int, e);
                }
                self.entries.set(i, (key, value));
                proof {
                    assert(self.entries@ =~= s.update(i as int, e));
                    assert forall|p: int, q: int|
                        0 <= p < q < self.entries@.len() implies self.entries@[p].0@
                        != self.entries@[q].0@ by {
                        assert(s[p].0@ != s[q].0@);
                    }
                }
            },
            None => {
                let ghost s = self.entries@;
                proof {
                    lemma_entries_map_contains(s, path@);
                }
                self.entries.push((key, value));
                proof {
                    assert(self.entries@.drop_last() =~= s);
                    assert forall|p: int, q: int|
                        0 <= p < q < self.entries@.len() implies self.entries@[p].0@
                        != self.entries@[q].0@ by {
                        if q < s.len() {
                            assert(s[p].0@ != s[q].0@);
                        } else {
                            assert(s[p].0@ != path@);
                        }
                    }
                }
            },
        }
    }
}

} // verus!
