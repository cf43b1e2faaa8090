//! A register of values keyed by text, where each key occurs at most once.
//!
//! The reactor keeps the wakers of the activities it waits on here, and the spawner the
//! cancellation handles of the jobs it started. Both need `remove` to hand back the value
//! that was registered, which is why the register is its own type.

use vstd::prelude::*;

use crate::text::text_eq;

verus! {

/// The map that a list of entries stands for: each entry sets its key, later entries
/// over earlier ones.
pub open spec fn entries_map<V>(entries: Seq<(String, V)>) -> Map<Seq<char>, V>
    decreases entries.len(),
{
    if entries.len() == 0 {
        Map::empty()
    } else {
        entries_map(entries.drop_last()).insert(entries.last().0@, entries.last().1)
    }
}

/// No key occurs in two entries.
pub open spec fn keys_unique<V>(entries: Seq<(String, V)>) -> bool {
    forall|i: int, j: int|
        0 <= i < entries.len() && 0 <= j < entries.len() && i != j
            ==> #[trigger] entries[i].0@ != #[trigger] entries[j].0@
}

/// A key is in the map of a list of entries exactly when some entry holds it, and with
/// unique keys it maps to that entry's value.
pub proof fn lemma_entries_map_lookup<V>(entries: Seq<(String, V)>)
    requires
        keys_unique(entries),
    ensures
        forall|k: Seq<char>|
            #[trigger] entries_map(entries).contains_key(k)
                <==> exists|i: int| 0 <= i < entries.len() && entries[i].0@ == k,
        forall|i: int|
            0 <= i < entries.len() ==> #[trigger] entries_map(entries)[entries[i].0@]
                == entries[i].1,
    decreases entries.len(),
{
    if entries.len() > 0 {
        let init = entries.drop_last();
        assert(keys_unique(init)) by {
            assert forall|i: int, j: int|
                0 <= i < init.len() && 0 <= j < init.len() && i != j
                    implies #[trigger] init[i].0@ != #[trigger] init[j].0@ by {
                assert(init[i] == entries[i] && init[j] == entries[j]);
            }
        }
        lemma_entries_map_lookup(init);
        assert forall|k: Seq<char>|
            #[trigger] entries_map(entries).contains_key(k)
                <==> exists|i: int| 0 <= i < entries.len() && entries[i].0@ == k by {
            assert(entries_map(entries) == entries_map(init).insert(
                entries.last().0@,
                entries.last().1,
            ));
            if entries_map(entries).contains_key(k) {
                if k == entries.last().0@ {
                    assert(entries[entries.len() - 1].0@ == k);
                } else {
                    assert(entries_map(init).contains_key(k));
                    let i = choose|i: int| 0 <= i < init.len() && init[i].0@ == k;
                    assert(entries[i] == init[i]);
                    assert(entries[i].0@ == k);
                }
            }
            if exists|i: int| 0 <= i < entries.len() && entries[i].0@ == k {
                let i = choose|i: int| 0 <= i < entries.len() && entries[i].0@ == k;
                assert(entries_map(entries) == entries_map(init).insert(
                    entries.last().0@,
                    entries.last().1,
                ));
                if i < init.len() {
                    assert(init[i] == entries[i]);
                    assert(entries_map(init).contains_key(k));
                }
            }
        }
        assert forall|i: int| 0 <= i < entries.len() implies #[trigger] entries_map(
            entries,
        )[entries[i].0@] == entries[i].1 by {
            if i < init.len() {
                assert(init[i] == entries[i]);
                assert(entries[i].0@ != entries[entries.len() - 1].0@);
                assert(entries_map(init)[init[i].0@] == init[i].1);
            }
        }
    }
}

/// The map of a list after removing entry `i`: the old map without that entry's key.
pub proof fn lemma_entries_map_remove<V>(entries: Seq<(String, V)>, i: int)
    requires
        keys_unique(entries),
        0 <= i < entries.len(),
    ensures
        keys_unique(entries.remove(i)),
        entries_map(entries.remove(i)) == entries_map(entries).remove(entries[i].0@),
{
    let rest = entries.remove(i);
    assert(keys_unique(rest)) by {
        assert forall|a: int, b: int|
            0 <= a < rest.len() && 0 <= b < rest.len() && a != b
                implies #[trigger] rest[a].0@ != #[trigger] rest[b].0@ by {
            let a2 = if a < i { a } else { a + 1 };
            let b2 = if b < i { b } else { b + 1 };
            assert(rest[a] == entries[a2] && rest[b] == entries[b2]);
        }
    }
    lemma_entries_map_lookup(entries);
    lemma_entries_map_lookup(rest);
    let key = entries[i].0@;
    assert forall|k: Seq<char>| #[trigger]
        entries_map(rest).contains_key(k) <==> entries_map(entries).remove(key).contains_key(k) by {
        if entries_map(rest).contains_key(k) {
            let a = choose|a: int| 0 <= a < rest.len() && rest[a].0@ == k;
            let a2 = if a < i { a } else { a + 1 };
            assert(rest[a] == entries[a2]);
        }
        if entries_map(entries).remove(key).contains_key(k) {
            let a = choose|a: int| 0 <= a < entries.len() && entries[a].0@ == k;
            assert(a != i);
            let a1 = if a < i { a } else { a - 1 };
            assert(rest[a1] == entries[a]);
        }
    }
    assert forall|k: Seq<char>| #[trigger] entries_map(rest).contains_key(k) implies entries_map(
        rest,
    )[k] == entries_map(entries).remove(key)[k] by {
        let a = choose|a: int| 0 <= a < rest.len() && rest[a].0@ == k;
        let a2 = if a < i { a } else { a + 1 };
        assert(rest[a] == entries[a2]);
    }
    assert(entries_map(rest) =~= entries_map(entries).remove(key));
}

/// The map of a list after replacing the value of entry `i`: the old map with that key
/// set to the new value.
pub proof fn lemma_entries_map_update<V>(entries: Seq<(String, V)>, i: int, value: V)
    requires
        keys_unique(entries),
        0 <= i < entries.len(),
    ensures
        keys_unique(entries.update(i, (entries[i].0, value))),
        entries_map(entries.update(i, (entries[i].0, value))) == entries_map(entries).insert(
            entries[i].0@,
            value,
        ),
{
    let next = entries.update(i, (entries[i].0, value));
    assert(keys_unique(next)) by {
        assert forall|a: int, b: int|
            0 <= a < next.len() && 0 <= b < next.len() && a != b
                implies #[trigger] next[a].0@ != #[trigger] next[b].0@ by {
            assert(next[a].0 == entries[a].0 && next[b].0 == entries[b].0);
        }
    }
    lemma_entries_map_lookup(entries);
    lemma_entries_map_lookup(next);
    let key = entries[i].0@;
    assert forall|k: Seq<char>| #[trigger]
        entries_map(next).contains_key(k) <==> entries_map(entries).insert(key, value).contains_key(
            k,
        ) by {
        if entries_map(next).contains_key(k) {
            let a = choose|a: int| 0 <= a < next.len() && next[a].0@ == k;
            assert(next[a].0 == entries[a].0);
        }
        if entries_map(entries).contains_key(k) {
            let a = choose|a: int| 0 <= a < entries.len() && entries[a].0@ == k;
            assert(next[a].0 == entries[a].0);
        }
        if k == key {
            assert(next[i].0@ == key);
        }
    }
    assert forall|k: Seq<char>| #[trigger] entries_map(next).contains_key(k) implies entries_map(
        next,
    )[k] == entries_map(entries).insert(key, value)[k] by {
        let a = choose|a: int| 0 <= a < next.len() && next[a].0@ == k;
        assert(next[a].0 == entries[a].0);
        if a != i {
            assert(next[a] == entries[a]);
        }
    }
    assert(entries_map(next) =~= entries_map(entries).insert(key, value));
}

/// A register of values keyed by text; its view is the map from key to value.
pub struct Registry<V> {
    entries: Vec<(String, V)>,
}

impl<V> View for Registry<V> {
    type V = Map<Seq<char>, V>;

    closed spec fn view(&self) -> Map<Seq<char>, V> {
        entries_map(self.entries@)
    }
}

impl<V> Registry<V> {
    /// The register keeps each key at most once.
    #[verifier::type_invariant]
    spec fn wf(&self) -> bool {
        keys_unique(self.entries@)
    }

    /// An empty register.
    pub fn new() -> (registry: Self)
        ensures
            registry@ == Map::<Seq<char>, V>::empty(),
    {
        Registry { entries: Vec::new() }
    }

    /// The number of keys in the register.
    pub fn len(&self) -> (n: usize)
        ensures
            n == self@.len(),
            self@.dom().finite(),
    {
        proof {
            use_type_invariant(&*self);
        }
        proof {
            self.lemma_len();
        }
        self.entries.len()
    }

    proof fn lemma_len(&self)
        requires
            keys_unique(self.entries@),
        ensures
            self@.len() == self.entries@.len(),
            self@.dom().finite(),
    {
        lemma_len_of_unique(self.entries@);
    }

    /// The position of the entry holding `key`, if any.
    fn find(&self, key: &str) -> (found: Option<usize>)
        ensures
            match found {
                Some(i) => i < self.entries@.len() && self.entries@[i as int].0@ == key@,
                None => forall|i: int|
                    0 <= i < self.entries@.len() ==> #[trigger] self.entries@[i].0@ != key@,
            },
    {
        proof {
            use_type_invariant(&*self);
        }
        let mut i: usize = 0;
        while i < self.entries.len()
            invariant
                i <= self.entries@.len(),
                forall|j: int| 0 <= j < i ==> #[trigger] self.entries@[j].0@ != key@,
            decreases self.entries@.len() - i,
        {
            if text_eq(self.entries[i].0.as_str(), key) {
                return Some(i);
            }
            i = i + 1;
        }
        None
    }

    /// Whether `key` is registered.
    pub fn contains_key(&self, key: &str) -> (found: bool)
        ensures
            found == self@.contains_key(key@),
    {
        proof {
            use_type_invariant(&*self);
        }
        proof {
            lemma_entries_map_lookup(self.entries@);
        }
        self.find(key).is_some()
    }

    /// The value registered under `key`, if any.
    pub fn get(&self, key: &str) -> (value: Option<&V>)
        ensures
            match value {
                Some(v) => self@.contains_key(key@) && *v == self@[key@],
                None => !self@.contains_key(key@),
            },
    {
        proof {
            use_type_invariant(&*self);
        }
        proof {
            lemma_entries_map_lookup(self.entries@);
        }
        match self.find(key) {
            Some(i) => Some(&self.entries[i].1),
            None => None,
        }
    }

    /// Registers `value` under `key`, replacing what was registered there before.
    pub fn insert(&mut self, key: String, value: V)
        ensures
            final(self)@ == old(self)@.insert(key@, value),
    {
        proof {
            use_type_invariant(&*self);
        }
        proof {
            lemma_entries_map_lookup(self.entries@);
        }
        let found = self.find(key.as_str());
        let mut entries: Vec<(String, V)> = Vec::new();
        std::mem::swap(&mut entries, &mut self.entries);
        let ghost before = entries@;
        match found {
            Some(i) => {
                proof {
                    lemma_entries_map_update(before, i as int, value);
                }
                let old_entry = entries.remove(i);
                entries.insert(i, (old_entry.0, value));
                assert(entries@ =~= before.update(i as int, (before[i as int].0, value)));
            },
            None => {
                entries.push((key, value));
                assert(entries@.drop_last() =~= before);
                assert(keys_unique(entries@)) by {
                    assert forall|a: int, b: int|
                        0 <= a < entries@.len() && 0 <= b < entries@.len() && a != b
                            implies #[trigger] entries@[a].0@ != #[trigger] entries@[b].0@ by {
                        if a < before.len() && b < before.len() {
                            assert(entries@[a] == before[a]);
                            assert(entries@[b] == before[b]);
                        } else if a < before.len() {
                            assert(entries@[a] == before[a]);
                        } else {
                            assert(entries@[b] == before[b]);
                        }
                    }
                }
            },
        }
        self.entries = entries;
    }

    /// Takes the value registered under `key` out of the register, if there is one.
    pub fn remove(&mut self, key: &str) -> (value: Option<V>)
        ensures
            final(self)@ == old(self)@.remove(key@),
            match value {
                Some(v) => old(self)@.contains_key(key@) && v == old(self)@[key@],
                None => !old(self)@.contains_key(key@),
            },
    {
        proof {
            use_type_invariant(&*self);
        }
        proof {
            lemma_entries_map_lookup(self.entries@);
        }
        match self.find(key) {
            Some(i) => {
                let mut entries: Vec<(String, V)> = Vec::new();
                std::mem::swap(&mut entries, &mut self.entries);
                let ghost before = entries@;
                proof {
                    lemma_entries_map_remove(before, i as int);
                }
                let entry = entries.remove(i);
                self.entries = entries;
                Some(entry.1)
            },
            None => {
                assert(!self@.contains_key(key@));
                assert(self@.remove(key@) =~= self@);
                None
            },
        }
    }
}

/// With unique keys, the map of a list has one key per entry.
pub proof fn lemma_len_of_unique<V>(entries: Seq<(String, V)>)
    requires
        keys_unique(entries),
    ensures
        entries_map(entries).dom().finite(),
        entries_map(entries).len() == entries.len(),
    decreases entries.len(),
{
    if entries.len() > 0 {
        let init = entries.drop_last();
        assert(keys_unique(init)) by {
            assert forall|i: int, j: int|
                0 <= i < init.len() && 0 <= j < init.len() && i != j
                    implies #[trigger] init[i].0@ != #[trigger] init[j].0@ by {
                assert(init[i] == entries[i] && init[j] == entries[j]);
            }
        }
        lemma_len_of_unique(init);
        lemma_entries_map_lookup(init);
        let last = entries.last().0@;
        if entries_map(init).contains_key(last) {
            let i = choose|i: int| 0 <= i < init.len() && init[i].0@ == last;
            assert(init[i] == entries[i]);
        }
    }
}

} // verus!
