//! A small map from text keys to text values, kept as an association list
//! with distinct keys.

use vstd::prelude::*;
use crate::seqs::{first_index, lemma_first_index_at, lemma_first_index_none, lemma_first_index_spec};
use crate::text::str_eq;

verus! {

pub open spec fn entry_key_pred(k: Seq<char>) -> spec_fn((String, String)) -> bool {
    |e: (String, String)| e.0@ == k
}

pub open spec fn distinct_entry_keys(entries: Seq<(String, String)>) -> bool {
    forall|i: int, j: int|
        0 <= i < j < entries.len() ==> (#[trigger] entries[i]).0@ != (#[trigger] entries[j]).0@
}

pub open spec fn map_of_entries(entries: Seq<(String, String)>) -> Map<Seq<char>, Seq<char>> {
    Map::new(
        |k: Seq<char>| first_index(entries, entry_key_pred(k)) is Some,
        |k: Seq<char>| entries[first_index(entries, entry_key_pred(k))->0].1@,
    )
}

proof fn lemma_entry_at(entries: Seq<(String, String)>, i: int)
    requires
        distinct_entry_keys(entries),
        0 <= i < entries.len(),
    ensures
        first_index(entries, entry_key_pred(entries[i].0@)) == Some(i),
{
    let p = entry_key_pred(entries[i].0@);
    assert forall|j: int| 0 <= j < i implies !p(#[trigger] entries[j]) by {}
    lemma_first_index_at(entries, p, i);
}

proof fn lemma_entries_update(entries: Seq<(String, String)>, i: int, e: (String, String))
    requires
        distinct_entry_keys(entries),
        0 <= i <= entries.len(),
        i < entries.len() ==> entries[i].0@ == e.0@,
        i == entries.len() ==> forall|j: int| 0 <= j < entries.len() ==> (#[trigger] entries[j]).0@ != e.0@,
    ensures
        distinct_entry_keys(if i < entries.len() { entries.update(i, e) } else { entries.push(e) }),
        map_of_entries(if i < entries.len() { entries.update(i, e) } else { entries.push(e) })
            == map_of_entries(entries).insert(e.0@, e.1@),
{
    let new = if i < entries.len() { entries.update(i, e) } else { entries.push(e) };
    assert forall|a: int, b: int| 0 <= a < b < new.len() implies (#[trigger] new[a]).0@
        != (#[trigger] new[b]).0@ by {
        if a != i && b != i {
            assert(new[a] == entries[a] && new[b] == entries[b]);
        } else if a == i {
            assert(new[b] == entries[b]);
        } else {
            assert(new[a] == entries[a]);
        }
    }
    let target = map_of_entries(entries).insert(e.0@, e.1@);
    assert forall|k: Seq<char>|
        #![trigger map_of_entries(new).dom().contains(k)]
        #![trigger target.dom().contains(k)]
        map_of_entries(new).dom().contains(k) == target.dom().contains(k) && (map_of_entries(
            new,
        ).dom().contains(k) ==> map_of_entries(new)[k] == target[k]) by {
        if k == e.0@ {
            lemma_entry_at(new, i);
        } else {
            lemma_first_index_spec(entries, entry_key_pred(k));
            match first_index(entries, entry_key_pred(k)) {
                Some(j) => {
                    assert(new[j] == entries[j]);
                    lemma_entry_at(new, j);
                    lemma_entry_at(entries, j);
                },
                None => {
                    assert forall|j: int| 0 <= j < new.len() implies !entry_key_pred(k)(
                        #[trigger] new[j],
                    ) by {
                        if j != i {
                            assert(new[j] == entries[j]);
                            assert(!entry_key_pred(k)(entries[j]));
                        }
                    }
                    lemma_first_index_none(new, entry_key_pred(k));
                },
            }
        }
    }
    assert(map_of_entries(new) =~= target);
}

/// A map from text keys to text values.
#[derive(Debug, Default)]
pub struct TextMap {
    entries: Vec<(String, String)>,
}

impl View for TextMap {
    type V = Map<Seq<char>, Seq<char>>;

    closed spec fn view(&self) -> Map<Seq<char>, Seq<char>> {
        map_of_entries(self.entries@)
    }
}

impl TextMap {
    #[verifier::type_invariant]
    spec fn inv(&self) -> bool {
        distinct_entry_keys(self.entries@)
    }

    /// The empty map.
    pub fn new() -> (r: Self)
        ensures
            r@ == Map::<Seq<char>, Seq<char>>::empty(),
    {
        let r = TextMap { entries: Vec::new() };
        assert(r@ =~= Map::<Seq<char>, Seq<char>>::empty());
        r
    }

    fn position(&self, key: &str) -> (r: Option<usize>)
        ensures
            match r {
                Some(i) => i < self.entries@.len() && self.entries@[i as int].0@ == key@ && first_index(
                    self.entries@,
                    entry_key_pred(key@),
                ) == Some(i as int),
                None => first_index(self.entries@, entry_key_pred(key@)) is None && forall|j: int|
                    0 <= j < self.entries@.len() ==> (#[trigger] self.entries@[j]).0@ != key@,
            },
    {
        proof {
            use_type_invariant(self);
        }
        let mut i: usize = 0;
        while i < self.entries.len()
            invariant
                i <= self.entries@.len(),
                distinct_entry_keys(self.entries@),
                forall|j: int| 0 <= j < i ==> (#[trigger] self.entries@[j]).0@ != key@,
            decreases self.entries.len() - i,
        {
            if str_eq(self.entries[i].0.as_str(), key) {
                proof {
                    lemma_entry_at(self.entries@, i as int);
                }
                return Some(i);
            }
            i += 1;
        }
        proof {
            lemma_first_index_none(self.entries@, entry_key_pred(key@));
        }
        None
    }

    /// The value under `key`.
    pub fn get(&self, key: &str) -> (r: Option<&String>)
        ensures
            match r {
                Some(v) => self@.dom().contains(key@) && v@ == self@[key@],
                None => !self@.dom().contains(key@),
            },
    {
        match self.position(key) {
            Some(i) => Some(&self.entries[i].1),
            None => None,
        }
    }

    /// Sets the value under `key`, replacing any previous one.
    pub fn insert(&mut self, key: String, value: String)
        ensures
            final(self)@ == old(self)@.insert(key@, value@),
    {
        proof {
            use_type_invariant(&*self);
        }
        let ghost old_entries = self.entries@;
        let pos = self.position(key.as_str());
        let mut entries: Vec<(String, String)> = Vec::new();
        std::mem::swap(&mut entries, &mut self.entries);
        match pos {
            Some(i) => {
                proof {
                    lemma_entries_update(old_entries, i as int, (key, value));
                }
                entries.set(i, (key, value));
            },
            None => {
                proof {
                    lemma_entries_update(old_entries, old_entries.len() as int, (key, value));
                }
                entries.push((key, value));
            },
        }
        self.entries = entries;
    }

    /// Number of keys.
    pub fn len(&self) -> (r: usize)
        ensures
            r == self@.len(),
    {
        proof {
            use_type_invariant(self);
            lemma_map_len(self.entries@);
        }
        self.entries.len()
    }

    /// The (key, value) pairs, in insertion order of their keys.
    pub fn pairs(&self) -> (r: &[(String, String)])
        ensures
            r@.len() == self@.len(),
            forall|i: int| 0 <= i < r@.len() ==> self@.dom().contains((#[trigger] r@[i]).0@) && self@[r@[i].0@] == r@[i].1@,
    {
        proof {
            use_type_invariant(self);
            lemma_map_len(self.entries@);
            assert forall|i: int| 0 <= i < self.entries@.len() implies self@.dom().contains((#[trigger] self.entries@[i]).0@) && self@[self.entries@[i].0@] == self.entries@[i].1@ by {
                lemma_entry_at(self.entries@, i);
            }
        }
        self.entries.as_slice()
    }
}

proof fn lemma_map_len(entries: Seq<(String, String)>)
    requires
        distinct_entry_keys(entries),
    ensures
        map_of_entries(entries).dom().finite(),
        map_of_entries(entries).len() == entries.len(),
    decreases entries.len(),
{
    if entries.len() == 0 {
        assert(map_of_entries(entries).dom() =~= Set::empty());
    } else {
        let prev = entries.drop_last();
        assert(distinct_entry_keys(prev)) by {
            assert forall|a: int, b: int| 0 <= a < b < prev.len() implies (#[trigger] prev[a]).0@
                != (#[trigger] prev[b]).0@ by {
                assert(prev[a] == entries[a] && prev[b] == entries[b]);
            }
        }
        lemma_map_len(prev);
        let e = entries.last();
        assert forall|j: int| 0 <= j < prev.len() implies (#[trigger] prev[j]).0@ != e.0@ by {
            assert(prev[j] == entries[j]);
        }
        lemma_entries_update(prev, prev.len() as int, e);
        assert(prev.push(e) =~= entries);
        assert(!map_of_entries(prev).dom().contains(e.0@)) by {
            lemma_first_index_none(prev, entry_key_pred(e.0@));
        }
    }
}

} // verus!
