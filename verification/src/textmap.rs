//! A small map keyed by text, kept in the order its keys arrived.

use vstd::prelude::*;

use crate::text::same;

verus! {

/// A map from texts to values.
#[derive(Debug, Clone, PartialEq, Eq)]
pub struct TextMap<V> {
    entries: Vec<(String, V)>,
}

/// The value that `entries` first names `key` with.
pub open spec fn lookup<V>(entries: Seq<(String, V)>, key: Seq<char>) -> Option<V>
    decreases entries.len(),
{
    if entries.len() == 0 {
        None
    } else if entries[0].0@ == key {
        Some(entries[0].1)
    } else {
        lookup(entries.subrange(1, entries.len() as int), key)
    }
}

proof fn lemma_lookup_at<V>(entries: Seq<(String, V)>, key: Seq<char>, i: int)
    requires
        0 <= i < entries.len(),
        entries[i].0@ == key,
        forall|j: int| 0 <= j < i ==> (#[trigger] entries[j]).0@ != key,
    ensures
        lookup(entries, key) == Some(entries[i].1),
    decreases entries.len(),
{
    if i > 0 {
        let rest = entries.subrange(1, entries.len() as int);
        assert(rest[i - 1] == entries[i]);
        assert forall|j: int| 0 <= j < i - 1 implies (#[trigger] rest[j]).0@ != key by {
            assert(rest[j] == entries[j + 1]);
        }
        assert(entries[0].0@ != key);
        lemma_lookup_at(rest, key, i - 1);
    }
}

proof fn lemma_lookup_none<V>(entries: Seq<(String, V)>, key: Seq<char>)
    requires
        forall|j: int| 0 <= j < entries.len() ==> (#[trigger] entries[j]).0@ != key,
    ensures
        lookup(entries, key) is None,
    decreases entries.len(),
{
    if entries.len() > 0 {
        let rest = entries.subrange(1, entries.len() as int);
        assert forall|j: int| 0 <= j < rest.len() implies (#[trigger] rest[j]).0@ != key by {
            assert(rest[j] == entries[j + 1]);
        }
        assert(entries[0].0@ != key);
        lemma_lookup_none(rest, key);
    }
}

proof fn lemma_lookup_push<V>(entries: Seq<(String, V)>, item: (String, V), key: Seq<char>)
    ensures
        lookup(entries.push(item), key) == (match lookup(entries, key) {
            Some(v) => Some(v),
            None => if item.0@ == key {
                Some(item.1)
            } else {
                None
            },
        }),
    decreases entries.len(),
{
    let longer = entries.push(item);
    if entries.len() == 0 {
        assert(longer[0] == item);
        assert(lookup(longer.subrange(1, longer.len() as int), key) is None);
    } else {
        let rest = entries.subrange(1, entries.len() as int);
        assert(longer.subrange(1, longer.len() as int) =~= rest.push(item));
        lemma_lookup_push(rest, item, key);
    }
}

impl<V> View for TextMap<V> {
    type V = Map<Seq<char>, V>;

    closed spec fn view(&self) -> Map<Seq<char>, V> {
        Map::new(
            |key: Seq<char>| lookup(self.entries@, key) is Some,
            |key: Seq<char>| lookup(self.entries@, key)->0,
        )
    }
}

impl<V> TextMap<V> {
    /// A map that names nothing.
    pub fn new() -> (r: TextMap<V>)
        ensures
            r@ == Map::<Seq<char>, V>::empty(),
    {
        let r = TextMap { entries: Vec::new() };
        assert(r@ =~= Map::<Seq<char>, V>::empty());
        r
    }

    fn position(&self, key: &str) -> (r: Option<usize>)
        ensures
            match r {
                Some(i) => i < self.entries.len() && lookup(self.entries@, key@) == Some(
                    self.entries@[i as int].1,
                ) && self.entries@[i as int].0@ == key@ && (forall|j: int|
                    0 <= j < i ==> (#[trigger] self.entries@[j]).0@ != key@),
                None => lookup(self.entries@, key@) is None && (forall|j: int|
                    0 <= j < self.entries.len() ==> (#[trigger] self.entries@[j]).0@ != key@),
            },
    {
        let n: usize = self.entries.len();
        let mut i: usize = 0;
        while i < n
            invariant
                i <= n,
                n == self.entries.len(),
                forall|j: int| 0 <= j < i ==> (#[trigger] self.entries@[j]).0@ != key@,
            decreases n - i,
        {
            if same(self.entries[i].0.as_str(), key) {
                proof {
                    lemma_lookup_at(self.entries@, key@, i as int);
                }
                return Some(i);
            }
            i += 1;
        }
        proof {
            lemma_lookup_none(self.entries@, key@);
        }
        None
    }

    /// What `key` names.
    pub fn get(&self, key: &str) -> (r: Option<&V>)
        ensures
            match r {
                Some(v) => self@.contains_key(key@) && self@[key@] == *v,
                None => !self@.contains_key(key@),
            },
    {
        match self.position(key) {
            Some(i) => Some(&self.entries[i].1),
            None => None,
        }
    }

    /// Makes `key` name `value`, whatever it named before.
    pub fn insert(&mut self, key: String, value: V)
        ensures
            final(self)@ == old(self)@.insert(key@, value),
    {
        let found = self.position(key.as_str());
        let ghost before = self.entries@;
        match found {
            Some(i) => {
                self.entries.set(i, (key, value));
                proof {
                    lemma_lookup_at(self.entries@, key@, i as int);
                    assert forall|other: Seq<char>| other != key@ implies lookup(
                        self.entries@,
                        other,
                    ) == lookup(before, other) by {
                        lemma_lookup_update(before, i as int, (key, value), other);
                    }
                }
            },
            None => {
                self.entries.push((key, value));
                proof {
                    assert forall|other: Seq<char>| true implies #[trigger] lookup(
                        self.entries@,
                        other,
                    ) == (match lookup(before, other) {
                        Some(v) => Some(v),
                        None => if key@ == other {
                            Some(value)
                        } else {
                            None
                        },
                    }) by {
                        lemma_lookup_push(before, (key, value), other);
                    }
                }
            },
        }
        assert(self@ =~= old(self)@.insert(key@, value));
    }

    /// Makes `key` name nothing.
    pub fn remove(&mut self, key: &str)
        ensures
            final(self)@ == old(self)@.remove(key@),
    {
        let ghost start = self.entries@;
        let n: usize = self.entries.len();
        let mut kept: usize = n;
        let mut i: usize = n;
        while i > 0
            invariant
                i <= self.entries.len(),
                kept == self.entries.len(),
                kept <= n,
                forall|j: int|
                    i <= j < self.entries.len() ==> (#[trigger] self.entries@[j]).0@ != key@,
                forall|other: Seq<char>|
                    other != key@ ==> lookup(self.entries@, other) == lookup(start, other),
            decreases i,
        {
            i -= 1;
            if same(self.entries[i].0.as_str(), key) {
                let ghost before = self.entries@;
                self.entries.remove(i);
                kept -= 1;
                proof {
                    assert forall|other: Seq<char>| other != key@ implies lookup(
                        self.entries@,
                        other,
                    ) == lookup(start, other) by {
                        lemma_lookup_remove(before, i as int, other);
                    }
                }
            }
        }
        proof {
            lemma_lookup_none(self.entries@, key@);
            assert(self@ =~= old(self)@.remove(key@));
        }
    }
}

proof fn lemma_lookup_update<V>(
    entries: Seq<(String, V)>,
    i: int,
    item: (String, V),
    key: Seq<char>,
)
    requires
        0 <= i < entries.len(),
        entries[i].0@ == item.0@,
        item.0@ != key,
    ensures
        lookup(entries.update(i, item), key) == lookup(entries, key),
    decreases entries.len(),
{
    let changed = entries.update(i, item);
    let rest = entries.subrange(1, entries.len() as int);
    if i == 0 {
        assert(changed.subrange(1, changed.len() as int) =~= rest);
    } else {
        assert(changed.subrange(1, changed.len() as int) =~= rest.update(i - 1, item));
        assert(changed[0] == entries[0]);
        if entries[0].0@ != key {
            lemma_lookup_update(rest, i - 1, item, key);
        }
    }
}

proof fn lemma_lookup_remove<V>(entries: Seq<(String, V)>, i: int, key: Seq<char>)
    requires
        0 <= i < entries.len(),
        entries[i].0@ != key,
    ensures
        lookup(entries.remove(i), key) == lookup(entries, key),
    decreases entries.len(),
{
    let fewer = entries.remove(i);
    let rest = entries.subrange(1, entries.len() as int);
    if i == 0 {
        assert(fewer =~= rest);
    } else {
        assert(fewer.subrange(1, fewer.len() as int) =~= rest.remove(i - 1));
        assert(fewer[0] == entries[0]);
        if entries[0].0@ != key {
            lemma_lookup_remove(rest, i - 1, key);
        }
    }
}

} // verus!
