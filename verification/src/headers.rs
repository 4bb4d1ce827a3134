//! An insertion-ordered mapping from header names to header values.
//!
//! A name occurs at most once. Inserting under a name that is already there
//! replaces its value and keeps its place, so walking the entries always
//! gives the same order.

use crate::text::same_text;
use vstd::prelude::*;
use vstd::std_specs::cmp::PartialEqSpecImpl;

verus! {

/// A header as a pair of character sequences: name, then value.
pub type Entry = (Seq<char>, Seq<char>);

/// The index of the first entry named `key`, or the number of entries if
/// there is none.
pub open spec fn key_pos(entries: Seq<Entry>, key: Seq<char>) -> nat
    decreases entries.len(),
{
    if entries.len() > 0 && entries[0].0 != key {
        1 + key_pos(entries.drop_first(), key)
    } else {
        0
    }
}

/// Whether some entry is named `key`.
pub open spec fn has_key(entries: Seq<Entry>, key: Seq<char>) -> bool {
    key_pos(entries, key) < entries.len()
}

/// The value stored under `key`, if any.
pub open spec fn lookup(entries: Seq<Entry>, key: Seq<char>) -> Option<Seq<char>> {
    if has_key(entries, key) {
        Some(entries[key_pos(entries, key) as int].1)
    } else {
        None
    }
}

/// The entries after storing `value` under `key`: the entry named `key` is
/// replaced where it stands, or a new entry is added at the end.
pub open spec fn put(entries: Seq<Entry>, key: Seq<char>, value: Seq<char>) -> Seq<Entry> {
    if has_key(entries, key) {
        entries.update(key_pos(entries, key) as int, (key, value))
    } else {
        entries.push((key, value))
    }
}

/// Whether no two entries share a name.
pub open spec fn distinct_keys(entries: Seq<Entry>) -> bool {
    forall|i: int, j: int|
        0 <= i < j < entries.len() ==> (#[trigger] entries[i]).0 != (#[trigger] entries[j]).0
}

/// The entries as a mapping from names to values.
pub open spec fn to_map(entries: Seq<Entry>) -> Map<Seq<char>, Seq<char>> {
    Map::new(
        |key: Seq<char>| has_key(entries, key),
        |key: Seq<char>| entries[key_pos(entries, key) as int].1,
    )
}

/// An index before which no entry is named `key`, and which ends the entries
/// or holds one named `key`, is the position of `key`.
pub proof fn lemma_key_pos_is(entries: Seq<Entry>, key: Seq<char>, n: int)
    requires
        0 <= n <= entries.len(),
        forall|i: int| 0 <= i < n ==> (#[trigger] entries[i]).0 != key,
        n < entries.len() ==> entries[n].0 == key,
    ensures
        key_pos(entries, key) == n,
    decreases n,
{
    if n > 0 {
        let t = entries.drop_first();
        assert forall|i: int| 0 <= i < n - 1 implies (#[trigger] t[i]).0 != key by {
            assert(t[i] == entries[i + 1]);
        }
        if n < entries.len() {
            assert(t[n - 1] == entries[n]);
        }
        lemma_key_pos_is(t, key, n - 1);
    }
}

/// The position of `key` lies within the entries or at their end, no entry
/// before it is named `key`, and the entry at it is, unless it is the end.
pub proof fn lemma_key_pos_bounds(entries: Seq<Entry>, key: Seq<char>)
    ensures
        key_pos(entries, key) <= entries.len(),
        forall|i: int| 0 <= i < key_pos(entries, key) ==> (#[trigger] entries[i]).0 != key,
        has_key(entries, key) ==> entries[key_pos(entries, key) as int].0 == key,
    decreases entries.len(),
{
    if entries.len() > 0 && entries[0].0 != key {
        let t = entries.drop_first();
        lemma_key_pos_bounds(t, key);
        assert forall|i: int| 0 <= i < key_pos(entries, key) implies (#[trigger] entries[i]).0
            != key by {
            if i > 0 {
                assert(entries[i] == t[i - 1]);
            }
        }
        if has_key(entries, key) {
            assert(entries[key_pos(entries, key) as int] == t[key_pos(t, key) as int]);
        }
    }
}

/// Storing a value leaves every other name where it was.
pub proof fn lemma_put_keeps_positions(
    entries: Seq<Entry>,
    key: Seq<char>,
    value: Seq<char>,
    other: Seq<char>,
)
    ensures
        key_pos(put(entries, key, value), key) == key_pos(entries, key),
        has_key(put(entries, key, value), key),
        other != key ==> has_key(put(entries, key, value), other) == has_key(entries, other),
        other != key && has_key(entries, other) ==> key_pos(put(entries, key, value), other)
            == key_pos(entries, other),
{
    let after = put(entries, key, value);
    lemma_key_pos_bounds(entries, key);
    lemma_key_pos_bounds(entries, other);
    let at = key_pos(entries, key) as int;
    assert forall|i: int| 0 <= i < after.len() implies (#[trigger] after[i]).0 == (if i
        < entries.len() {
        entries[i].0
    } else {
        key
    }) by {}
    assert forall|i: int| 0 <= i < at implies (#[trigger] after[i]).0 != key by {
        assert(entries[i].0 != key);
    }
    lemma_key_pos_is(after, key, at);
    if other != key {
        let n = key_pos(entries, other) as int;
        assert forall|i: int| 0 <= i < n implies (#[trigger] after[i]).0 != other by {
            assert(entries[i].0 != other);
        }
        if n < entries.len() {
            lemma_key_pos_is(after, other, n);
        } else {
            assert forall|i: int| 0 <= i < after.len() implies (#[trigger] after[i]).0
                != other by {
                if i < entries.len() {
                    assert(entries[i].0 != other);
                }
            }
            lemma_key_pos_is(after, other, after.len() as int);
        }
    }
}

/// Storing a value under a name changes the mapping at that name and nowhere
/// else.
pub proof fn lemma_put_inserts(entries: Seq<Entry>, key: Seq<char>, value: Seq<char>)
    ensures
        to_map(put(entries, key, value)) == to_map(entries).insert(key, value),
{
    let after = put(entries, key, value);
    lemma_key_pos_bounds(entries, key);
    assert forall|k: Seq<char>|
        to_map(after).dom().contains(k) == to_map(entries).insert(key, value).dom().contains(
            k,
        ) by {
        lemma_put_keeps_positions(entries, key, value, k);
    }
    assert forall|k: Seq<char>| #[trigger] to_map(after).dom().contains(k) implies to_map(after)[k]
        == to_map(entries).insert(key, value)[k] by {
        lemma_put_keeps_positions(entries, key, value, k);
        lemma_key_pos_bounds(entries, k);
        if k != key {
            assert(after[key_pos(entries, k) as int] == entries[key_pos(entries, k) as int]);
        }
    }
    assert(to_map(after) =~= to_map(entries).insert(key, value));
}

/// Storing a value keeps the names distinct.
pub proof fn lemma_put_keeps_distinct(entries: Seq<Entry>, key: Seq<char>, value: Seq<char>)
    requires
        distinct_keys(entries),
    ensures
        distinct_keys(put(entries, key, value)),
{
    let after = put(entries, key, value);
    lemma_key_pos_bounds(entries, key);
    assert forall|i: int, j: int| 0 <= i < j < after.len() implies (#[trigger] after[i]).0 != (
    #[trigger] after[j]).0 by {
        if j < entries.len() {
            assert(entries[i].0 != entries[j].0);
        } else {
            assert(entries[i].0 != key);
        }
    }
}

/// Headers in the order in which their names were first stored.
#[derive(Debug)]
pub struct Headers {
    entries: Vec<(String, String)>,
}

impl View for Headers {
    type V = Seq<Entry>;

    closed spec fn view(&self) -> Seq<Entry> {
        entries_of(self.entries@)
    }
}

/// The stored pairs as pairs of character sequences.
spec fn entries_of(stored: Seq<(String, String)>) -> Seq<Entry> {
    Seq::new(stored.len(), |i: int| (stored[i].0@, stored[i].1@))
}

impl Headers {
    #[verifier::type_invariant]
    spec fn well_formed(&self) -> bool {
        distinct_keys(self@)
    }

    /// The headers as a mapping from names to values.
    pub open spec fn as_map(&self) -> Map<Seq<char>, Seq<char>> {
        to_map(self@)
    }

    /// No headers.
    pub fn new() -> (h: Headers)
        ensures
            h@ == Seq::<Entry>::empty(),
    {
        let h = Headers { entries: Vec::new() };
        assert(h@ =~= Seq::<Entry>::empty());
        h
    }

    /// The number of headers. No two of them share a name.
    pub fn len(&self) -> (n: usize)
        ensures
            n == self@.len(),
            distinct_keys(self@),
    {
        proof {
            use_type_invariant(self);
        }
        self.entries.len()
    }

    /// Whether there is no header.
    pub fn is_empty(&self) -> (b: bool)
        ensures
            b == (self@.len() == 0),
    {
        self.entries.len() == 0
    }

    /// The name of the header at index `i`.
    pub fn name(&self, i: usize) -> (s: &str)
        requires
            i < self@.len(),
        ensures
            s@ == self@[i as int].0,
    {
        self.entries[i].0.as_str()
    }

    /// The value of the header at index `i`.
    pub fn value(&self, i: usize) -> (s: &str)
        requires
            i < self@.len(),
        ensures
            s@ == self@[i as int].1,
    {
        self.entries[i].1.as_str()
    }

    /// The index of the header named `key`, or the number of headers if
    /// there is none.
    pub fn position(&self, key: &str) -> (i: usize)
        ensures
            i == key_pos(self@, key@),
            i <= self@.len(),
    {
        let mut i: usize = 0;
        while i < self.entries.len() && !same_text(self.entries[i].0.as_str(), key)
            invariant
                i <= self@.len(),
                self@.len() == self.entries@.len(),
                forall|j: int| 0 <= j < i ==> (#[trigger] self@[j]).0 != key@,
            decreases self@.len() - i,
        {
            i += 1;
        }
        proof {
            lemma_key_pos_is(self@, key@, i as int);
        }
        i
    }

    /// Whether a header is named `key`.
    pub fn contains_key(&self, key: &str) -> (b: bool)
        ensures
            b == has_key(self@, key@),
    {
        self.position(key) < self.entries.len()
    }

    /// The value of the header named `key`, if there is one.
    pub fn get(&self, key: &str) -> (r: Option<&str>)
        ensures
            match r {
                Some(v) => lookup(self@, key@) == Some(v@),
                None => lookup(self@, key@).is_none(),
            },
    {
        let i = self.position(key);
        if i < self.entries.len() {
            Some(self.entries[i].1.as_str())
        } else {
            None
        }
    }

    /// Stores `value` under `key`. A header of that name keeps its place and
    /// takes the new value; a new name goes to the end.
    pub fn insert(&mut self, key: String, value: String)
        ensures
            final(self)@ == put(old(self)@, key@, value@),
            final(self).as_map() == old(self).as_map().insert(key@, value@),
    {
        proof {
            use_type_invariant(&*self);
            lemma_put_keeps_distinct(self@, key@, value@);
            lemma_put_inserts(self@, key@, value@);
        }
        let i = self.position(key.as_str());
        let mut entries: Vec<(String, String)> = Vec::new();
        core::mem::swap(&mut self.entries, &mut entries);
        if i < entries.len() {
            entries.set(i, (key, value));
        } else {
            entries.push((key, value));
        }
        assert(entries_of(entries@) =~= put(old(self)@, key@, value@));
        core::mem::swap(&mut self.entries, &mut entries);
    }

    /// Whether every header of `self` stands in `other` with the same value.
    pub fn included_in(&self, other: &Headers) -> (b: bool)
        ensures
            b == to_map(self@).submap_of(to_map(other@)),
    {
        let mut i: usize = 0;
        while i < self.entries.len()
            invariant
                i <= self@.len(),
                self@.len() == self.entries@.len(),
                forall|j: int| 0 <= j < i ==> lookup(other@, (#[trigger] self@[j]).0) == Some(self@[j].1),
            decreases self@.len() - i,
        {
            let found = match other.get(self.entries[i].0.as_str()) {
                Some(v) => same_text(v, self.entries[i].1.as_str()),
                None => false,
            };
            if !found {
                proof {
                    use_type_invariant(self);
                    let k = self@[i as int].0;
                    assert forall|j: int| 0 <= j < i implies (#[trigger] self@[j]).0 != k by {}
                    lemma_key_pos_is(self@, k, i as int);
                    assert(to_map(self@).dom().contains(k));
                    assert(to_map(self@)[k] == self@[i as int].1);
                    assert(!to_map(other@).dom().contains(k) || to_map(other@)[k]
                        != self@[i as int].1);
                }
                return false;
            }
            i += 1;
        }
        proof {
            assert forall|k: Seq<char>| #[trigger] to_map(self@).dom().contains(k) implies to_map(
                other@,
            ).dom().contains(k) && to_map(self@)[k] == to_map(other@)[k] by {
                lemma_key_pos_bounds(self@, k);
                let j = key_pos(self@, k) as int;
                assert(lookup(other@, self@[j].0) == Some(self@[j].1));
            }
        }
        true
    }
}

impl Clone for Headers {
    fn clone(&self) -> (r: Headers)
        ensures
            r@ == self@,
    {
        let mut entries: Vec<(String, String)> = Vec::new();
        let mut i: usize = 0;
        while i < self.entries.len()
            invariant
                i <= self.entries@.len(),
                entries@.len() == i,
                forall|j: int| 0 <= j < i ==> entries@[j] == self.entries@[j],
            decreases self.entries@.len() - i,
        {
            entries.push((self.entries[i].0.clone(), self.entries[i].1.clone()));
            i += 1;
        }
        proof {
            use_type_invariant(self);
            assert(entries_of(entries@) =~= self@);
        }
        Headers { entries }
    }
}

impl PartialEq for Headers {
    /// Whether both hold the same names with the same values, in any order.
    fn eq(&self, other: &Headers) -> (r: bool) {
        let r = self.included_in(other) && other.included_in(self);
        proof {
            if r {
                assert(to_map(self@) =~= to_map(other@));
            }
        }
        r
    }
}

impl PartialEqSpecImpl for Headers {
    open spec fn obeys_eq_spec() -> bool {
        true
    }

    open spec fn eq_spec(&self, other: &Headers) -> bool {
        to_map(self@) == to_map(other@)
    }
}

} // verus!
