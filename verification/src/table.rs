use vstd::prelude::*;

use crate::text::{lemma_lex_less_total, lemma_lex_less_transitive, lex_less, text_eq, text_less};

verus! {

/// The index of the first entry of `s` stored under `key`.
pub open spec fn key_index<T>(s: Seq<(Seq<char>, T)>, key: Seq<char>) -> Option<int>
    decreases s.len(),
{
    if s.len() == 0 {
        None
    } else if s[0].0 == key {
        Some(0)
    } else {
        match key_index(s.drop_first(), key) {
            Some(i) => Some(i + 1),
            None => None,
        }
    }
}

/// The value stored under `key`, if any.
pub open spec fn table_get<T>(s: Seq<(Seq<char>, T)>, key: Seq<char>) -> Option<T> {
    match key_index(s, key) {
        Some(i) => Some(s[i].1),
        None => None,
    }
}

/// How many entries at the front of `s` have a key that is less than `key`.
pub open spec fn place_of<T>(s: Seq<(Seq<char>, T)>, key: Seq<char>) -> int
    decreases s.len(),
{
    if s.len() == 0 || !lex_less(s[0].0, key) {
        0
    } else {
        1 + place_of(s.drop_first(), key)
    }
}

/// `s` with `value` stored under `key`: in place of the entry that had the
/// key, or else behind the entries at the front whose keys are less, which
/// in a table in the order of its keys is the place that keeps that order.
pub open spec fn table_put<T>(s: Seq<(Seq<char>, T)>, key: Seq<char>, value: T) -> Seq<(Seq<char>, T)> {
    match key_index(s, key) {
        Some(i) => s.update(i, (key, value)),
        None => s.insert(place_of(s, key), (key, value)),
    }
}

/// The keys stand in their order, each less than the next.
pub open spec fn ordered_keys<T>(s: Seq<(Seq<char>, T)>) -> bool {
    forall|i: int, j: int| 0 <= i < j < s.len() ==> lex_less(s[i].0, s[j].0)
}

/// The place of a key is within the table; the entries before it have
/// lesser keys, and the entry at it has none.
pub proof fn lemma_place_of<T>(s: Seq<(Seq<char>, T)>, key: Seq<char>)
    ensures
        0 <= place_of(s, key) <= s.len(),
        forall|j: int| 0 <= j < place_of(s, key) ==> lex_less(s[j].0, key),
        place_of(s, key) < s.len() ==> !lex_less(s[place_of(s, key)].0, key),
    decreases s.len(),
{
    if s.len() > 0 && lex_less(s[0].0, key) {
        let rest = s.drop_first();
        lemma_place_of(rest, key);
        assert forall|j: int| 0 <= j < place_of(s, key) implies lex_less(s[j].0, key) by {
            if j > 0 {
                assert(s[j] == rest[j - 1]);
            }
        }
        if place_of(s, key) < s.len() {
            assert(s[place_of(s, key)] == rest[place_of(rest, key)]);
        }
    }
}

/// `s` without the entry stored under `key`.
pub open spec fn table_remove<T>(s: Seq<(Seq<char>, T)>, key: Seq<char>) -> Seq<(Seq<char>, T)> {
    match key_index(s, key) {
        Some(i) => s.remove(i),
        None => s,
    }
}

/// The entries of `s` whose mark in `keep` is set, in their order.
pub open spec fn marked<T>(s: Seq<T>, keep: Seq<bool>) -> Seq<T>
    recommends
        s.len() == keep.len(),
    decreases s.len(),
{
    if s.len() == 0 || keep.len() == 0 {
        Seq::empty()
    } else if keep[0] {
        seq![s[0]] + marked(s.drop_first(), keep.drop_first())
    } else {
        marked(s.drop_first(), keep.drop_first())
    }
}

/// No key occurs twice.
pub open spec fn distinct_keys<T>(s: Seq<(Seq<char>, T)>) -> bool {
    forall|i: int, j: int| 0 <= i < j < s.len() ==> s[i].0 != s[j].0
}

/// `key_index` finds the first entry with the key and nothing else; the
/// place of the key is within the table.
pub proof fn lemma_key_index<T>(s: Seq<(Seq<char>, T)>, key: Seq<char>)
    ensures
        match key_index(s, key) {
            Some(i) => 0 <= i < s.len() && s[i].0 == key && forall|j: int| 0 <= j < i ==> s[j].0 != key,
            None => forall|j: int| 0 <= j < s.len() ==> s[j].0 != key,
        },
        0 <= place_of(s, key) <= s.len(),
    decreases s.len(),
{
    lemma_place_of(s, key);
    if s.len() > 0 && s[0].0 != key {
        let rest = s.drop_first();
        lemma_key_index(rest, key);
        match key_index(rest, key) {
            Some(i) => {
                assert forall|j: int| 0 <= j < i + 1 implies s[j].0 != key by {
                    if j > 0 {
                        assert(s[j] == rest[j - 1]);
                    }
                }
            },
            None => {
                assert forall|j: int| 0 <= j < s.len() implies s[j].0 != key by {
                    if j > 0 {
                        assert(s[j] == rest[j - 1]);
                    }
                }
            },
        }
    }
}

/// An index that holds the key, with none before it, is the one `key_index` gives.
pub proof fn lemma_key_index_is<T>(s: Seq<(Seq<char>, T)>, key: Seq<char>, i: int)
    requires
        0 <= i < s.len(),
        s[i].0 == key,
        forall|j: int| 0 <= j < i ==> s[j].0 != key,
    ensures
        key_index(s, key) == Some(i),
{
    lemma_key_index(s, key);
}

/// Where no entry holds the key, `key_index` gives none.
pub proof fn lemma_key_index_none<T>(s: Seq<(Seq<char>, T)>, key: Seq<char>)
    requires
        forall|j: int| 0 <= j < s.len() ==> s[j].0 != key,
    ensures
        key_index(s, key) is None,
{
    lemma_key_index(s, key);
}

/// What storing under a key that the table lacks does to the entries:
/// those before the place of the key stay, the new entry stands at the
/// place, and those from the place on move up by one.
pub proof fn lemma_put_new<T>(s: Seq<(Seq<char>, T)>, key: Seq<char>, value: T)
    requires
        key_index(s, key) is None,
    ensures
        0 <= place_of(s, key) <= s.len(),
        table_put(s, key, value).len() == s.len() + 1,
        table_put(s, key, value)[place_of(s, key)] == (key, value),
        forall|j: int| 0 <= j < place_of(s, key) ==> table_put(s, key, value)[j] == s[j],
        forall|j: int| place_of(s, key) < j <= s.len() ==> table_put(s, key, value)[j] == s[j - 1],
        forall|j: int| 0 <= j < s.len() ==> s[j].0 != key,
{
    lemma_key_index(s, key);
}

/// What was stored under a key is what the key gives next.
pub proof fn lemma_get_after_put<T>(s: Seq<(Seq<char>, T)>, key: Seq<char>, value: T)
    ensures
        table_get(table_put(s, key, value), key) == Some(value),
{
    lemma_key_index(s, key);
    match key_index(s, key) {
        Some(i) => {
            lemma_key_index_is(table_put(s, key, value), key, i);
        },
        None => {
            lemma_put_new(s, key, value);
            lemma_key_index_is(table_put(s, key, value), key, place_of(s, key));
        },
    }
}

/// Storing under a key keeps the keys distinct, puts the value under the key
/// and leaves what is stored under every other key.
pub proof fn lemma_table_put<T>(s: Seq<(Seq<char>, T)>, key: Seq<char>, value: T, other: Seq<char>)
    requires
        distinct_keys(s),
    ensures
        distinct_keys(table_put(s, key, value)),
        table_get(table_put(s, key, value), key) == Some(value),
        other != key ==> table_get(table_put(s, key, value), other) == table_get(s, other),
        table_put(s, key, value).len() == if key_index(s, key) is Some {
            s.len()
        } else {
            s.len() + 1
        },
{
    let t = table_put(s, key, value);
    lemma_key_index(s, key);
    lemma_key_index(s, other);
    lemma_get_after_put(s, key, value);
    match key_index(s, key) {
        Some(i) => {
            if other != key {
                match key_index(s, other) {
                    Some(k) => {
                        lemma_key_index_is(t, other, k);
                    },
                    None => {
                        lemma_key_index_none(t, other);
                    },
                }
            }
        },
        None => {
            lemma_put_new(s, key, value);
            let p = place_of(s, key);
            assert forall|a: int, b: int| 0 <= a < b < t.len() implies t[a].0 != t[b].0 by {
                let a0 = if a < p { a } else { a - 1 };
                let b0 = if b < p { b } else { b - 1 };
                if a != p && b != p {
                    assert(t[a] == s[a0]);
                    assert(t[b] == s[b0]);
                } else if a == p {
                    assert(t[b] == s[b0]);
                } else {
                    assert(t[a] == s[a0]);
                }
            }
            if other != key {
                match key_index(s, other) {
                    Some(k) => {
                        let k1 = if k < p { k } else { k + 1 };
                        assert(t[k1] == s[k]);
                        assert forall|j: int| 0 <= j < k1 implies t[j].0 != other by {
                            if j < p {
                                assert(t[j] == s[j]);
                            } else if j > p {
                                assert(t[j] == s[j - 1]);
                            }
                        }
                        lemma_key_index_is(t, other, k1);
                    },
                    None => {
                        assert forall|j: int| 0 <= j < t.len() implies t[j].0 != other by {
                            if j < p {
                                assert(t[j] == s[j]);
                            } else if j > p {
                                assert(t[j] == s[j - 1]);
                            }
                        }
                        lemma_key_index_none(t, other);
                    },
                }
            }
        },
    }
}

/// Storing under a key keeps the keys in their order.
pub proof fn lemma_put_keeps_ordered<T>(s: Seq<(Seq<char>, T)>, key: Seq<char>, value: T)
    requires
        ordered_keys(s),
    ensures
        ordered_keys(table_put(s, key, value)),
{
    let t = table_put(s, key, value);
    lemma_key_index(s, key);
    match key_index(s, key) {
        Some(i) => {
            assert forall|a: int, b: int| 0 <= a < b < t.len() implies lex_less(t[a].0, t[b].0) by {
                assert(t[a].0 == s[a].0);
                assert(t[b].0 == s[b].0);
            }
        },
        None => {
            lemma_put_new(s, key, value);
            lemma_place_of(s, key);
            let p = place_of(s, key);
            assert forall|a: int, b: int| 0 <= a < b < t.len() implies lex_less(t[a].0, t[b].0) by {
                let a0 = if a < p { a } else { a - 1 };
                let b0 = if b < p { b } else { b - 1 };
                if b == p {
                    assert(t[a] == s[a]);
                } else if a == p {
                    assert(t[b] == s[b0]);
                    assert(s[p].0 != key);
                    lemma_lex_less_total(s[p].0, key);
                    if b0 > p {
                        lemma_lex_less_transitive(key, s[p].0, s[b0].0);
                    }
                } else {
                    assert(t[a] == s[a0]);
                    assert(t[b] == s[b0]);
                }
            }
        },
    }
}

/// Removing a key keeps the keys in their order.
pub proof fn lemma_remove_keeps_ordered<T>(s: Seq<(Seq<char>, T)>, key: Seq<char>)
    requires
        ordered_keys(s),
    ensures
        ordered_keys(table_remove(s, key)),
{
    let t = table_remove(s, key);
    lemma_key_index(s, key);
    match key_index(s, key) {
        Some(i) => {
            assert forall|a: int, b: int| 0 <= a < b < t.len() implies lex_less(t[a].0, t[b].0) by {
                let a0 = if a < i { a } else { a + 1 };
                let b0 = if b < i { b } else { b + 1 };
                assert(t[a] == s[a0]);
                assert(t[b] == s[b0]);
            }
        },
        None => {},
    }
}

/// Removing a key keeps the keys distinct, leaves nothing under the key and
/// leaves what is stored under every other key.
pub proof fn lemma_table_remove<T>(s: Seq<(Seq<char>, T)>, key: Seq<char>, other: Seq<char>)
    requires
        distinct_keys(s),
    ensures
        distinct_keys(table_remove(s, key)),
        table_get(table_remove(s, key), key) is None,
        other != key ==> table_get(table_remove(s, key), other) == table_get(s, other),
{
    let t = table_remove(s, key);
    lemma_key_index(s, key);
    lemma_key_index(s, other);
    match key_index(s, key) {
        Some(i) => {
            assert forall|j: int| 0 <= j < t.len() implies t[j].0 != key by {
                if j < i {
                    assert(t[j] == s[j]);
                } else {
                    assert(t[j] == s[j + 1]);
                }
            }
            lemma_key_index_none(t, key);
            if other != key {
                match key_index(s, other) {
                    Some(k) => {
                        if k < i {
                            lemma_key_index_is(t, other, k);
                        } else {
                            lemma_key_index_is(t, other, k - 1);
                        }
                    },
                    None => {
                        lemma_key_index_none(t, other);
                    },
                }
            }
        },
        None => {},
    }
}

/// A filter keeps the keys in their order.
pub proof fn lemma_filter_keeps_ordered<T>(s: Seq<(Seq<char>, T)>, keep: spec_fn((Seq<char>, T)) -> bool)
    requires
        ordered_keys(s),
    ensures
        ordered_keys(s.filter(keep)),
    decreases s.len(),
{
    broadcast use vstd::seq::Seq::lemma_filter_contains_rev;

    reveal(Seq::filter);
    if s.len() > 0 {
        let rest = s.drop_last();
        assert forall|i: int, j: int| 0 <= i < j < rest.len() implies lex_less(rest[i].0, rest[j].0) by {
            assert(rest[i] == s[i]);
            assert(rest[j] == s[j]);
        }
        lemma_filter_keeps_ordered(rest, keep);
        let kept = rest.filter(keep);
        let out = s.filter(keep);
        assert forall|i: int, j: int| 0 <= i < j < out.len() implies lex_less(out[i].0, out[j].0) by {
            assert(out[i] == kept[i]);
            if j < kept.len() {
                assert(out[j] == kept[j]);
            } else {
                assert(out[j] == s[s.len() - 1]);
                assert(kept.contains(kept[i]));
                assert(rest.contains(kept[i]));
                let k = choose|k: int| 0 <= k < rest.len() && rest[k] == kept[i];
                assert(rest[k] == s[k]);
            }
        }
    }
}

/// Every entry is stored under the key that `key_of` gives for its value.
pub open spec fn keyed_by<T>(s: Seq<(Seq<char>, T)>, key_of: spec_fn(T) -> Seq<char>) -> bool {
    forall|i: int| 0 <= i < s.len() ==> (#[trigger] s[i]).0 == key_of(s[i].1)
}

/// Storing a value under its own key leaves every entry under its own key.
pub proof fn lemma_put_keeps_keyed<T>(s: Seq<(Seq<char>, T)>, key_of: spec_fn(T) -> Seq<char>, value: T)
    requires
        keyed_by(s, key_of),
    ensures
        keyed_by(table_put(s, key_of(value), value), key_of),
{
    let key = key_of(value);
    let t = table_put(s, key, value);
    lemma_key_index(s, key);
    if key_index(s, key) is None {
        lemma_put_new(s, key, value);
        let p = place_of(s, key);
        assert forall|j: int| 0 <= j < t.len() implies (#[trigger] t[j]).0 == key_of(t[j].1) by {
            if j < p {
                assert(t[j] == s[j]);
            } else if j > p {
                assert(t[j] == s[j - 1]);
            }
        }
    }
}

/// Removing a key leaves every entry under its own key.
pub proof fn lemma_remove_keeps_keyed<T>(s: Seq<(Seq<char>, T)>, key_of: spec_fn(T) -> Seq<char>, key: Seq<char>)
    requires
        keyed_by(s, key_of),
    ensures
        keyed_by(table_remove(s, key), key_of),
{
    lemma_key_index(s, key);
    match key_index(s, key) {
        Some(i) => {
            let t = table_remove(s, key);
            assert forall|j: int| 0 <= j < t.len() implies (#[trigger] t[j]).0 == key_of(t[j].1) by {
                if j < i {
                    assert(t[j] == s[j]);
                } else {
                    assert(t[j] == s[j + 1]);
                }
            }
        },
        None => {},
    }
}

/// A filter leaves every entry under its own key.
pub proof fn lemma_filter_keeps_keyed<T>(
    s: Seq<(Seq<char>, T)>,
    key_of: spec_fn(T) -> Seq<char>,
    keep: spec_fn((Seq<char>, T)) -> bool,
)
    requires
        keyed_by(s, key_of),
    ensures
        keyed_by(s.filter(keep), key_of),
{
    broadcast use vstd::seq::Seq::lemma_filter_contains_rev;

    let t = s.filter(keep);
    assert forall|j: int| 0 <= j < t.len() implies (#[trigger] t[j]).0 == key_of(t[j].1) by {
        assert(t.contains(t[j]));
        assert(s.contains(t[j]));
        let k = choose|k: int| 0 <= k < s.len() && s[k] == t[j];
        assert(s[k].0 == key_of(s[k].1));
    }
}

/// Where the marks are what `keep` says of each entry, `marked` is the filter by `keep`.
pub proof fn lemma_marked_is_filter<T>(s: Seq<T>, marks: Seq<bool>, keep: spec_fn(T) -> bool)
    requires
        s.len() == marks.len(),
        forall|i: int| 0 <= i < s.len() ==> marks[i] == keep(#[trigger] s[i]),
    ensures
        marked(s, marks) == s.filter(keep),
    decreases s.len(),
{
    if s.len() == 0 {
        assert(s.filter(keep) =~= Seq::<T>::empty()) by {
            reveal(Seq::filter);
        }
    } else {
        let rest = s.drop_first();
        let rest_marks = marks.drop_first();
        assert forall|i: int| 0 <= i < rest.len() implies rest_marks[i] == keep(#[trigger] rest[i]) by {
            assert(rest[i] == s[i + 1]);
        }
        lemma_marked_is_filter(rest, rest_marks, keep);
        rest.lemma_filter_prepend(s[0], keep);
        assert(seq![s[0]] + rest =~= s);
    }
}

/// What a table holds must be copied with its model kept.
pub trait Record: DeepView + Sized {
    fn copy_record(&self) -> (copy: Self)
        ensures
            copy.deep_view() == self.deep_view(),
    ;
}

/// A small keyed collection: one entry per key, the entries in the order
/// of their keys.
#[derive(Debug, PartialEq, Eq)]
pub struct Table<V> {
    pub entries: Vec<(String, V)>,
}

impl<V: DeepView> View for Table<V> {
    type V = Seq<(Seq<char>, V::V)>;

    open spec fn view(&self) -> Seq<(Seq<char>, V::V)> {
        Seq::new(self.entries@.len(), |i: int| (self.entries@[i].0@, self.entries@[i].1.deep_view()))
    }
}

impl<V: DeepView> Table<V> {
    /// No key occurs twice, and the keys stand in their order.
    pub open spec fn wf(&self) -> bool {
        distinct_keys(self@) && ordered_keys(self@)
    }

    /// A table without entries.
    pub fn new() -> (table: Self)
        ensures
            table@ == Seq::<(Seq<char>, V::V)>::empty(),
            table.wf(),
    {
        let table = Table { entries: Vec::new() };
        assert(table@ =~= Seq::<(Seq<char>, V::V)>::empty());
        table
    }

    /// How many entries the table holds.
    pub fn len(&self) -> (n: usize)
        ensures
            n == self@.len(),
    {
        self.entries.len()
    }

    /// Whether the table holds no entry.
    pub fn is_empty(&self) -> (empty: bool)
        ensures
            empty == (self@.len() == 0),
    {
        self.entries.len() == 0
    }

    /// The place of the entry stored under `key`.
    pub fn position(&self, key: &str) -> (place: Option<usize>)
        ensures
            match place {
                Some(i) => key_index(self@, key@) == Some(i as int) && i < self@.len(),
                None => key_index(self@, key@) is None,
            },
    {
        let mut i: usize = 0;
        while i < self.entries.len()
            invariant
                i <= self.entries.len(),
                forall|j: int| 0 <= j < i ==> self@[j].0 != key@,
            decreases self.entries.len() - i,
        {
            if text_eq(self.entries[i].0.as_str(), key) {
                proof {
                    lemma_key_index_is(self@, key@, i as int);
                }
                return Some(i);
            }
            i += 1;
        }
        proof {
            lemma_key_index_none(self@, key@);
        }
        None
    }

    /// Whether an entry is stored under `key`.
    pub fn contains_key(&self, key: &str) -> (found: bool)
        ensures
            found == (table_get(self@, key@) is Some),
    {
        self.position(key).is_some()
    }

    /// The value stored under `key`.
    pub fn get(&self, key: &str) -> (value: Option<&V>)
        ensures
            match value {
                Some(v) => table_get(self@, key@) == Some(v.deep_view()),
                None => table_get(self@, key@) is None,
            },
    {
        match self.position(key) {
            Some(i) => Some(&self.entries[i].1),
            None => None,
        }
    }

    /// The key of the entry at place `i`.
    pub fn key_at(&self, i: usize) -> (key: &String)
        requires
            i < self@.len(),
        ensures
            key@ == self@[i as int].0,
    {
        &self.entries[i].0
    }

    /// The value of the entry at place `i`.
    pub fn value_at(&self, i: usize) -> (value: &V)
        requires
            i < self@.len(),
        ensures
            value.deep_view() == self@[i as int].1,
    {
        &self.entries[i].1
    }

    /// Stores `value` under `key`, in place of what the key had.
    pub fn put(&mut self, key: String, value: V)
        ensures
            final(self)@ == table_put(old(self)@, key@, value.deep_view()),
            old(self).wf() ==> final(self).wf(),
    {
        let ghost before = self@;
        proof {
            lemma_key_index(before, key@);
        }
        match self.position(key.as_str()) {
            Some(i) => {
                self.entries.remove(i);
                self.entries.insert(i, (key, value));
                assert(self@ =~= before.update(i as int, (key@, value.deep_view())));
            },
            None => {
                let mut place: usize = 0;
                assert(before.skip(0) =~= before);
                while place < self.entries.len() && text_less(self.entries[place].0.as_str(), key.as_str())
                    invariant
                        place <= self.entries.len(),
                        self@ == before,
                        place_of(before, key@) == place + place_of(before.skip(place as int), key@),
                    decreases self.entries.len() - place,
                {
                    proof {
                        assert(before.skip(place as int)[0] == before[place as int]);
                        assert(before.skip(place as int).drop_first() =~= before.skip(place + 1));
                    }
                    place += 1;
                }
                proof {
                    if place < self.entries.len() {
                        assert(before.skip(place as int)[0] == before[place as int]);
                    }
                }
                self.entries.insert(place, (key, value));
                assert(self@ =~= before.insert(place as int, (key@, value.deep_view())));
            },
        }
        proof {
            if distinct_keys(before) {
                lemma_table_put(before, key@, value.deep_view(), key@);
            }
            if ordered_keys(before) {
                lemma_put_keeps_ordered(before, key@, value.deep_view());
            }
        }
    }

    /// Takes out the entry stored under `key`.
    pub fn remove(&mut self, key: &str)
        ensures
            final(self)@ == table_remove(old(self)@, key@),
            old(self).wf() ==> final(self).wf(),
    {
        let ghost before = self@;
        match self.position(key) {
            Some(i) => {
                self.entries.remove(i);
                assert(self@ =~= before.remove(i as int));
            },
            None => {},
        }
        proof {
            if distinct_keys(before) {
                lemma_table_remove(before, key@, key@);
            }
            if ordered_keys(before) {
                lemma_remove_keeps_ordered(before, key@);
            }
        }
    }

    /// Keeps the entries whose mark is set.
    pub fn retain_marked(&mut self, keep: &Vec<bool>)
        requires
            keep@.len() == old(self)@.len(),
        ensures
            final(self)@ == marked(old(self)@, keep@),
            old(self).wf() ==> final(self).wf(),
    {
        let ghost before = self@;
        let mut i: usize = self.entries.len();
        assert(before.take(i as int) =~= before);
        assert(before.skip(i as int).len() == 0);
        assert(self@ =~= before.take(i as int) + marked(before.skip(i as int), keep@.skip(i as int)));
        while i > 0
            invariant
                i <= before.len(),
                keep@.len() == before.len(),
                self@ == before.take(i as int) + marked(before.skip(i as int), keep@.skip(i as int)),
                distinct_keys(before) ==> distinct_keys(self@),
                ordered_keys(before) ==> ordered_keys(self@),
            decreases i,
        {
            let ghost tail = marked(before.skip(i as int), keep@.skip(i as int));
            i -= 1;
            proof {
                assert(before.skip(i as int).drop_first() =~= before.skip(i + 1));
                assert(keep@.skip(i as int).drop_first() =~= keep@.skip(i + 1));
                assert(before.skip(i as int)[0] == before[i as int]);
                assert(keep@.skip(i as int)[0] == keep@[i as int]);
                assert(before.take(i + 1) =~= before.take(i as int).push(before[i as int]));
            }
            let ghost current = self@;
            assert(current.len() == self.entries@.len());
            assert(current.len() >= i + 1);
            if !keep[i] {
                self.entries.remove(i);
                assert(self@ =~= current.remove(i as int));
                assert(self@ =~= before.take(i as int) + tail);
                assert(distinct_keys(current) ==> distinct_keys(self@)) by {
                    if distinct_keys(current) {
                        assert forall|a: int, b: int| 0 <= a < b < self@.len() implies self@[a].0 != self@[b].0 by {
                            let a0 = if a < i { a } else { a + 1 };
                            let b0 = if b < i { b } else { b + 1 };
                            assert(self@[a] == current[a0]);
                            assert(self@[b] == current[b0]);
                        }
                    }
                }
                assert(ordered_keys(current) ==> ordered_keys(self@)) by {
                    if ordered_keys(current) {
                        assert forall|a: int, b: int| 0 <= a < b < self@.len() implies lex_less(
                            self@[a].0,
                            self@[b].0,
                        ) by {
                            let a0 = if a < i { a } else { a + 1 };
                            let b0 = if b < i { b } else { b + 1 };
                            assert(self@[a] == current[a0]);
                            assert(self@[b] == current[b0]);
                        }
                    }
                }
            } else {
                assert(self@ =~= before.take(i as int) + (seq![before[i as int]] + tail));
            }
        }
        assert(before.skip(0) =~= before);
        assert(keep@.skip(0) =~= keep@);
        assert(before.take(0) + marked(before, keep@) =~= marked(before, keep@));
    }
}

impl<V: Record> Clone for Table<V> {
    fn clone(&self) -> (copy: Self)
        ensures
            copy@ == self@,
    {
        let mut entries: Vec<(String, V)> = Vec::new();
        let mut i: usize = 0;
        while i < self.entries.len()
            invariant
                i <= self.entries.len(),
                entries.len() == i,
                forall|j: int| 0 <= j < i ==> entries@[j].0@ == self.entries@[j].0@ && entries@[j].1.deep_view() == self.entries@[j].1.deep_view(),
            decreases self.entries.len() - i,
        {
            entries.push((self.entries[i].0.clone(), self.entries[i].1.copy_record()));
            i += 1;
        }
        let copy = Table { entries };
        assert(copy@ =~= self@);
        copy
    }
}

impl<V: DeepView> Default for Table<V> {
    fn default() -> (table: Self)
        ensures
            table@ == Seq::<(Seq<char>, V::V)>::empty(),
    {
        Table::new()
    }
}

} // verus!
