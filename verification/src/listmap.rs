//! An insertion-ordered map over a vector of entries.
//!
//! The provider hands out keyed collections: observed permissions by name,
//! branch protections by pattern, memberships by user id. The diff engine
//! strikes entries off as it meets them and then walks what is left, so the
//! order in which entries come out must be fixed: it is the order of insertion.

use vstd::prelude::*;

verus! {

/// A key that can be compared in executable code, in agreement with its model.
pub trait MapKey: DeepView + Sized {
    fn same_key(&self, other: &Self) -> (same: bool)
        ensures
            same == (self.deep_view() == other.deep_view()),
    ;
}

impl MapKey for String {
    fn same_key(&self, other: &Self) -> (same: bool) {
        *self == *other
    }
}

impl MapKey for (String, String) {
    fn same_key(&self, other: &Self) -> (same: bool) {
        self.0 == other.0 && self.1 == other.1
    }
}

impl MapKey for u64 {
    fn same_key(&self, other: &Self) -> (same: bool) {
        *self == *other
    }
}

/// The keys of an association list, in order.
pub open spec fn keys<A, B>(s: Seq<(A, B)>) -> Seq<A> {
    s.map_values(|e: (A, B)| e.0)
}

/// No key occurs twice.
pub open spec fn distinct_keys<A, B>(s: Seq<(A, B)>) -> bool {
    forall|i: int, j: int| 0 <= i < j < s.len() ==> (#[trigger] s[i]).0 != (#[trigger] s[j]).0
}

/// Whether `i` is the first index of `s` that holds `key`.
pub open spec fn first_at<A, B>(s: Seq<(A, B)>, key: A, i: int) -> bool {
    &&& 0 <= i < s.len()
    &&& s[i].0 == key
    &&& forall|j: int| 0 <= j < i ==> (#[trigger] s[j]).0 != key
}

/// The first index that holds `key`, if any does.
pub open spec fn position<A, B>(s: Seq<(A, B)>, key: A) -> Option<int> {
    if exists|i: int| first_at(s, key, i) {
        Some(choose|i: int| first_at(s, key, i))
    } else {
        None
    }
}

/// The value stored under `key`, if any.
pub open spec fn lookup<A, B>(s: Seq<(A, B)>, key: A) -> Option<B> {
    match position(s, key) {
        Some(i) => Some(s[i].1),
        None => None,
    }
}

/// Whether `key` occurs in `s`.
pub open spec fn has_key<A, B>(s: Seq<(A, B)>, key: A) -> bool {
    position(s, key) is Some
}

/// `s` without the entry stored under `key`.
pub open spec fn without<A, B>(s: Seq<(A, B)>, key: A) -> Seq<(A, B)> {
    match position(s, key) {
        Some(i) => s.remove(i),
        None => s,
    }
}

/// `s` with `value` stored under `key`: in place where the key occurs, at the end where it does not.
pub open spec fn with<A, B>(s: Seq<(A, B)>, key: A, value: B) -> Seq<(A, B)> {
    match position(s, key) {
        Some(i) => s.update(i, (key, value)),
        None => s.push((key, value)),
    }
}

/// `s` without the entries stored under any of `gone`.
pub open spec fn left_over<A, B>(s: Seq<(A, B)>, gone: Seq<A>) -> Seq<(A, B)>
    decreases gone.len(),
{
    if gone.len() == 0 {
        s
    } else {
        without(left_over(s, gone.drop_last()), gone.last())
    }
}

/// Striking one more key off.
pub proof fn lemma_left_over_push<A, B>(s: Seq<(A, B)>, gone: Seq<A>, key: A)
    ensures
        left_over(s, gone.push(key)) == without(left_over(s, gone), key),
{
    assert(gone.push(key).drop_last() =~= gone);
}

/// The association list that holds the pairs of `pairs`, each stored in turn:
/// of two pairs with one key the later one wins.
pub open spec fn collected<A, B>(pairs: Seq<(A, B)>) -> Seq<(A, B)>
    decreases pairs.len(),
{
    if pairs.len() == 0 {
        Seq::empty()
    } else {
        with(collected(pairs.drop_last()), pairs.last().0, pairs.last().1)
    }
}

/// The elements of `s`, each once, in the order in which they first occur.
pub open spec fn distinct<A>(s: Seq<A>) -> Seq<A>
    decreases s.len(),
{
    if s.len() == 0 {
        Seq::empty()
    } else if distinct(s.drop_last()).contains(s.last()) {
        distinct(s.drop_last())
    } else {
        distinct(s.drop_last()).push(s.last())
    }
}

/// An index that holds `key` with no earlier one doing so is its position.
pub proof fn lemma_position_found<A, B>(s: Seq<(A, B)>, key: A, i: int)
    requires
        first_at(s, key, i),
    ensures
        position(s, key) == Some(i),
{
    let c = choose|c: int| first_at(s, key, c);
    assert(first_at(s, key, c));
    if c < i {
        assert(s[c].0 != key);
    }
    if i < c {
        assert(s[i].0 != key);
    }
}

/// A key that no index holds has no position.
pub proof fn lemma_position_absent<A, B>(s: Seq<(A, B)>, key: A)
    requires
        forall|j: int| 0 <= j < s.len() ==> (#[trigger] s[j]).0 != key,
    ensures
        position(s, key) is None,
{
    if exists|i: int| first_at(s, key, i) {
        let c = choose|c: int| first_at(s, key, c);
        assert(s[c].0 != key);
    }
}

/// A key that is none of the keys has no position.
pub proof fn lemma_absent_key<A, B>(s: Seq<(A, B)>, key: A)
    requires
        !keys(s).contains(key),
    ensures
        position(s, key) is None,
{
    assert forall|j: int| 0 <= j < s.len() implies (#[trigger] s[j]).0 != key by {
        assert(keys(s)[j] == s[j].0);
    }
    lemma_position_absent(s, key);
}

/// What `position` promises of the index it returns.
pub proof fn lemma_position_is_first<A, B>(s: Seq<(A, B)>, key: A)
    ensures
        match position(s, key) {
            Some(i) => first_at(s, key, i),
            None => forall|j: int| 0 <= j < s.len() ==> (#[trigger] s[j]).0 != key,
        },
{
    if exists|i: int| first_at(s, key, i) {
    } else {
        assert forall|j: int| 0 <= j < s.len() implies (#[trigger] s[j]).0 != key by {
            if s[j].0 == key {
                lemma_some_first(s, key, j);
            }
        }
    }
}

/// If some index up to `i` holds `key`, a first one exists.
proof fn lemma_some_first<A, B>(s: Seq<(A, B)>, key: A, i: int)
    requires
        0 <= i < s.len(),
        s[i].0 == key,
    ensures
        exists|c: int| first_at(s, key, c),
    decreases i,
{
    if forall|j: int| 0 <= j < i ==> (#[trigger] s[j]).0 != key {
        assert(first_at(s, key, i));
    } else {
        let j = choose|j: int| 0 <= j < i && (#[trigger] s[j]).0 == key;
        lemma_some_first(s, key, j);
    }
}

/// Removing a key keeps the others distinct.
pub proof fn lemma_without_distinct<A, B>(s: Seq<(A, B)>, key: A)
    requires
        distinct_keys(s),
    ensures
        distinct_keys(without(s, key)),
        !has_key(without(s, key), key),
        forall|other: A| other != key ==> lookup(without(s, key), other) == lookup(s, other),
{
    lemma_position_is_first(s, key);
    let t = without(s, key);
    match position(s, key) {
        Some(i) => {
            assert forall|a: int, b: int| 0 <= a < b < t.len() implies (#[trigger] t[a]).0 != (
            #[trigger] t[b]).0 by {
                let a0 = if a < i { a } else { a + 1 };
                let b0 = if b < i { b } else { b + 1 };
                assert(t[a] == s[a0] && t[b] == s[b0]);
            }
            assert forall|j: int| 0 <= j < t.len() implies (#[trigger] t[j]).0 != key by {
                let j0 = if j < i { j } else { j + 1 };
                assert(t[j] == s[j0]);
                if j0 > i {
                    assert(s[i].0 != s[j0].0);
                }
            }
            lemma_position_absent(t, key);
            assert forall|other: A| other != key implies lookup(t, other) == lookup(s, other) by {
                lemma_position_is_first(s, other);
                match position(s, other) {
                    Some(p) => {
                        let q = if p < i { p } else { p - 1 };
                        assert(t[q] == s[p]);
                        assert forall|j: int| 0 <= j < q implies (#[trigger] t[j]).0 != other by {
                            let j0 = if j < i { j } else { j + 1 };
                            assert(t[j] == s[j0]);
                        }
                        lemma_position_found(t, other, q);
                    },
                    None => {
                        assert forall|j: int| 0 <= j < t.len() implies (#[trigger] t[j]).0
                            != other by {
                            let j0 = if j < i { j } else { j + 1 };
                            assert(t[j] == s[j0]);
                        }
                        lemma_position_absent(t, other);
                    },
                }
            }
        },
        None => {},
    }
}

/// Every entry is found under its key.
pub proof fn lemma_entry_has_key<A, B>(s: Seq<(A, B)>, i: int)
    requires
        0 <= i < s.len(),
    ensures
        has_key(s, s[i].0),
        distinct_keys(s) ==> lookup(s, s[i].0) == Some(s[i].1),
{
    lemma_some_first(s, s[i].0, i);
    lemma_position_is_first(s, s[i].0);
    if distinct_keys(s) {
        let p = position(s, s[i].0)->0;
        if p != i {
            if p < i {
                assert(s[p].0 != s[i].0);
            } else {
                assert(s[i].0 != s[p].0);
            }
        }
    }
}

/// What is stored under a key is found under it, and every other key is
/// left as it was.
pub proof fn lemma_with_lookup<A, B>(s: Seq<(A, B)>, key: A, value: B, other: A)
    ensures
        lookup(with(s, key, value), other) == (if other == key {
            Some(value)
        } else {
            lookup(s, other)
        }),
        has_key(with(s, key, value), other) == (other == key || has_key(s, other)),
        distinct_keys(s) ==> distinct_keys(with(s, key, value)),
{
    let t = with(s, key, value);
    lemma_position_is_first(s, key);
    lemma_position_is_first(s, other);
    lemma_position_is_first(t, other);
    let at = match position(s, key) {
        Some(i) => i,
        None => s.len() as int,
    };
    assert(t[at] == (key, value));
    assert forall|j: int| 0 <= j < t.len() && j != at implies #[trigger] t[j] == s[j] by {}
    if other == key {
        assert forall|j: int| 0 <= j < at implies (#[trigger] t[j]).0 != key by {
            assert(t[j] == s[j]);
        }
        lemma_position_found(t, key, at);
    } else {
        match position(s, other) {
            Some(p) => {
                assert(t[p] == s[p]);
                assert forall|j: int| 0 <= j < p implies (#[trigger] t[j]).0 != other by {
                    if j != at {
                        assert(t[j] == s[j]);
                    }
                }
                lemma_position_found(t, other, p);
            },
            None => {
                assert forall|j: int| 0 <= j < t.len() implies (#[trigger] t[j]).0 != other by {
                    if j != at {
                        assert(t[j] == s[j]);
                    }
                }
                lemma_position_absent(t, other);
            },
        }
    }
    if distinct_keys(s) {
        assert forall|a: int, b: int| 0 <= a < b < t.len() implies (#[trigger] t[a]).0 != (
        #[trigger] t[b]).0 by {
            if a != at && b != at {
                assert(t[a] == s[a] && t[b] == s[b]);
            } else if a == at {
                assert(t[b] == s[b]);
                if at < s.len() {
                    assert(s[at].0 != s[b].0);
                }
            } else {
                assert(t[a] == s[a]);
                if at < s.len() {
                    assert(s[a].0 != s[at].0);
                } else {
                    assert(s[a].0 != key);
                }
            }
        }
    }
}

/// What is left over holds each key at most once: none of the keys that
/// were struck off, and every other key with what it held.
pub proof fn lemma_left_over_lookup<A, B>(s: Seq<(A, B)>, gone: Seq<A>, key: A)
    requires
        distinct_keys(s),
    ensures
        distinct_keys(left_over(s, gone)),
        lookup(left_over(s, gone), key) == (if gone.contains(key) {
            None
        } else {
            lookup(s, key)
        }),
    decreases gone.len(),
{
    if gone.len() > 0 {
        let earlier = gone.drop_last();
        lemma_left_over_lookup(s, earlier, key);
        lemma_without_distinct(left_over(s, earlier), gone.last());
        if gone.contains(key) {
            let i = choose|i: int| 0 <= i < gone.len() && gone[i] == key;
            if i < earlier.len() {
                assert(earlier[i] == key);
            }
        }
        if earlier.contains(key) {
            let i = choose|i: int| 0 <= i < earlier.len() && earlier[i] == key;
            assert(gone[i] == key);
        }
        if key == gone.last() {
            assert(gone[gone.len() - 1] == key);
        }
    }
}

/// A key is among the keys exactly if it occurs.
pub proof fn lemma_keys_contain<A, B>(s: Seq<(A, B)>, key: A)
    ensures
        keys(s).contains(key) == has_key(s, key),
{
    lemma_position_is_first(s, key);
    if keys(s).contains(key) {
        let i = choose|i: int| 0 <= i < keys(s).len() && keys(s)[i] == key;
        assert(s[i].0 == key);
        lemma_entry_has_key(s, i);
    }
    if has_key(s, key) {
        let p = position(s, key)->0;
        assert(keys(s)[p] == key);
    }
}

/// The last entry of a list without double keys: its key does not occur
/// before it, and the list is the earlier entries with the last one stored.
pub proof fn lemma_distinct_last<A, B>(s: Seq<(A, B)>)
    requires
        distinct_keys(s),
        s.len() > 0,
    ensures
        distinct_keys(s.drop_last()),
        !has_key(s.drop_last(), s.last().0),
        s == with(s.drop_last(), s.last().0, s.last().1),
{
    let earlier = s.drop_last();
    assert forall|i: int, j: int| 0 <= i < j < earlier.len() implies (#[trigger] earlier[i]).0 != (
    #[trigger] earlier[j]).0 by {
        assert(earlier[i] == s[i] && earlier[j] == s[j]);
    }
    assert forall|j: int| 0 <= j < earlier.len() implies (#[trigger] earlier[j]).0 != s.last().0 by {
        assert(earlier[j] == s[j]);
        assert(s[j].0 != s[s.len() - 1].0);
    }
    lemma_position_absent(earlier, s.last().0);
    assert(s =~= earlier.push(s.last()));
}

/// An element is among the distinct elements of a list exactly if it is in the list.
pub proof fn lemma_distinct_contains<A>(s: Seq<A>, x: A)
    ensures
        distinct(s).contains(x) == s.contains(x),
    decreases s.len(),
{
    if s.len() > 0 {
        let earlier = s.drop_last();
        lemma_distinct_contains(earlier, x);
        lemma_distinct_contains(earlier, s.last());
        let d = distinct(earlier);
        if s.contains(x) {
            let i = choose|i: int| 0 <= i < s.len() && s[i] == x;
            if i < earlier.len() {
                assert(earlier[i] == x);
            }
        }
        if earlier.contains(x) {
            let i = choose|i: int| 0 <= i < earlier.len() && earlier[i] == x;
            assert(s[i] == x);
        }
        if x == s.last() {
            assert(s[s.len() - 1] == x);
        }
        if d.contains(x) {
            let i = choose|i: int| 0 <= i < d.len() && d[i] == x;
            if !d.contains(s.last()) {
                assert(distinct(s)[i] == x);
            }
        }
        if distinct(s).contains(x) && !d.contains(s.last()) {
            let i = choose|i: int| 0 <= i < distinct(s).len() && distinct(s)[i] == x;
            if i < d.len() {
                assert(d[i] == x);
            }
        }
        if !d.contains(s.last()) {
            assert(distinct(s)[d.len() as int] == s.last());
        }
    }
}

/// Where `key` stands once the entry of another key is struck off, and
/// where that other key stands once something is stored under `key`.
pub proof fn lemma_positions_apart<A, B>(s: Seq<(A, B)>, key: A, value: B, gone: A)
    requires
        key != gone,
    ensures
        position(with(s, key, value), gone) == position(s, gone),
        position(without(s, gone), key) == match (position(s, key), position(s, gone)) {
            (Some(p), Some(q)) => if p < q {
                Some(p)
            } else {
                Some(p - 1)
            },
            (Some(p), None) => Some(p),
            (None, _) => None,
        },
{
    let u = with(s, key, value);
    let t = without(s, gone);
    lemma_position_is_first(s, key);
    lemma_position_is_first(s, gone);
    let at = match position(s, key) {
        Some(i) => i,
        None => s.len() as int,
    };
    assert(u[at] == (key, value));
    assert forall|j: int| 0 <= j < u.len() && j != at implies #[trigger] u[j] == s[j] by {}
    match position(s, gone) {
        Some(q) => {
            assert(u[q] == s[q]);
            assert forall|j: int| 0 <= j < q implies (#[trigger] u[j]).0 != gone by {
                if j != at {
                    assert(u[j] == s[j]);
                }
            }
            lemma_position_found(u, gone, q);
            match position(s, key) {
                Some(p) => {
                    let moved = if p < q {
                        p
                    } else {
                        p - 1
                    };
                    assert(t[moved] == s[p]);
                    assert forall|j: int| 0 <= j < moved implies (#[trigger] t[j]).0 != key by {
                        let from = if j < q {
                            j
                        } else {
                            j + 1
                        };
                        assert(t[j] == s[from]);
                    }
                    lemma_position_found(t, key, moved);
                },
                None => {
                    assert forall|j: int| 0 <= j < t.len() implies (#[trigger] t[j]).0 != key by {
                        let from = if j < q {
                            j
                        } else {
                            j + 1
                        };
                        assert(t[j] == s[from]);
                    }
                    lemma_position_absent(t, key);
                },
            }
        },
        None => {
            assert forall|j: int| 0 <= j < u.len() implies (#[trigger] u[j]).0 != gone by {
                if j != at {
                    assert(u[j] == s[j]);
                }
            }
            lemma_position_absent(u, gone);
        },
    }
}

/// Storing under one key and striking another off can be done in either order.
pub proof fn lemma_with_without_commute<A, B>(s: Seq<(A, B)>, key: A, value: B, gone: A)
    requires
        key != gone,
    ensures
        with(without(s, gone), key, value) == without(with(s, key, value), gone),
{
    lemma_positions_apart(s, key, value, gone);
    lemma_position_is_first(s, key);
    lemma_position_is_first(s, gone);
    assert(with(without(s, gone), key, value) =~= without(with(s, key, value), gone));
}

/// Storing under a key that is not struck off can be done before or after
/// the striking off.
pub proof fn lemma_with_left_over_commute<A, B>(s: Seq<(A, B)>, gone: Seq<A>, key: A, value: B)
    requires
        !gone.contains(key),
    ensures
        with(left_over(s, gone), key, value) == left_over(with(s, key, value), gone),
    decreases gone.len(),
{
    if gone.len() > 0 {
        let earlier = gone.drop_last();
        assert(gone[gone.len() - 1] != key);
        if earlier.contains(key) {
            let i = choose|i: int| 0 <= i < earlier.len() && earlier[i] == key;
            assert(gone[i] == key);
        }
        lemma_with_left_over_commute(s, earlier, key, value);
        lemma_with_without_commute(left_over(s, earlier), key, value, gone.last());
    }
}

/// A map that keeps its entries in the order in which their keys first came in.
#[derive(Debug)]
pub struct ListMap<K: MapKey, V> {
    entries: Vec<(K, V)>,
}

impl<K: MapKey, V: DeepView> DeepView for ListMap<K, V> {
    type V = Seq<(K::V, V::V)>;

    closed spec fn deep_view(&self) -> Seq<(K::V, V::V)> {
        self.entries.deep_view()
    }
}

impl<K: MapKey, V> ListMap<K, V> {
    #[verifier::type_invariant]
    spec fn inv(self) -> bool {
        distinct_keys(self.entries@.map_values(|e: (K, V)| (e.0.deep_view(), e.1)))
    }
}

impl<K: MapKey, V: DeepView> ListMap<K, V> {
    proof fn lemma_distinct(&self)
        requires
            self.inv(),
        ensures
            distinct_keys(self.deep_view()),
    {
        let raw = self.entries@.map_values(|e: (K, V)| (e.0.deep_view(), e.1));
        let s = self.deep_view();
        assert forall|i: int, j: int| 0 <= i < j < s.len() implies (#[trigger] s[i]).0 != (
        #[trigger] s[j]).0 by {
            assert(raw[i].0 == s[i].0);
            assert(raw[j].0 == s[j].0);
        }
    }

    /// The empty map.
    pub fn new() -> (map: Self)
        ensures
            map.deep_view() == Seq::<(K::V, V::V)>::empty(),
    {
        let map = ListMap { entries: Vec::new() };
        assert(map.entries.deep_view() =~= Seq::<(K::V, V::V)>::empty());
        map
    }

    /// The number of entries.
    pub fn len(&self) -> (n: usize)
        ensures
            n == self.deep_view().len(),
    {
        self.entries.len()
    }

    fn find(&self, key: &K) -> (at: Option<usize>)
        ensures
            match at {
                Some(i) => position(self.deep_view(), key.deep_view()) == Some(i as int),
                None => position(self.deep_view(), key.deep_view()) is None,
            },
    {
        let mut i: usize = 0;
        while i < self.entries.len()
            invariant
                i <= self.entries.len(),
                forall|j: int| 0 <= j < i ==> (#[trigger] self.deep_view()[j]).0 != key.deep_view(),
            decreases self.entries.len() - i,
        {
            if self.entries[i].0.same_key(key) {
                proof {
                    assert(self.deep_view()[i as int].0 == key.deep_view());
                    lemma_position_found(self.deep_view(), key.deep_view(), i as int);
                }
                return Some(i);
            }
            i += 1;
        }
        proof {
            lemma_position_absent(self.deep_view(), key.deep_view());
        }
        None
    }

    /// Whether the map holds `key`.
    pub fn contains_key(&self, key: &K) -> (found: bool)
        ensures
            found == has_key(self.deep_view(), key.deep_view()),
    {
        self.find(key).is_some()
    }

    /// The value stored under `key`.
    pub fn get(&self, key: &K) -> (value: Option<&V>)
        ensures
            value.deep_view() == lookup(self.deep_view(), key.deep_view()),
    {
        match self.find(key) {
            Some(i) => Some(&self.entries[i].1),
            None => None,
        }
    }

    /// Stores `value` under `key`, in place of what the key held before.
    pub fn insert(&mut self, key: K, value: V)
        ensures
            final(self).deep_view() == with(
                old(self).deep_view(),
                key.deep_view(),
                value.deep_view(),
            ),
            distinct_keys(old(self).deep_view()),
            distinct_keys(final(self).deep_view()),
    {
        proof {
            use_type_invariant(&*self);
            self.lemma_distinct();
            lemma_with_lookup(self.deep_view(), key.deep_view(), value.deep_view(), key.deep_view());
        }
        let ghost raw = self.entries@.map_values(|e: (K, V)| (e.0.deep_view(), e.1));
        let ghost model = self.deep_view();
        let found = self.find(&key);
        proof {
            lemma_position_is_first(model, key.deep_view());
        }
        let mut entries: Vec<(K, V)> = Vec::new();
        core::mem::swap(&mut self.entries, &mut entries);
        let ghost k = key.deep_view();
        let ghost v = value.deep_view();
        match found {
            Some(i) => {
                entries.set(i, (key, value));
                proof {
                    let now = entries@.map_values(|e: (K, V)| (e.0.deep_view(), e.1));
                    assert forall|a: int, b: int| 0 <= a < b < now.len() implies (#[trigger] now[a]).0
                        != (#[trigger] now[b]).0 by {
                        assert(raw[a].0 == now[a].0);
                        assert(raw[b].0 == now[b].0);
                    }
                    assert(entries.deep_view() =~= model.update(i as int, (k, v)));
                }
            },
            None => {
                entries.push((key, value));
                proof {
                    let now = entries@.map_values(|e: (K, V)| (e.0.deep_view(), e.1));
                    assert forall|a: int, b: int| 0 <= a < b < now.len() implies (#[trigger] now[a]).0
                        != (#[trigger] now[b]).0 by {
                        if b < raw.len() {
                            assert(raw[a].0 == now[a].0);
                            assert(raw[b].0 == now[b].0);
                        } else {
                            assert(model[a].0 != k);
                            assert(raw[a].0 == now[a].0);
                        }
                    }
                    assert(entries.deep_view() =~= model.push((k, v)));
                }
            },
        }
        core::mem::swap(&mut self.entries, &mut entries);
    }

    /// Takes out the entry stored under `key` and returns its value.
    pub fn remove(&mut self, key: &K) -> (value: Option<V>)
        ensures
            final(self).deep_view() == without(old(self).deep_view(), key.deep_view()),
            value.deep_view() == lookup(old(self).deep_view(), key.deep_view()),
            distinct_keys(old(self).deep_view()),
            distinct_keys(final(self).deep_view()),
    {
        proof {
            use_type_invariant(&*self);
            self.lemma_distinct();
            lemma_without_distinct(self.deep_view(), key.deep_view());
        }
        let ghost raw = self.entries@.map_values(|e: (K, V)| (e.0.deep_view(), e.1));
        let ghost model = self.deep_view();
        match self.find(key) {
            Some(i) => {
                let mut entries: Vec<(K, V)> = Vec::new();
                core::mem::swap(&mut self.entries, &mut entries);
                let entry = entries.remove(i);
                proof {
                    let now = entries@.map_values(|e: (K, V)| (e.0.deep_view(), e.1));
                    assert forall|a: int, b: int| 0 <= a < b < now.len() implies (#[trigger] now[a]).0
                        != (#[trigger] now[b]).0 by {
                        let a0 = if a < i { a } else { a + 1 };
                        let b0 = if b < i { b } else { b + 1 };
                        assert(raw[a0].0 == now[a].0);
                        assert(raw[b0].0 == now[b].0);
                    }
                    assert(entries.deep_view() =~= model.remove(i as int));
                }
                core::mem::swap(&mut self.entries, &mut entries);
                Some(entry.1)
            },
            None => None,
        }
    }

    /// The entries in order, each key with its value.
    pub fn into_entries(self) -> (entries: Vec<(K, V)>)
        ensures
            entries.deep_view() == self.deep_view(),
            distinct_keys(entries.deep_view()),
    {
        proof {
            use_type_invariant(&self);
            self.lemma_distinct();
        }
        self.entries
    }
}

} // verus!
