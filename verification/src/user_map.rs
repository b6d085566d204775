//! A map keyed by user name that is walked in the sorted order of its keys.
use vstd::prelude::*;
use vstd::string::*;
use crate::text::{compare_names, lemma_bytes_before_asymmetric, lemma_bytes_before_transitive,
    lemma_name_before_irreflexive, name_before, NameOrder};
use vstd::utf8::encode_utf8;

verus! {

/// A finite map from user names to values of type `V`.
///
/// The entries are kept in the strictly rising order of their keys, so no
/// name occurs twice and a walk over the entries does not depend on the
/// order in which they were inserted.
#[derive(Debug)]
pub struct UserMap<V> {
    entries: Vec<(String, V)>,
}

/// The keys of `entries`, as texts, in their order.
pub open spec fn entry_keys<V>(entries: Seq<(String, V)>) -> Seq<Seq<char>> {
    Seq::new(entries.len(), |i: int| entries[i].0@)
}

/// The values of `entries` in their order.
pub open spec fn entry_values<V>(entries: Seq<(String, V)>) -> Seq<V> {
    Seq::new(entries.len(), |i: int| entries[i].1)
}

/// Every key sorts strictly before every later key.
pub open spec fn strictly_rising(keys: Seq<Seq<char>>) -> bool {
    forall|i: int, j: int| 0 <= i < j < keys.len() ==> name_before(#[trigger] keys[i], #[trigger] keys[j])
}

impl<V> UserMap<V> {
    /// The entries in walking order.
    pub closed spec fn entries(&self) -> Seq<(String, V)> {
        self.entries@
    }

    /// The keys in walking order.
    pub open spec fn keys(&self) -> Seq<Seq<char>> {
        entry_keys(self.entries())
    }

    /// The values, each at the position of its key.
    pub open spec fn values(&self) -> Seq<V> {
        entry_values(self.entries())
    }

    /// The invariant: keys in strictly rising order.
    #[verifier::type_invariant]
    pub open spec fn wf(&self) -> bool {
        strictly_rising(self.keys())
    }

    /// `key` is bound.
    pub open spec fn contains_key(&self, key: Seq<char>) -> bool {
        exists|i: int| 0 <= i < self.keys().len() && self.keys()[i] == key
    }

    /// The position of `key` among the keys, if it is bound.
    pub open spec fn index_of(&self, key: Seq<char>) -> int {
        choose|i: int| 0 <= i < self.keys().len() && self.keys()[i] == key
    }

    /// The value bound to `key`, if it is bound.
    pub open spec fn value_of(&self, key: Seq<char>) -> V {
        self.values()[self.index_of(key)]
    }

    /// In a well-formed map a key stands at one position only.
    pub proof fn lemma_index_unique(&self, key: Seq<char>, i: int)
        requires
            self.wf(),
            0 <= i < self.keys().len(),
            self.keys()[i] == key,
        ensures
            self.contains_key(key),
            self.index_of(key) == i,
    {
        let j = self.index_of(key);
        lemma_name_before_irreflexive(key);
        if j < i {
            assert(name_before(self.keys()[j], self.keys()[i]));
        } else if i < j {
            assert(name_before(self.keys()[i], self.keys()[j]));
        }
    }

    /// The map as a mathematical map binds what the entries bind.
    pub proof fn lemma_view(&self, key: Seq<char>)
        ensures
            self@.contains_key(key) == self.contains_key(key),
            self.contains_key(key) ==> self@[key] == self.value_of(key),
    {
        assert(self@.dom().contains(key) == self.contains_key(key));
    }

    /// The empty map.
    pub fn new() -> (m: Self)
        ensures
            m.wf(),
            m.keys().len() == 0,
            m@ == Map::<Seq<char>, V>::empty(),
    {
        let m = UserMap { entries: Vec::new() };
        assert(m@ =~= Map::<Seq<char>, V>::empty());
        m
    }

    /// The number of entries.
    pub fn len(&self) -> (n: usize)
        ensures
            n == self.keys().len(),
    {
        self.entries.len()
    }

    /// The entry at position `i` of the walk, if the map has that many.
    pub fn entry(&self, i: usize) -> (r: Option<(&String, &V)>)
        ensures
            (match r {
                Some((key, value)) => {
                    &&& i < self.keys().len()
                    &&& key@ == self.keys()[i as int]
                    &&& *value == self.values()[i as int]
                },
                None => i >= self.keys().len(),
            }),
    {
        if i < self.entries.len() {
            Some((&self.entries[i].0, &self.entries[i].1))
        } else {
            None
        }
    }

    /// The key at position `i` of the walk.
    pub(crate) fn key_at(&self, i: usize) -> (key: &String)
        requires
            i < self.keys().len(),
        ensures
            key@ == self.keys()[i as int],
    {
        &self.entries[i].0
    }

    /// The value at position `i` of the walk.
    pub(crate) fn value_at(&self, i: usize) -> (value: &V)
        requires
            i < self.keys().len(),
        ensures
            *value == self.values()[i as int],
    {
        &self.entries[i].1
    }

    /// The position of `key`, if it is bound.
    pub fn position(&self, key: &str) -> (r: Option<usize>)
        ensures
            (match r {
                Some(i) => i < self.keys().len() && self.keys()[i as int] == key@
                    && self.contains_key(key@) && self.index_of(key@) == i,
                None => !self.contains_key(key@),
            }),
    {
        proof {
            use_type_invariant(self);
        }
        let n: usize = self.entries.len();
        let mut i: usize = 0;
        while i < n
            invariant
                n == self.keys().len(),
                self.wf(),
                0 <= i <= n,
                forall|j: int| 0 <= j < i ==> self.keys()[j] != key@,
            decreases n - i,
        {
            match compare_names(self.entries[i].0.as_str(), key) {
                NameOrder::Same => {
                    proof {
                        self.lemma_index_unique(key@, i as int);
                    }
                    return Some(i);
                },
                _ => {},
            }
            i = i + 1;
        }
        None
    }

    /// Whether `key` is bound.
    pub fn has_key(&self, key: &str) -> (r: bool)
        ensures
            r == self.contains_key(key@),
            r == self@.contains_key(key@),
    {
        self.position(key).is_some()
    }

    /// The value bound to `key`, if any.
    pub fn get(&self, key: &str) -> (r: Option<&V>)
        ensures
            (match r {
                Some(v) => self.contains_key(key@) && *v == self.value_of(key@),
                None => !self.contains_key(key@),
            }),
            r is Some ==> self@.contains_key(key@) && *r->0 == self@[key@],
            r is None ==> !self@.contains_key(key@),
    {
        match self.position(key) {
            Some(i) => Some(&self.entries[i].1),
            None => None,
        }
    }

    /// Binds `key` to `value`. A key that was bound keeps its place and
    /// gets the new value; a new key goes where the order puts it.
    pub fn insert(&mut self, key: String, value: V)
        ensures
            final(self).wf(),
            final(self)@ == old(self)@.insert(key@, value),
            old(self).contains_key(key@) ==> final(self).keys() == old(self).keys(),
            old(self).contains_key(key@) ==> final(self).values() == old(self).values().update(
                old(self).index_of(key@),
                value,
            ),
            !old(self).contains_key(key@) ==> exists|i: int|
                (0 <= i <= old(self).keys().len() && final(self).keys() == old(self).keys().insert(
                    i,
                    key@,
                ) && #[trigger] final(self).values() == old(self).values().insert(i, value)),
    {
        proof {
            use_type_invariant(&*self);
        }
        let ghost before = *self;
        let ghost k = key@;
        let mut entries: Vec<(String, V)> = Vec::new();
        std::mem::swap(&mut entries, &mut self.entries);
        let ghost keys = entry_keys(entries@);
        let n: usize = entries.len();
        let mut i: usize = 0;
        let mut found: bool = false;
        while i < n && !found
            invariant
                entries@ == before.entries(),
                keys == before.keys(),
                n == keys.len(),
                before.wf(),
                0 <= i <= n,
                forall|j: int| 0 <= j < i ==> name_before(keys[j], key@),
                found ==> i < n && !name_before(keys[i as int], key@),
            decreases (n - i) + (if found { 0int } else { 1int }),
        {
            match compare_names(entries[i].0.as_str(), key.as_str()) {
                NameOrder::Before => {
                    i = i + 1;
                },
                _ => {
                    found = true;
                },
            }
        }
        let same: bool = if i < n {
            match compare_names(entries[i].0.as_str(), key.as_str()) {
                NameOrder::Same => true,
                _ => false,
            }
        } else {
            false
        };
        if same {
            proof {
                before.lemma_index_unique(k, i as int);
            }
            entries.set(i, (key, value));
            assert(entry_keys(entries@) =~= keys);
            assert(entry_values(entries@) =~= before.values().update(i as int, value));
            self.entries = entries;
            proof {
                lemma_view_of_update(before, *self, k, value, i as int);
            }
        } else {
            proof {
                lemma_name_before_irreflexive(k);
                assert forall|j: int| 0 <= j < n implies keys[j] != k by {
                    if j < i {
                    } else if j > i {
                        assert(name_before(keys[i as int], keys[j]));
                        lemma_bytes_before_transitive(
                            encode_utf8(k),
                            encode_utf8(keys[i as int]),
                            encode_utf8(keys[j]),
                        );
                    }
                }
                assert(!before.contains_key(k));
            }
            entries.insert(i, (key, value));
            let ghost after = entry_keys(entries@);
            assert(after =~= keys.insert(i as int, k));
            assert(entry_values(entries@) =~= before.values().insert(i as int, value));
            proof {
                assert forall|a: int, b: int| 0 <= a < b < after.len() implies name_before(
                    #[trigger] after[a],
                    #[trigger] after[b],
                ) by {
                    if b < i {
                        assert(name_before(keys[a], keys[b]));
                    } else if b == i {
                    } else if a == i {
                        if b - 1 > i {
                            assert(name_before(keys[i as int], keys[b - 1]));
                            lemma_bytes_before_transitive(
                                encode_utf8(k),
                                encode_utf8(keys[i as int]),
                                encode_utf8(keys[b - 1]),
                            );
                        }
                    } else if a < i {
                        assert(name_before(keys[a], keys[b - 1]));
                    } else {
                        assert(name_before(keys[a - 1], keys[b - 1]));
                    }
                }
            }
            self.entries = entries;
            proof {
                lemma_view_of_insert(before, *self, k, value, i as int);
            }
        }
    }

    /// The keys in walking order.
    pub fn key_list(&self) -> (names: Vec<String>)
        ensures
            names@.len() == self.keys().len(),
            forall|i: int| 0 <= i < names@.len() ==> (#[trigger] names@[i])@ == self.keys()[i],
    {
        let n: usize = self.entries.len();
        let mut names: Vec<String> = Vec::new();
        let mut i: usize = 0;
        while i < n
            invariant
                n == self.keys().len(),
                0 <= i <= n,
                names@.len() == i,
                forall|j: int| 0 <= j < i ==> (#[trigger] names@[j])@ == self.keys()[j],
            decreases n - i,
        {
            names.push(self.entries[i].0.clone());
            i = i + 1;
        }
        names
    }
}

impl<V> View for UserMap<V> {
    type V = Map<Seq<char>, V>;

    /// The map as a mathematical map from names to values.
    open spec fn view(&self) -> Map<Seq<char>, V> {
        Map::new(|k: Seq<char>| self.contains_key(k), |k: Seq<char>| self.value_of(k))
    }
}

/// Replacing the value at the place of a bound key updates the map there.
proof fn lemma_view_of_update<V>(
    before: UserMap<V>,
    after: UserMap<V>,
    key: Seq<char>,
    value: V,
    i: int,
)
    requires
        before.wf(),
        0 <= i < before.keys().len(),
        before.keys()[i] == key,
        after.keys() == before.keys(),
        after.values() == before.values().update(i, value),
    ensures
        after.wf(),
        after@ == before@.insert(key, value),
{
    assert forall|k: Seq<char>| after.contains_key(k) <==> (k == key || before.contains_key(k)) by {
        if after.contains_key(k) {
            let j = after.index_of(k);
            assert(before.keys()[j] == k);
        }
        if before.contains_key(k) {
            let j = before.index_of(k);
            assert(after.keys()[j] == k);
        }
        if k == key {
            assert(after.keys()[i] == k);
        }
    }
    assert forall|k: Seq<char>| after.contains_key(k) implies after.value_of(k) == (if k == key {
        value
    } else {
        before.value_of(k)
    }) by {
        let j = after.index_of(k);
        after.lemma_index_unique(k, j);
        before.lemma_index_unique(k, j);
        if k == key {
            after.lemma_index_unique(k, i);
        }
    }
    assert(after@ =~= before@.insert(key, value));
}

/// Inserting a new key at a place that keeps the order adds it to the map.
proof fn lemma_view_of_insert<V>(
    before: UserMap<V>,
    after: UserMap<V>,
    key: Seq<char>,
    value: V,
    i: int,
)
    requires
        before.wf(),
        after.wf(),
        0 <= i <= before.keys().len(),
        after.keys() == before.keys().insert(i, key),
        after.values() == before.values().insert(i, value),
    ensures
        after@ == before@.insert(key, value),
{
    assert forall|k: Seq<char>| after.contains_key(k) <==> (k == key || before.contains_key(k)) by {
        if after.contains_key(k) {
            let j = after.index_of(k);
            if j < i {
                assert(before.keys()[j] == k);
            } else if j > i {
                assert(before.keys()[j - 1] == k);
            }
        }
        if before.contains_key(k) {
            let j = before.index_of(k);
            if j < i {
                assert(after.keys()[j] == k);
            } else {
                assert(after.keys()[j + 1] == k);
            }
        }
        if k == key {
            assert(after.keys()[i] == k);
        }
    }
    assert forall|k: Seq<char>| after.contains_key(k) implies after.value_of(k) == (if k == key {
        value
    } else {
        before.value_of(k)
    }) by {
        let j = after.index_of(k);
        after.lemma_index_unique(k, j);
        if k == key {
            after.lemma_index_unique(k, i);
        } else if j < i {
            before.lemma_index_unique(k, j);
        } else {
            assert(j != i);
            before.lemma_index_unique(k, j - 1);
        }
    }
    assert(after@ =~= before@.insert(key, value));
}

/// A key of `a` stands in `b` no earlier than in `a`, where `b` binds every
/// key of `a`: the keys before it in `a` come before it in `b` too.
proof fn lemma_place_not_earlier<V>(a: UserMap<V>, b: UserMap<V>, i: int)
    requires
        a.wf(),
        b.wf(),
        forall|key: Seq<char>| a.contains_key(key) ==> b.contains_key(key),
        0 <= i < a.keys().len(),
    ensures
        b.contains_key(a.keys()[i]),
        i <= b.index_of(a.keys()[i]) < b.keys().len(),
    decreases i,
{
    let key = a.keys()[i];
    assert(a.contains_key(key));
    let q = b.index_of(key);
    if i > 0 {
        let earlier = a.keys()[i - 1];
        lemma_place_not_earlier(a, b, i - 1);
        let p = b.index_of(earlier);
        assert(name_before(earlier, key));
        if q < p {
            assert(name_before(b.keys()[q], b.keys()[p]));
            lemma_bytes_before_asymmetric(encode_utf8(earlier), encode_utf8(key));
        } else if q == p {
            lemma_name_before_irreflexive(key);
        }
    }
}

/// Two maps that bind the same names to the same values are walked alike:
/// the order of the walk does not depend on the order of the insertions.
pub proof fn lemma_walk_is_canonical<V>(a: UserMap<V>, b: UserMap<V>)
    requires
        a.wf(),
        b.wf(),
        a@ == b@,
    ensures
        a.keys() == b.keys(),
        a.values() == b.values(),
{
    assert forall|key: Seq<char>| a.contains_key(key) <==> b.contains_key(key) by {
        a.lemma_view(key);
        b.lemma_view(key);
    }
    assert forall|i: int| 0 <= i < a.keys().len() implies b.index_of(#[trigger] a.keys()[i])
        == i by {
        lemma_place_not_earlier(a, b, i);
        let j = b.index_of(a.keys()[i]);
        lemma_place_not_earlier(b, a, j);
        a.lemma_index_unique(a.keys()[i], i);
    }
    assert forall|j: int| 0 <= j < b.keys().len() implies a.index_of(#[trigger] b.keys()[j])
        == j by {
        lemma_place_not_earlier(b, a, j);
        let i = a.index_of(b.keys()[j]);
        lemma_place_not_earlier(a, b, i);
        b.lemma_index_unique(b.keys()[j], j);
    }
    if a.keys().len() > 0 {
        lemma_place_not_earlier(a, b, a.keys().len() - 1);
    }
    if b.keys().len() > 0 {
        lemma_place_not_earlier(b, a, b.keys().len() - 1);
    }
    assert(a.keys().len() == b.keys().len());
    assert forall|i: int| 0 <= i < a.keys().len() implies a.keys()[i] == b.keys()[i] by {
        assert(b.index_of(a.keys()[i]) == i);
        lemma_place_not_earlier(a, b, i);
    }
    assert(a.keys() =~= b.keys());
    assert forall|i: int| 0 <= i < a.values().len() implies a.values()[i] == b.values()[i] by {
        let key = a.keys()[i];
        a.lemma_index_unique(key, i);
        b.lemma_index_unique(key, i);
        a.lemma_view(key);
        b.lemma_view(key);
    }
    assert(a.values() =~= b.values());
}

} // verus!
