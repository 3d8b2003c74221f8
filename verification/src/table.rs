//! Name-keyed tables whose keys stand in ascending order.

use vstd::prelude::*;

verus! {

/// The order of names: that of strings, character by character, a string
/// before every longer one that starts with it.
pub open spec fn name_lt(a: Seq<char>, b: Seq<char>) -> bool
    decreases a.len(),
{
    if b.len() == 0 {
        false
    } else if a.len() == 0 {
        true
    } else if a[0] != b[0] {
        a[0] < b[0]
    } else {
        name_lt(a.drop_first(), b.drop_first())
    }
}

/// No name stands before itself.
pub proof fn lemma_name_lt_irreflexive(a: Seq<char>)
    ensures
        !name_lt(a, a),
    decreases a.len(),
{
    if a.len() > 0 {
        lemma_name_lt_irreflexive(a.drop_first());
    }
}

/// The order of names is transitive.
pub proof fn lemma_name_lt_transitive(a: Seq<char>, b: Seq<char>, c: Seq<char>)
    requires
        name_lt(a, b),
        name_lt(b, c),
    ensures
        name_lt(a, c),
    decreases a.len(),
{
    if a.len() > 0 && a[0] == b[0] && b[0] == c[0] {
        lemma_name_lt_transitive(a.drop_first(), b.drop_first(), c.drop_first());
    }
}

/// Of two different names one stands before the other.
pub proof fn lemma_name_lt_total(a: Seq<char>, b: Seq<char>)
    requires
        a != b,
    ensures
        name_lt(a, b) || name_lt(b, a),
    decreases a.len(),
{
    if a.len() > 0 && b.len() > 0 && a[0] == b[0] {
        if a.drop_first() == b.drop_first() {
            assert(a =~= seq![a[0]] + a.drop_first());
            assert(b =~= seq![b[0]] + b.drop_first());
        }
        lemma_name_lt_total(a.drop_first(), b.drop_first());
    } else if a.len() == 0 && b.len() == 0 {
        assert(a =~= b);
    }
}

/// Every name stands before all that follow it.
pub open spec fn ascending(keys: Seq<Seq<char>>) -> bool {
    forall|i: int, j: int| 0 <= i < j < keys.len() ==> name_lt(#[trigger] keys[i], #[trigger] keys[j])
}

/// The place of a name among ascending names: the index behind the last
/// name that stands before it.
pub open spec fn rank(keys: Seq<Seq<char>>, key: Seq<char>) -> int
    decreases keys.len(),
{
    if keys.len() == 0 {
        0
    } else if name_lt(keys.last(), key) {
        keys.len() as int
    } else {
        rank(keys.drop_last(), key)
    }
}

/// Among ascending names, exactly those in front of the place of a name
/// stand before it.
pub proof fn lemma_rank(keys: Seq<Seq<char>>, key: Seq<char>)
    requires
        ascending(keys),
    ensures
        0 <= rank(keys, key) <= keys.len(),
        forall|i: int| 0 <= i < rank(keys, key) ==> name_lt(#[trigger] keys[i], key),
        forall|i: int| rank(keys, key) <= i < keys.len() ==> !name_lt(#[trigger] keys[i], key),
    decreases keys.len(),
{
    if keys.len() > 0 {
        let front = keys.drop_last();
        assert forall|i: int, j: int| 0 <= i < j < front.len() implies name_lt(
            #[trigger] front[i],
            #[trigger] front[j],
        ) by {
            assert(front[i] == keys[i] && front[j] == keys[j]);
        }
        if name_lt(keys.last(), key) {
            assert forall|i: int| 0 <= i < keys.len() implies name_lt(#[trigger] keys[i], key) by {
                if i < keys.len() - 1 {
                    assert(name_lt(keys[i], keys[keys.len() - 1]));
                    lemma_name_lt_transitive(keys[i], keys.last(), key);
                }
            }
        } else {
            lemma_rank(front, key);
            assert forall|i: int| 0 <= i < rank(keys, key) implies name_lt(#[trigger] keys[i], key) by {
                assert(front[i] == keys[i]);
            }
            assert forall|i: int| rank(keys, key) <= i < keys.len() implies !name_lt(
                #[trigger] keys[i],
                key,
            ) by {
                if i < keys.len() - 1 {
                    assert(front[i] == keys[i]);
                }
            }
        }
    }
}

/// Ascending names hold no name twice.
pub proof fn lemma_ascending_distinct(keys: Seq<Seq<char>>)
    requires
        ascending(keys),
    ensures
        keys.no_duplicates(),
{
    assert forall|i: int, j: int| 0 <= i < keys.len() && 0 <= j < keys.len() && i != j implies keys[i]
        != keys[j] by {
        lemma_name_lt_irreflexive(keys[i]);
        if i < j {
            assert(name_lt(keys[i], keys[j]));
        } else {
            assert(name_lt(keys[j], keys[i]));
        }
    }
}

/// The mathematical content of a [`NameMap`]: the keys in ascending order,
/// and beside each key the value bound to it.
pub struct Table<V> {
    pub keys: Seq<Seq<char>>,
    pub values: Seq<V>,
}

impl<V> Table<V> {
    pub open spec fn empty() -> Self {
        Table { keys: Seq::empty(), values: Seq::empty() }
    }

    /// Every key has exactly one value, and the keys ascend; so no key
    /// occurs twice.
    pub open spec fn wf(self) -> bool {
        &&& self.keys.len() == self.values.len()
        &&& ascending(self.keys)
    }

    pub open spec fn len(self) -> nat {
        self.keys.len()
    }

    pub open spec fn contains(self, key: Seq<char>) -> bool {
        self.keys.contains(key)
    }

    /// The value bound to `key`; meaningful only where `contains(key)`.
    pub open spec fn get(self, key: Seq<char>) -> V {
        self.values[self.keys.index_of(key)]
    }

    pub open spec fn lookup(self, key: Seq<char>) -> Option<V> {
        if self.contains(key) {
            Some(self.get(key))
        } else {
            None
        }
    }

    /// Binds `key` to `value`: a key already present takes the new value,
    /// a new key goes to its place in the order of names.
    pub open spec fn insert(self, key: Seq<char>, value: V) -> Self {
        if self.contains(key) {
            Table { keys: self.keys, values: self.values.update(self.keys.index_of(key), value) }
        } else {
            Table {
                keys: self.keys.insert(rank(self.keys, key), key),
                values: self.values.insert(rank(self.keys, key), value),
            }
        }
    }

    /// The table as a finite map, forgetting the order of the keys.
    pub open spec fn as_map(self) -> Map<Seq<char>, V> {
        Map::new(|k: Seq<char>| self.contains(k), |k: Seq<char>| self.get(k))
    }

    /// In a well-formed table a key sits at one index only, so the value at
    /// any index is the value bound to the key at that index.
    pub proof fn lemma_get_at(self, i: int)
        requires
            self.wf(),
            0 <= i < self.keys.len(),
        ensures
            self.contains(self.keys[i]),
            self.keys.index_of(self.keys[i]) == i,
            self.get(self.keys[i]) == self.values[i],
    {
        lemma_ascending_distinct(self.keys);
        let k = self.keys[i];
        assert(self.keys.contains(k));
        let j = self.keys.index_of(k);
        assert(0 <= j < self.keys.len() && self.keys[j] == k);
    }

    /// Insertion keeps a table well-formed, with its keys ascending, binds
    /// the key, and leaves every other key as it was.
    pub proof fn lemma_insert(self, key: Seq<char>, value: V)
        requires
            self.wf(),
        ensures
            self.insert(key, value).wf(),
            self.insert(key, value).contains(key),
            self.insert(key, value).get(key) == value,
            forall|k: Seq<char>|
                k != key ==> (#[trigger] self.insert(key, value).contains(k) <==> self.contains(k)),
            forall|k: Seq<char>|
                k != key && self.contains(k) ==> #[trigger] self.insert(key, value).get(k)
                    == self.get(k),
            self.insert(key, value).as_map() == self.as_map().insert(key, value),
    {
        let after = self.insert(key, value);
        lemma_ascending_distinct(self.keys);
        if self.contains(key) {
            let i = self.keys.index_of(key);
            assert(after.keys[i] == key);
            assert(after.get(key) == value);
            assert forall|k: Seq<char>| k != key && self.contains(k) implies #[trigger] after.get(k)
                == self.get(k) by {
                let j = self.keys.index_of(k);
                assert(j != i);
            }
        } else {
            let p = rank(self.keys, key);
            lemma_rank(self.keys, key);
            let n = self.keys.len() as int;
            assert(after.keys.len() == n + 1);
            assert(after.keys[p] == key);
            assert forall|a: int| 0 <= a < n + 1 && a != p implies #[trigger] after.keys[a]
                == self.keys[if a < p {
                a
            } else {
                a - 1
            }] && after.values[a] == self.values[if a < p {
                a
            } else {
                a - 1
            }] by {}
            assert forall|a: int, b: int| 0 <= a < b < after.keys.len() implies name_lt(
                #[trigger] after.keys[a],
                #[trigger] after.keys[b],
            ) by {
                if b == p {
                    assert(name_lt(self.keys[a], key));
                } else if a == p {
                    assert(!name_lt(self.keys[b - 1], key));
                    assert(self.keys[b - 1] != key);
                    lemma_name_lt_total(self.keys[b - 1], key);
                } else {
                    let x = if a < p {
                        a
                    } else {
                        a - 1
                    };
                    let y = if b < p {
                        b
                    } else {
                        b - 1
                    };
                    assert(name_lt(self.keys[x], self.keys[y]));
                }
            }
            after.lemma_get_at(p);
            assert forall|k: Seq<char>| k != key implies (#[trigger] after.contains(k)
                <==> self.contains(k)) by {
                if after.contains(k) {
                    let j = after.keys.index_of(k);
                    assert(j != p);
                    assert(self.keys[if j < p {
                        j
                    } else {
                        j - 1
                    }] == k);
                }
                if self.contains(k) {
                    let j = self.keys.index_of(k);
                    assert(after.keys[if j < p {
                        j
                    } else {
                        j + 1
                    }] == k);
                }
            }
            assert forall|k: Seq<char>| k != key && self.contains(k) implies #[trigger] after.get(k)
                == self.get(k) by {
                let j = self.keys.index_of(k);
                let j2 = if j < p {
                    j
                } else {
                    j + 1
                };
                assert(after.keys[j2] == k);
                after.lemma_get_at(j2);
                assert(after.values[j2] == self.values[j]);
            }
        }
        assert(after.as_map() =~= self.as_map().insert(key, value));
    }
}

/// The characters of a string.
pub fn chars_of(s: &str) -> (v: Vec<char>)
    ensures
        v@ == s@,
{
    let mut v: Vec<char> = Vec::new();
    for c in it: s.chars()
        invariant
            it.seq() == s@,
            v@ == s@.take(it.index()),
    {
        v.push(c);
        assert(s@.take(it.index() + 1) =~= s@.take(it.index()).push(s@[it.index()]));
    }
    assert(s@.take(s@.len() as int) =~= s@);
    v
}

/// Whether `a` stands before `b` in the order of names.
pub fn precedes(a: &str, b: &str) -> (r: bool)
    ensures
        r == name_lt(a@, b@),
{
    let x = chars_of(a);
    let y = chars_of(b);
    let mut i: usize = 0;
    assert(a@.skip(0) =~= a@);
    assert(b@.skip(0) =~= b@);
    while i < x.len() && i < y.len()
        invariant
            x@ == a@,
            y@ == b@,
            i <= x.len(),
            i <= y.len(),
            name_lt(a@, b@) == name_lt(a@.skip(i as int), b@.skip(i as int)),
        decreases x.len() - i,
    {
        assert(a@.skip(i as int).drop_first() =~= a@.skip(i + 1));
        assert(b@.skip(i as int).drop_first() =~= b@.skip(i + 1));
        assert(a@.skip(i as int)[0] == a@[i as int]);
        assert(b@.skip(i as int)[0] == b@[i as int]);
        if x[i] != y[i] {
            return x[i] < y[i];
        }
        i += 1;
    }
    assert(a@.skip(i as int).len() == a@.len() - i);
    assert(b@.skip(i as int).len() == b@.len() - i);
    i < y.len()
}

/// A map from names to values that keeps its keys in ascending order, as
/// strings are ordered.
pub struct NameMap<V> {
    names: Vec<String>,
    values: Vec<V>,
}

impl<V: View> View for NameMap<V> {
    type V = Table<V::V>;

    closed spec fn view(&self) -> Table<V::V> {
        Table {
            keys: self.names@.map_values(|s: String| s@),
            values: self.values@.map_values(|v: V| v@),
        }
    }
}

impl<V: View> NameMap<V> {
    /// Validity of the map: its content is a well-formed table.
    pub open spec fn wf(&self) -> bool {
        self@.wf()
    }

    pub fn new() -> (m: Self)
        ensures
            m.wf(),
            m@ == Table::<V::V>::empty(),
    {
        let m = NameMap { names: Vec::new(), values: Vec::new() };
        assert(m@.keys =~= Seq::empty());
        assert(m@.values =~= Seq::empty());
        m
    }

    pub fn len(&self) -> (n: usize)
        ensures
            n == self@.keys.len(),
    {
        self.names.len()
    }

    /// The index at which `key` sits, if it is present.
    pub fn index_of(&self, key: &String) -> (r: Option<usize>)
        requires
            self.wf(),
        ensures
            match r {
                Some(i) => self@.contains(key@) && i == self@.keys.index_of(key@),
                None => !self@.contains(key@),
            },
    {
        let mut i: usize = 0;
        while i < self.names.len()
            invariant
                self.wf(),
                i <= self.names.len(),
                forall|j: int| 0 <= j < i ==> self@.keys[j] != key@,
            decreases self.names.len() - i,
        {
            if self.names[i] == *key {
                proof {
                    assert(self@.keys[i as int] == key@);
                    self@.lemma_get_at(i as int);
                }
                return Some(i);
            }
            i += 1;
        }
        None
    }

    /// The place of `key` in the order of the keys: the number of keys that
    /// stand before it.
    pub fn rank_of(&self, key: &String) -> (r: usize)
        requires
            self.wf(),
        ensures
            r == rank(self@.keys, key@),
            r <= self@.keys.len(),
    {
        proof {
            lemma_rank(self@.keys, key@);
        }
        let mut i: usize = 0;
        let mut found = false;
        while !found && i < self.names.len()
            invariant
                self.wf(),
                i <= self.names.len(),
                forall|j: int| 0 <= j < i ==> name_lt(#[trigger] self@.keys[j], key@),
                found ==> i < self.names.len() && !name_lt(self@.keys[i as int], key@),
            decreases self.names.len() - i + if found { 0int } else { 1int },
        {
            if precedes(self.names[i].as_str(), key.as_str()) {
                i += 1;
            } else {
                found = true;
            }
        }
        proof {
            let p = rank(self@.keys, key@);
            if i < p {
                assert(name_lt(self@.keys[i as int], key@));
            } else if p < i {
                assert(name_lt(self@.keys[p], key@));
            }
        }
        i
    }

    pub fn contains_key(&self, key: &String) -> (r: bool)
        requires
            self.wf(),
        ensures
            r == self@.contains(key@),
    {
        self.index_of(key).is_some()
    }

    pub fn get(&self, key: &String) -> (r: Option<&V>)
        requires
            self.wf(),
        ensures
            match r {
                Some(v) => self@.lookup(key@) == Some(v@),
                None => self@.lookup(key@) is None,
            },
    {
        match self.index_of(key) {
            Some(i) => Some(&self.values[i]),
            None => None,
        }
    }

    /// Binds `key` to `value`: the value of a key already present is
    /// replaced, a new key goes to its place in the order of the keys.
    pub fn insert(&mut self, key: String, value: V)
        requires
            old(self).wf(),
        ensures
            final(self).wf(),
            final(self)@ == old(self)@.insert(key@, value@),
    {
        proof {
            self@.lemma_insert(key@, value@);
        }
        match self.index_of(&key) {
            Some(i) => {
                self.values.set(i, value);
                assert(self@.values =~= old(self)@.values.update(i as int, value@));
            },
            None => {
                let p = self.rank_of(&key);
                self.names.insert(p, key);
                self.values.insert(p, value);
                assert(self@.keys =~= old(self)@.keys.insert(p as int, key@));
                assert(self@.values =~= old(self)@.values.insert(p as int, value@));
            },
        }
    }

    pub fn key_at(&self, i: usize) -> (k: &String)
        requires
            i < self@.keys.len(),
        ensures
            k@ == self@.keys[i as int],
    {
        &self.names[i]
    }

    pub fn value_at(&self, i: usize) -> (v: &V)
        requires
            self.wf(),
            i < self@.keys.len(),
        ensures
            v@ == self@.values[i as int],
    {
        &self.values[i]
    }
}

} // verus!

verus! {

/// A table of tables is well-formed, and so is each table in it.
pub open spec fn nested_wf<V>(outer: Table<Table<V>>) -> bool {
    &&& outer.wf()
    &&& forall|i: int| 0 <= i < outer.values.len() ==> (#[trigger] outer.values[i]).wf()
}

/// Binding a name to a well-formed table keeps a table of tables
/// well-formed.
pub proof fn lemma_nested_insert<V>(outer: Table<Table<V>>, key: Seq<char>, inner: Table<V>)
    requires
        nested_wf(outer),
        inner.wf(),
    ensures
        nested_wf(outer.insert(key, inner)),
{
    outer.lemma_insert(key, inner);
    let after = outer.insert(key, inner);
    assert forall|i: int| 0 <= i < after.values.len() implies (#[trigger] after.values[i]).wf() by {
        if outer.contains(key) {
            if i != outer.keys.index_of(key) {
                assert(after.values[i] == outer.values[i]);
            }
        } else {
            let p = rank(outer.keys, key);
            lemma_rank(outer.keys, key);
            if i < p {
                assert(after.values[i] == outer.values[i]);
            } else if i > p {
                assert(after.values[i] == outer.values[i - 1]);
            }
        }
    }
}

} // verus!
