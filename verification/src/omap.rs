//! An insertion-ordered map from string names to values.
//!
//! Configuration sections (host groups, filesystem specs, policies,
//! tool entries) are keyed by name and must iterate in insertion order
//! so that listings, diagnostics and merge precedence stay
//! deterministic.  Inserting an existing key replaces the value in
//! place and keeps the key's position; inserting a new key appends it.

use vstd::prelude::*;

use crate::strutil::str_eq;

verus! {

/// Value stored for `key` in an association sequence: the first entry
/// with that key, if any.
pub open spec fn seq_get<V>(s: Seq<(Seq<char>, V)>, key: Seq<char>) -> Option<V>
    decreases s.len(),
{
    if s.len() == 0 {
        None
    } else if s[0].0 == key {
        Some(s[0].1)
    } else {
        seq_get(s.skip(1), key)
    }
}

/// Whether an association sequence holds an entry for `key`.
pub open spec fn seq_has<V>(s: Seq<(Seq<char>, V)>, key: Seq<char>) -> bool {
    seq_get(s, key) is Some
}

/// Index of the first entry for `key`.
pub open spec fn seq_index_of<V>(s: Seq<(Seq<char>, V)>, key: Seq<char>) -> int
    decreases s.len(),
{
    if s.len() == 0 {
        0
    } else if s[0].0 == key {
        0
    } else {
        1 + seq_index_of(s.skip(1), key)
    }
}

/// No two entries share a key.
pub open spec fn keys_unique<V>(s: Seq<(Seq<char>, V)>) -> bool {
    forall|i: int, j: int| 0 <= i < j < s.len() ==> s[i].0 != s[j].0
}

/// Effect of inserting `(key, v)`: replace in place when the key is
/// present, append otherwise.
pub open spec fn spec_insert<V>(s: Seq<(Seq<char>, V)>, key: Seq<char>, v: V) -> Seq<
    (Seq<char>, V),
> {
    if seq_has(s, key) {
        s.update(seq_index_of(s, key), (key, v))
    } else {
        s.push((key, v))
    }
}

/// Fold every entry of `o` into `b` by `spec_insert`, left to right.
pub open spec fn spec_merge<V>(b: Seq<(Seq<char>, V)>, o: Seq<(Seq<char>, V)>) -> Seq<
    (Seq<char>, V),
>
    decreases o.len(),
{
    if o.len() == 0 {
        b
    } else {
        spec_merge(spec_insert(b, o[0].0, o[0].1), o.skip(1))
    }
}

/// If an entry for `key` exists, `seq_index_of` points at it.
pub proof fn lemma_index_of<V>(s: Seq<(Seq<char>, V)>, key: Seq<char>)
    requires
        seq_has(s, key),
    ensures
        0 <= seq_index_of(s, key) < s.len(),
        s[seq_index_of(s, key)].0 == key,
        s[seq_index_of(s, key)].1 == seq_get(s, key)->Some_0,
        forall|i: int| 0 <= i < seq_index_of(s, key) ==> s[i].0 != key,
    decreases s.len(),
{
    if s.len() > 0 && s[0].0 != key {
        lemma_index_of(s.skip(1), key);
        let ix = seq_index_of(s, key);
        assert(s.skip(1)[ix - 1] == s[ix]);
        assert forall|i: int| 0 <= i < ix implies s[i].0 != key by {
            if i > 0 {
                assert(s.skip(1)[i - 1].0 != key);
            }
        }
    }
}

/// A key that appears at some index is found by `seq_get`.
pub proof fn lemma_get_some<V>(s: Seq<(Seq<char>, V)>, i: int)
    requires
        0 <= i < s.len(),
    ensures
        seq_has(s, s[i].0),
    decreases s.len(),
{
    if s[0].0 != s[i].0 {
        lemma_get_some(s.skip(1), i - 1);
    }
}

/// What `spec_insert` does to every lookup.
pub proof fn lemma_insert_get<V>(s: Seq<(Seq<char>, V)>, key: Seq<char>, v: V, probe: Seq<char>)
    ensures
        seq_get(spec_insert(s, key, v), probe) == if probe == key {
            Some(v)
        } else {
            seq_get(s, probe)
        },
    decreases s.len(),
{
    if seq_has(s, key) {
        lemma_index_of(s, key);
        lemma_get_update(s, seq_index_of(s, key), key, v, probe);
    } else {
        lemma_get_push(s, key, v, probe);
    }
}

proof fn lemma_get_update<V>(s: Seq<(Seq<char>, V)>, i: int, key: Seq<char>, v: V, probe: Seq<char>)
    requires
        0 <= i < s.len(),
        s[i].0 == key,
        forall|j: int| 0 <= j < i ==> s[j].0 != key,
    ensures
        seq_get(s.update(i, (key, v)), probe) == if probe == key {
            Some(v)
        } else {
            seq_get(s, probe)
        },
    decreases s.len(),
{
    let t = s.update(i, (key, v));
    if i == 0 {
        if t[0].0 != probe {
            assert(t.skip(1) =~= s.skip(1));
        }
    } else {
        assert(t[0] == s[0]);
        if s[0].0 != probe {
            assert(t.skip(1) =~= s.skip(1).update(i - 1, (key, v)));
            lemma_get_update(s.skip(1), i - 1, key, v, probe);
        }
    }
}

proof fn lemma_get_push<V>(s: Seq<(Seq<char>, V)>, key: Seq<char>, v: V, probe: Seq<char>)
    requires
        !seq_has(s, key),
    ensures
        seq_get(s.push((key, v)), probe) == if probe == key {
            Some(v)
        } else {
            seq_get(s, probe)
        },
    decreases s.len(),
{
    let t = s.push((key, v));
    if s.len() == 0 {
        if t[0].0 != probe {
            assert(t.skip(1) =~= Seq::<(Seq<char>, V)>::empty());
        }
    } else {
        assert(t[0] == s[0]);
        if s[0].0 != probe {
            assert(t.skip(1) =~= s.skip(1).push((key, v)));
            lemma_get_push(s.skip(1), key, v, probe);
        }
    }
}

/// Inserting keeps keys unique.
pub proof fn lemma_insert_unique<V>(s: Seq<(Seq<char>, V)>, key: Seq<char>, v: V)
    requires
        keys_unique(s),
    ensures
        keys_unique(spec_insert(s, key, v)),
{
    if seq_has(s, key) {
        lemma_index_of(s, key);
        let i = seq_index_of(s, key);
        let t = s.update(i, (key, v));
        assert forall|a: int, b: int| 0 <= a < b < t.len() implies t[a].0 != t[b].0 by {
            assert(s[a].0 != s[b].0);
        }
    } else {
        let t = s.push((key, v));
        assert forall|a: int, b: int| 0 <= a < b < t.len() implies t[a].0 != t[b].0 by {
            if b == s.len() {
                lemma_get_some(s, a);
            }
        }
    }
}

/// Precedence: a merged map answers with the override's entry for every
/// key the override holds, and with the base's entry for every other.
pub proof fn lemma_merge_get<V>(b: Seq<(Seq<char>, V)>, o: Seq<(Seq<char>, V)>, probe: Seq<char>)
    requires
        keys_unique(o),
    ensures
        seq_get(spec_merge(b, o), probe) == if seq_has(o, probe) {
            seq_get(o, probe)
        } else {
            seq_get(b, probe)
        },
    decreases o.len(),
{
    if o.len() > 0 {
        let b1 = spec_insert(b, o[0].0, o[0].1);
        lemma_insert_get(b, o[0].0, o[0].1, probe);
        lemma_merge_get(b1, o.skip(1), probe);
        if probe == o[0].0 {
            assert(forall|j: int| 1 <= j < o.len() ==> o[j].0 != probe);
            assert(!seq_has(o.skip(1), probe)) by {
                if seq_has(o.skip(1), probe) {
                    lemma_index_of(o.skip(1), probe);
                }
            }
        }
    }
}

/// Merging a map with itself leaves it unchanged.
pub proof fn lemma_merge_self<V>(s: Seq<(Seq<char>, V)>)
    requires
        keys_unique(s),
    ensures
        spec_merge(s, s) == s,
{
    assert forall|i: int| 0 <= i < s.len() implies seq_get(s, s[i].0) == Some(s[i].1) by {
        lemma_get_some(s, i);
        lemma_index_of(s, s[i].0);
        let ix = seq_index_of(s, s[i].0);
        if ix != i {
            assert(s[ix].0 == s[i].0);
        }
    }
    lemma_merge_subrange(s, s, 0);
    assert(s.skip(0) =~= s);
}

/// Helper: folding in a suffix of entries that the base already holds
/// verbatim changes nothing.
proof fn lemma_merge_subrange<V>(b: Seq<(Seq<char>, V)>, o: Seq<(Seq<char>, V)>, k: int)
    requires
        0 <= k <= o.len(),
        forall|i: int| k <= i < o.len() ==> seq_get(b, o[i].0) == Some(o[i].1),
    ensures
        spec_merge(b, o.skip(k)) == b,
    decreases o.len() - k,
{
    if k < o.len() {
        let rest = o.skip(k);
        assert(rest[0] == o[k]);
        lemma_index_of(b, o[k].0);
        let i = seq_index_of(b, o[k].0);
        assert(b.update(i, (o[k].0, o[k].1)) =~= b) by {
            assert(b[i].0 == o[k].0 && b[i].1 == o[k].1);
        }
        assert(spec_insert(b, o[k].0, o[k].1) == b);
        assert(rest.skip(1) =~= o.skip(k + 1));
        lemma_merge_subrange(b, o, k + 1);
    } else {
        assert(o.skip(k) =~= Seq::<(Seq<char>, V)>::empty());
    }
}

/// Number of entries whose key is not among `names`.
pub open spec fn count_absent<V>(s: Seq<(Seq<char>, V)>, names: Seq<Seq<char>>) -> nat
    decreases s.len(),
{
    if s.len() == 0 {
        0
    } else {
        (if names.contains(s[0].0) {
            0nat
        } else {
            1nat
        }) + count_absent(s.skip(1), names)
    }
}

/// Listing one more name never raises the count.
pub proof fn lemma_count_absent_mono<V>(s: Seq<(Seq<char>, V)>, names: Seq<Seq<char>>, name: Seq<char>)
    ensures
        count_absent(s, names.push(name)) <= count_absent(s, names),
    decreases s.len(),
{
    if s.len() > 0 {
        lemma_count_absent_mono(s.skip(1), names, name);
        if names.contains(s[0].0) {
            let i = choose|i: int| 0 <= i < names.len() && names[i] == s[0].0;
            assert(names.push(name)[i] == s[0].0);
            assert(names.push(name).contains(s[0].0));
        }
    }
}

/// Listing the key of an entry that was not yet listed strictly lowers
/// the count.
pub proof fn lemma_count_absent_strict<V>(
    s: Seq<(Seq<char>, V)>,
    names: Seq<Seq<char>>,
    name: Seq<char>,
)
    requires
        seq_has(s, name),
        !names.contains(name),
    ensures
        count_absent(s, names.push(name)) < count_absent(s, names),
    decreases s.len(),
{
    assert(s.len() > 0);
    if s[0].0 == name {
        lemma_count_absent_mono(s.skip(1), names, name);
        assert(names.push(name).last() == name);
        assert(names.push(name).contains(name));
    } else {
        lemma_count_absent_strict(s.skip(1), names, name);
        if names.contains(s[0].0) {
            let i = choose|i: int| 0 <= i < names.len() && names[i] == s[0].0;
            assert(names.push(name)[i] == s[0].0);
        } else {
            assert(!names.push(name).contains(s[0].0)) by {
                if names.push(name).contains(s[0].0) {
                    let i = choose|i: int|
                        0 <= i < names.push(name).len() && names.push(name)[i] == s[0].0;
                    if i < names.len() {
                        assert(names[i] == s[0].0);
                    }
                }
            }
        }
    }
}

/// View of a raw entry vector as an association sequence.
pub open spec fn entries_view<V>(s: Seq<(String, V)>) -> Seq<(Seq<char>, V)> {
    s.map(|i: int, e: (String, V)| (e.0@, e.1))
}

/// An insertion-ordered map from `String` names to values.
#[derive(Debug, Clone)]
pub struct OrderedMap<V> {
    pub entries: Vec<(String, V)>,
}

impl<V> View for OrderedMap<V> {
    type V = Seq<(Seq<char>, V)>;

    open spec fn view(&self) -> Seq<(Seq<char>, V)> {
        entries_view(self.entries@)
    }
}

impl<V> OrderedMap<V> {
    /// Keys never repeat.
    pub open spec fn wf(&self) -> bool {
        keys_unique(self@)
    }

    /// Value stored for `key`, if any.
    pub open spec fn spec_get(&self, key: Seq<char>) -> Option<V> {
        seq_get(self@, key)
    }

    /// Create an empty map.
    pub fn new() -> (r: Self)
        ensures
            r@ =~= Seq::<(Seq<char>, V)>::empty(),
            r.wf(),
    {
        OrderedMap { entries: Vec::new() }
    }

    /// Number of entries.
    pub fn len(&self) -> (r: usize)
        ensures
            r == self@.len(),
    {
        self.entries.len()
    }

    /// Borrow the value stored for `key`.
    pub fn get(&self, key: &str) -> (r: Option<&V>)
        ensures
            match r {
                Some(v) => self.spec_get(key@) == Some(*v),
                None => self.spec_get(key@) is None,
            },
    {
        let n = self.entries.len();
        let mut i: usize = 0;
        proof {
            assert(self@.skip(0) =~= self@);
        }
        while i < n
            invariant
                n == self.entries@.len(),
                i <= n,
                seq_get(self@, key@) == seq_get(self@.skip(i as int), key@),
            decreases n - i,
        {
            proof {
                let rest = self@.skip(i as int);
                assert(rest[0] == self@[i as int]);
                assert(rest.skip(1) =~= self@.skip(i + 1));
            }
            if str_eq(self.entries[i].0.as_str(), key) {
                return Some(&self.entries[i].1);
            }
            i += 1;
        }
        proof {
            assert(self@.skip(n as int) =~= Seq::<(Seq<char>, V)>::empty());
        }
        None
    }

    /// Whether the map holds an entry for `key`.
    pub fn contains_key(&self, key: &str) -> (r: bool)
        ensures
            r == seq_has(self@, key@),
    {
        self.get(key).is_some()
    }

    /// Insert `(key, value)`: replace in place when the key is present,
    /// append otherwise.
    pub fn insert(&mut self, key: String, value: V)
        requires
            old(self).wf(),
        ensures
            final(self)@ == spec_insert(old(self)@, key@, value),
            final(self).wf(),
    {
        let n = self.entries.len();
        let mut i: usize = 0;
        while i < n
            invariant
                n == self.entries@.len(),
                i <= n,
                self == old(self),
                old(self).wf(),
                forall|j: int| 0 <= j < i ==> self@[j].0 != key@,
            decreases n - i,
        {
            if str_eq(self.entries[i].0.as_str(), key.as_str()) {
                proof {
                    lemma_get_some(self@, i as int);
                    lemma_index_of(self@, key@);
                    assert(seq_index_of(self@, key@) == i as int) by {
                        let ix = seq_index_of(self@, key@);
                        if ix < i as int {
                            assert(self@[ix].0 != key@);
                        }
                        if ix > i as int {
                            assert(self@[i as int].0 != key@);
                        }
                    }
                }
                proof {
                    lemma_insert_unique(old(self)@, key@, value);
                }
                self.entries.set(i, (key, value));
                assert(self@ =~= spec_insert(old(self)@, key@, value));
                return ;
            }
            i += 1;
        }
        proof {
            assert(!seq_has(self@, key@)) by {
                if seq_has(self@, key@) {
                    lemma_index_of(self@, key@);
                }
            }
        }
        proof {
            lemma_insert_unique(old(self)@, key@, value);
        }
        self.entries.push((key, value));
        assert(self@ =~= spec_insert(old(self)@, key@, value));
    }

    /// Fold every entry of `other` into this map, in order.
    pub fn merge_from(&mut self, other: OrderedMap<V>)
        requires
            old(self).wf(),
        ensures
            final(self)@ == spec_merge(old(self)@, other@),
            final(self).wf(),
    {
        let mut rest = other.entries;
        proof {
            assert(entries_view(rest@) =~= other@);
        }
        while rest.len() > 0
            invariant
                self.wf(),
                spec_merge(old(self)@, other@) == spec_merge(self@, entries_view(rest@)),
            decreases rest@.len(),
        {
            let ghost prev = entries_view(rest@);
            let kv = rest.remove(0);
            proof {
                assert(prev[0] == (kv.0@, kv.1));
                assert(entries_view(rest@) =~= prev.skip(1));
            }
            let ghost before = self@;
            self.insert(kv.0, kv.1);
            proof {
                assert(spec_merge(before, prev) == spec_merge(self@, entries_view(rest@)));
            }
        }
        proof {
            assert(entries_view(rest@) =~= Seq::<(Seq<char>, V)>::empty());
        }
    }

    /// Borrow the key at position `i`.
    pub fn key_at(&self, i: usize) -> (r: &String)
        requires
            i < self@.len(),
        ensures
            r@ == self@[i as int].0,
    {
        &self.entries[i].0
    }

    /// Borrow the value at position `i`.
    pub fn value_at(&self, i: usize) -> (r: &V)
        requires
            i < self@.len(),
        ensures
            *r == self@[i as int].1,
    {
        &self.entries[i].1
    }
}

} // verus!
