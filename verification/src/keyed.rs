//! A map keyed by strings and kept in key order, the order in which Rust
//! compares `String` values (byte by byte, as `BTreeMap<String, _>` walks).
use vstd::prelude::*;

use crate::text::str_eq;

verus! {

/// Lexicographic order on byte strings; `String`'s `Ord` compares UTF-8 bytes this way.
pub open spec fn bytes_lt(a: Seq<u8>, b: Seq<u8>) -> bool
    decreases a.len(),
{
    if b.len() == 0 {
        false
    } else if a.len() == 0 {
        true
    } else if a[0] != b[0] {
        a[0] < b[0]
    } else {
        bytes_lt(a.drop_first(), b.drop_first())
    }
}

/// The bytes by which a key is ordered: its UTF-8 encoding.
pub open spec fn key_bytes(s: Seq<char>) -> Seq<u8> {
    vstd::utf8::encode_utf8(s)
}

/// Key order: `a` sorts strictly before `b`.
pub open spec fn key_lt(a: Seq<char>, b: Seq<char>) -> bool {
    bytes_lt(key_bytes(a), key_bytes(b))
}

/// Two different byte strings are ordered one way or the other.
pub proof fn lemma_bytes_lt_total(a: Seq<u8>, b: Seq<u8>)
    requires
        a != b,
    ensures
        bytes_lt(a, b) || bytes_lt(b, a),
    decreases a.len(),
{
    if a.len() == 0 && b.len() == 0 {
        assert(a =~= b);
    } else if a.len() == 0 || b.len() == 0 {
    } else if a[0] != b[0] {
    } else {
        if a.drop_first() =~= b.drop_first() {
            assert(a =~= seq![a[0]] + a.drop_first());
            assert(b =~= seq![b[0]] + b.drop_first());
        }
        lemma_bytes_lt_total(a.drop_first(), b.drop_first());
    }
}

/// No byte string sorts before itself.
pub proof fn lemma_bytes_lt_irreflexive(a: Seq<u8>)
    ensures
        !bytes_lt(a, a),
    decreases a.len(),
{
    if a.len() > 0 {
        lemma_bytes_lt_irreflexive(a.drop_first());
    }
}

/// Two different keys are ordered one way or the other.
pub proof fn lemma_key_lt_total(a: Seq<char>, b: Seq<char>)
    requires
        a != b,
    ensures
        key_lt(a, b) || key_lt(b, a),
{
    vstd::utf8::encode_utf8_decode_utf8(a);
    vstd::utf8::encode_utf8_decode_utf8(b);
    lemma_bytes_lt_total(key_bytes(a), key_bytes(b));
}

/// Whether `a` sorts strictly before `b`, comparing bytes.
pub fn bytes_less(a: &[u8], b: &[u8]) -> (r: bool)
    ensures
        r == bytes_lt(a@, b@),
{
    let na = a.len();
    let nb = b.len();
    let mut i: usize = 0;
    assert(a@.subrange(0, na as int) =~= a@);
    assert(b@.subrange(0, nb as int) =~= b@);
    while i < na && i < nb
        invariant
            i <= na,
            i <= nb,
            na == a@.len(),
            nb == b@.len(),
            bytes_lt(a@, b@) == bytes_lt(
                a@.subrange(i as int, na as int),
                b@.subrange(i as int, nb as int),
            ),
        decreases na - i,
    {
        if a[i] != b[i] {
            return a[i] < b[i];
        }
        assert(a@.subrange(i + 1, na as int) =~= a@.subrange(i as int, na as int).drop_first());
        assert(b@.subrange(i + 1, nb as int) =~= b@.subrange(i as int, nb as int).drop_first());
        i += 1;
    }
    i < nb
}

/// Whether key `a` sorts strictly before key `b`.
pub fn key_less(a: &str, b: &str) -> (r: bool)
    ensures
        r == key_lt(a@, b@),
{
    bytes_less(a.as_bytes(), b.as_bytes())
}

/// Entries sorted strictly by key, neighbour by neighbour, with no key twice.
pub open spec fn keys_ordered<V>(entries: Seq<(String, V)>) -> bool {
    &&& forall|i: int|
        0 <= i < entries.len() - 1 ==> key_lt(#[trigger] entries[i].0@, entries[i + 1].0@)
    &&& forall|i: int, j: int|
        0 <= i < entries.len() && 0 <= j < entries.len() && i != j ==> #[trigger] entries[i].0@
            != #[trigger] entries[j].0@
}

/// The position of `key` among `entries`, or -1.
pub open spec fn key_index<V>(entries: Seq<(String, V)>, key: Seq<char>) -> int {
    if exists|i: int| 0 <= i < entries.len() && #[trigger] entries[i].0@ == key {
        choose|i: int| 0 <= i < entries.len() && #[trigger] entries[i].0@ == key
    } else {
        -1
    }
}

/// In ordered entries, a key's position is the one entry holding it.
pub proof fn lemma_key_index<V>(entries: Seq<(String, V)>, key: Seq<char>, i: int)
    requires
        keys_ordered(entries),
        0 <= i < entries.len(),
        entries[i].0@ == key,
    ensures
        key_index(entries, key) == i,
{
}

/// The value stored under `key` among `entries`, if any.
pub open spec fn lookup_in<V>(entries: Seq<(String, V)>, key: Seq<char>) -> Option<V> {
    let i = key_index(entries, key);
    if i >= 0 {
        Some(entries[i].1)
    } else {
        None
    }
}

/// After storing `v` under `key`, looking `key` up gives `v`; other keys are untouched.
pub proof fn lemma_lookup_after_insert<V>(
    before: Seq<(String, V)>,
    after: Seq<(String, V)>,
    key: String,
    v: V,
    k: Seq<char>,
)
    requires
        keys_ordered(before),
        keys_ordered(after),
        key_index(before, key@) >= 0 ==> after == before.update(
            key_index(before, key@),
            (before[key_index(before, key@)].0, v),
        ),
        key_index(before, key@) < 0 ==> exists|p: int|
            0 <= p <= before.len() && after == before.insert(p, (key, v)),
    ensures
        lookup_in(after, k) == if k == key@ {
            Some(v)
        } else {
            lookup_in(before, k)
        },
{
    let p = key_index(before, key@);
    if p >= 0 {
        assert(before[p].0@ == key@);
        let i = key_index(before, k);
        if i >= 0 {
            assert(after[i].0@ == k);
            lemma_key_index(after, k, i);
        } else {
            assert forall|j: int| 0 <= j < after.len() implies #[trigger] after[j].0@ != k by {
                assert(after[j].0 == before[j].0);
            }
        }
        if k == key@ {
            lemma_key_index(after, k, p);
        }
    } else {
        let q = choose|q: int| 0 <= q <= before.len() && after == before.insert(q, (key, v));
        assert(forall|j: int| 0 <= j < before.len() ==> #[trigger] before[j].0@ != key@);
        if k == key@ {
            assert(after[q].0@ == k);
            lemma_key_index(after, k, q);
        } else {
            let i = key_index(before, k);
            if i >= 0 {
                assert(before[i].0@ == k);
                let j = if i < q { i } else { i + 1 };
                assert(after[j] == before[i]);
                lemma_key_index(after, k, j);
            } else {
                assert forall|j: int| 0 <= j < after.len() implies #[trigger] after[j].0@ != k by {
                    if j < q {
                        assert(after[j] == before[j]);
                    } else if j > q {
                        assert(after[j] == before[j - 1]);
                    }
                }
            }
        }
    }
}

/// A map from strings to values, walked in key order, like `BTreeMap<String, V>`.
#[derive(Debug)]
pub struct StringMap<V> {
    entries: Vec<(String, V)>,
}

impl<V> StringMap<V> {
    /// The entries, in key order.
    pub closed spec fn pairs(&self) -> Seq<(String, V)> {
        self.entries@
    }

    pub open spec fn wf(&self) -> bool {
        keys_ordered(self.pairs())
    }

    /// The value stored under `key`, if any.
    pub open spec fn lookup(&self, key: Seq<char>) -> Option<V> {
        lookup_in(self.pairs(), key)
    }

    /// An empty map.
    pub fn new() -> (m: Self)
        ensures
            m.pairs() == Seq::<(String, V)>::empty(),
            m.wf(),
    {
        StringMap { entries: Vec::new() }
    }

    /// The number of keys.
    pub fn len(&self) -> (n: usize)
        ensures
            n == self.pairs().len(),
    {
        self.entries.len()
    }

    /// The key and value at position `i` in key order.
    pub fn entry(&self, i: usize) -> (r: (&String, &V))
        requires
            i < self.pairs().len(),
        ensures
            *r.0 == self.pairs()[i as int].0,
            *r.1 == self.pairs()[i as int].1,
    {
        let e = &self.entries[i];
        (&e.0, &e.1)
    }

    /// The position of `key`, if it is present.
    pub fn position(&self, key: &str) -> (r: Option<usize>)
        requires
            self.wf(),
        ensures
            match r {
                Some(i) => i < self.pairs().len() && self.pairs()[i as int].0@ == key@ && key_index(
                    self.pairs(),
                    key@,
                ) == i,
                None => key_index(self.pairs(), key@) == -1,
            },
    {
        let n = self.entries.len();
        let mut i: usize = 0;
        while i < n
            invariant
                i <= n,
                n == self.pairs().len(),
                self.wf(),
                forall|k: int| 0 <= k < i ==> self.pairs()[k].0@ != key@,
            decreases n - i,
        {
            if str_eq(self.entries[i].0.as_str(), key) {
                proof {
                    lemma_key_index(self.pairs(), key@, i as int);
                }
                return Some(i);
            }
            i += 1;
        }
        None
    }

    /// The value stored under `key`, if any (`BTreeMap::get`).
    pub fn get(&self, key: &str) -> (r: Option<&V>)
        requires
            self.wf(),
        ensures
            match r {
                Some(v) => self.lookup(key@) == Some(*v),
                None => self.lookup(key@) is None,
            },
    {
        match self.position(key) {
            Some(i) => Some(&self.entries[i].1),
            None => None,
        }
    }

    /// The value at position `i`, to change in place; its key stays.
    pub fn value_mut(&mut self, i: usize) -> (v: &mut V)
        requires
            i < old(self).pairs().len(),
        ensures
            *v == old(self).pairs()[i as int].1,
            final(self).pairs() == old(self).pairs().update(
                i as int,
                (old(self).pairs()[i as int].0, *final(v)),
            ),
    {
        &mut self.entries[i].1
    }

    /// Replaces the value at position `i`, keeping its key, and returns the old value.
    pub fn replace_value(&mut self, i: usize, v: V) -> (old_v: V)
        requires
            i < old(self).pairs().len(),
        ensures
            final(self).pairs() == old(self).pairs().update(
                i as int,
                (old(self).pairs()[i as int].0, v),
            ),
            old_v == old(self).pairs()[i as int].1,
    {
        let (k, old_v) = self.entries.remove(i);
        self.entries.insert(i, (k, v));
        proof {
            assert(self.entries@ =~= old(self).pairs().update(i as int, (old(self).pairs()[i as int].0, v)));
        }
        old_v
    }

    /// Stores `v` under `key` (`BTreeMap::insert`): an existing key keeps its
    /// place and its stored string and gets the new value; a new key goes to its
    /// place in key order.
    pub fn insert(&mut self, key: String, v: V)
        requires
            old(self).wf(),
        ensures
            final(self).wf(),
            key_index(old(self).pairs(), key@) >= 0 ==> final(self).pairs() == old(self).pairs().update(
                key_index(old(self).pairs(), key@),
                (old(self).pairs()[key_index(old(self).pairs(), key@)].0, v),
            ),
            key_index(old(self).pairs(), key@) < 0 ==> exists|p: int|
                0 <= p <= old(self).pairs().len() && final(self).pairs() == old(self).pairs().insert(
                    p,
                    (key, v),
                ),
            forall|k: Seq<char>|
                #[trigger] final(self).lookup(k) == if k == key@ {
                    Some(v)
                } else {
                    old(self).lookup(k)
                },
    {
        let ghost before = self.pairs();
        match self.position(key.as_str()) {
            Some(i) => {
                let ghost before = self.pairs();
                self.replace_value(i, v);
                proof {
                    let after = self.pairs();
                    assert(forall|k: int| 0 <= k < after.len() ==> #[trigger] after[k].0 == before[k].0);
                }
            },
            None => {
                let n = self.entries.len();
                let mut p: usize = 0;
                while p < n && !key_less(key.as_str(), self.entries[p].0.as_str())
                    invariant
                        p <= n,
                        n == self.pairs().len(),
                        self.wf(),
                        forall|k: int| 0 <= k < p ==> !key_lt(key@, #[trigger] self.pairs()[k].0@),
                    decreases n - p,
                {
                    p += 1;
                }
                let ghost before = self.pairs();
                proof {
                    assert(forall|k: int| 0 <= k < n ==> #[trigger] before[k].0@ != key@);
                    if p > 0 {
                        lemma_key_lt_total(before[p - 1].0@, key@);
                    }
                }
                self.entries.insert(p, (key, v));
                proof {
                    let after = self.pairs();
                    assert(after == before.insert(p as int, (key, v)));
                    assert forall|i: int| 0 <= i < after.len() - 1 implies key_lt(
                        #[trigger] after[i].0@,
                        after[i + 1].0@,
                    ) by {
                        if i < p - 1 {
                        } else if i == p - 1 {
                        } else if i == p {
                        } else {
                        }
                    }
                    assert forall|i: int, j: int|
                        0 <= i < after.len() && 0 <= j < after.len() && i != j implies #[trigger] after[i].0@
                        != #[trigger] after[j].0@ by {
                        if i < p && j < p {
                        } else if i < p && j == p {
                        } else if i < p && j > p {
                            assert(after[j] == before[j - 1]);
                        } else if i == p && j < p {
                        } else if i == p && j > p {
                            assert(after[j] == before[j - 1]);
                        } else if i > p && j < p {
                            assert(after[i] == before[i - 1]);
                        } else if i > p && j == p {
                            assert(after[i] == before[i - 1]);
                        } else {
                            assert(after[i] == before[i - 1]);
                            assert(after[j] == before[j - 1]);
                        }
                    }
                }
            },
        }
        proof {
            let after = self.pairs();
            assert forall|k: Seq<char>|
                #[trigger] self.lookup(k) == if k == key@ {
                    Some(v)
                } else {
                    lookup_in(before, k)
                } by {
                lemma_lookup_after_insert(before, after, key, v, k);
            }
        }
    }

    /// The keys, in key order (`BTreeMap::keys`).
    pub fn keys(&self) -> (r: Vec<String>)
        ensures
            r@.len() == self.pairs().len(),
            forall|i: int| 0 <= i < r@.len() ==> #[trigger] r@[i] == self.pairs()[i].0,
    {
        let mut r: Vec<String> = Vec::new();
        let n = self.entries.len();
        let mut i: usize = 0;
        while i < n
            invariant
                i <= n,
                n == self.pairs().len(),
                r@.len() == i,
                forall|k: int| 0 <= k < i ==> #[trigger] r@[k] == self.pairs()[k].0,
            decreases n - i,
        {
            r.push(self.entries[i].0.clone());
            i += 1;
        }
        r
    }
}

/// A set of strings, walked in key order, like `BTreeSet<String>`.
#[derive(Debug)]
pub struct StringSet {
    map: StringMap<()>,
}

impl View for StringSet {
    type V = Set<Seq<char>>;

    /// The texts of the strings held.
    closed spec fn view(&self) -> Set<Seq<char>> {
        Set::new(|k: Seq<char>| self.map.lookup(k) is Some)
    }
}

impl StringSet {
    pub closed spec fn wf(&self) -> bool {
        self.map.wf()
    }

    /// The number of strings held.
    pub closed spec fn size(&self) -> nat {
        self.map.pairs().len()
    }

    /// An empty set.
    pub fn new() -> (r: Self)
        ensures
            r.wf(),
            r@ == Set::<Seq<char>>::empty(),
            r.size() == 0,
    {
        let r = StringSet { map: StringMap::new() };
        assert(r@ =~= Set::<Seq<char>>::empty());
        r
    }

    pub fn len(&self) -> (n: usize)
        ensures
            n == self.size(),
    {
        self.map.len()
    }

    /// Whether a string with the text of `s` is held.
    pub fn contains(&self, s: &str) -> (r: bool)
        requires
            self.wf(),
        ensures
            r == self@.contains(s@),
    {
        self.map.get(s).is_some()
    }

    /// Adds `s`; answers whether it was not held before (`BTreeSet::insert`).
    pub fn insert(&mut self, s: String) -> (r: bool)
        requires
            old(self).wf(),
        ensures
            final(self).wf(),
            final(self)@ == old(self)@.insert(s@),
            r == !old(self)@.contains(s@),
            final(self).size() == old(self).size() + if r {
                1int
            } else {
                0int
            },
    {
        let present = self.map.get(s.as_str()).is_some();
        let ghost before = self.map.pairs();
        if !present {
            self.map.insert(s, ());
            proof {
                let q = choose|q: int| 0 <= q <= before.len() && self.map.pairs() == before.insert(q, (s, ()));
            }
        }
        assert(self@ =~= old(self)@.insert(s@));
        !present
    }

    /// The set is finite and holds no more texts than strings.
    pub proof fn lemma_bounded(&self)
        requires
            self.wf(),
        ensures
            self@.finite(),
            self@.len() <= self.size(),
    {
        let pairs = self.map.pairs();
        let keys = pairs.map_values(|p: (String, ())| p.0@);
        assert forall|k: Seq<char>| #[trigger] self@.contains(k) == keys.to_set().contains(k) by {
            if self@.contains(k) {
                let i = key_index(pairs, k);
                assert(keys[i] == k);
            }
            if keys.to_set().contains(k) {
                let i = choose|i: int| 0 <= i < keys.len() && keys[i] == k;
                assert(pairs[i].0@ == k);
            }
        }
        assert(self@ =~= keys.to_set());
        keys.lemma_cardinality_of_set();
    }
}

} // verus!
