//! An ordered map keyed by strings: the entries are kept strictly sorted by
//! key (code-point lexicographic order, the order of `String`'s `Ord`), so
//! iteration walks the keys in ascending order and each key occurs once.

use vstd::prelude::*;
use crate::text::chars_of;

verus! {

/// Lexicographic order on character sequences by code point.
pub open spec fn seq_lt(a: Seq<char>, b: Seq<char>) -> bool
    decreases a.len(),
{
    if a.len() == 0 {
        b.len() > 0
    } else if b.len() == 0 {
        false
    } else if a[0] != b[0] {
        a[0] < b[0]
    } else {
        seq_lt(a.drop_first(), b.drop_first())
    }
}

pub proof fn lemma_lt_irrefl(a: Seq<char>)
    ensures
        !seq_lt(a, a),
    decreases a.len(),
{
    if a.len() > 0 {
        lemma_lt_irrefl(a.drop_first());
    }
}

pub proof fn lemma_lt_trans(a: Seq<char>, b: Seq<char>, c: Seq<char>)
    requires
        seq_lt(a, b),
        seq_lt(b, c),
    ensures
        seq_lt(a, c),
    decreases a.len(),
{
    if a.len() > 0 && b.len() > 0 && c.len() > 0 && a[0] == b[0] && b[0] == c[0] {
        lemma_lt_trans(a.drop_first(), b.drop_first(), c.drop_first());
    }
}

pub proof fn lemma_lt_total(a: Seq<char>, b: Seq<char>)
    ensures
        a == b || seq_lt(a, b) || seq_lt(b, a),
    decreases a.len(),
{
    if a.len() == 0 && b.len() == 0 {
        assert(a =~= b);
    } else if a.len() > 0 && b.len() > 0 && a[0] == b[0] {
        lemma_lt_total(a.drop_first(), b.drop_first());
        if a.drop_first() == b.drop_first() {
            assert(a =~= seq![a[0]] + a.drop_first());
            assert(b =~= seq![b[0]] + b.drop_first());
        }
    }
}

pub proof fn lemma_lt_asym(a: Seq<char>, b: Seq<char>)
    requires
        seq_lt(a, b),
    ensures
        !seq_lt(b, a),
{
    if seq_lt(b, a) {
        lemma_lt_trans(a, b, a);
        lemma_lt_irrefl(a);
    }
}

proof fn lemma_lt_skip(a: Seq<char>, b: Seq<char>, i: int)
    requires
        0 <= i <= a.len(),
        i <= b.len(),
        a.subrange(0, i) == b.subrange(0, i),
    ensures
        seq_lt(a, b) == seq_lt(a.subrange(i, a.len() as int), b.subrange(i, b.len() as int)),
    decreases i,
{
    if i == 0 {
        assert(a.subrange(0, a.len() as int) =~= a);
        assert(b.subrange(0, b.len() as int) =~= b);
    } else {
        assert(a[0] == a.subrange(0, i)[0]);
        assert(b[0] == b.subrange(0, i)[0]);
        assert(a.drop_first().subrange(0, i - 1) =~= a.subrange(0, i).drop_first());
        assert(b.drop_first().subrange(0, i - 1) =~= b.subrange(0, i).drop_first());
        lemma_lt_skip(a.drop_first(), b.drop_first(), i - 1);
        assert(a.drop_first().subrange(i - 1, a.len() - 1) =~= a.subrange(i, a.len() as int));
        assert(b.drop_first().subrange(i - 1, b.len() - 1) =~= b.subrange(i, b.len() as int));
    }
}

/// Result of comparing two keys.
#[derive(Debug, Clone, Copy, PartialEq, Eq, Structural)]
pub enum KeyOrder {
    Less,
    Equal,
    Greater,
}

/// Compare two character sequences lexicographically.
pub fn compare_chars(a: &[char], b: &[char]) -> (r: KeyOrder)
    ensures
        r == KeyOrder::Less <==> seq_lt(a@, b@),
        r == KeyOrder::Equal <==> a@ == b@,
        r == KeyOrder::Greater <==> seq_lt(b@, a@),
{
    let mut i: usize = 0;
    while i < a.len() && i < b.len()
        invariant
            i <= a@.len(),
            i <= b@.len(),
            a@.subrange(0, i as int) == b@.subrange(0, i as int),
        decreases a.len() - i,
    {
        if a[i] != b[i] {
            let ghost sa = a@.subrange(i as int, a@.len() as int);
            let ghost sb = b@.subrange(i as int, b@.len() as int);
            proof {
                lemma_lt_skip(a@, b@, i as int);
                lemma_lt_skip(b@, a@, i as int);
                assert(sa[0] == a@[i as int]);
                assert(sb[0] == b@[i as int]);
                if a@ == b@ {
                    assert(a@[i as int] == b@[i as int]);
                }
            }
            if a[i] < b[i] {
                return KeyOrder::Less;
            } else {
                return KeyOrder::Greater;
            }
        }
        proof {
            assert(a@.subrange(0, i + 1) =~= a@.subrange(0, i as int).push(a@[i as int]));
            assert(b@.subrange(0, i + 1) =~= b@.subrange(0, i as int).push(b@[i as int]));
        }
        i = i + 1;
    }
    proof {
        lemma_lt_skip(a@, b@, i as int);
        lemma_lt_skip(b@, a@, i as int);
        if i == a.len() && i == b.len() {
            assert(a@ =~= a@.subrange(0, i as int));
            assert(b@ =~= b@.subrange(0, i as int));
        }
        if a@ == b@ {
            assert(a@.len() == b@.len());
        }
    }
    if a.len() == b.len() {
        KeyOrder::Equal
    } else if a.len() < b.len() {
        KeyOrder::Less
    } else {
        KeyOrder::Greater
    }
}

/// Compare two strings lexicographically by code point.
pub fn compare_str(a: &str, b: &str) -> (r: KeyOrder)
    ensures
        r == KeyOrder::Less <==> seq_lt(a@, b@),
        r == KeyOrder::Equal <==> a@ == b@,
        r == KeyOrder::Greater <==> seq_lt(b@, a@),
{
    let av = chars_of(a);
    let bv = chars_of(b);
    compare_chars(&av, &bv)
}

/// Whether two strings are equal.
pub fn str_eq(a: &str, b: &str) -> (r: bool)
    ensures
        r == (a@ == b@),
{
    compare_str(a, b) == KeyOrder::Equal
}

/// Keys strictly ascending.
pub open spec fn sorted_keys(ks: Seq<Seq<char>>) -> bool {
    forall|i: int, j: int| 0 <= i < j < ks.len() ==> seq_lt(#[trigger] ks[i], #[trigger] ks[j])
}

/// The map view of a list of entries (later entries win, though in a sorted
/// list every key is distinct).
pub open spec fn map_of<V>(keys: Seq<Seq<char>>, vals: Seq<V>) -> Map<Seq<char>, V>
    decreases keys.len(),
{
    if keys.len() == 0 || vals.len() == 0 {
        Map::empty()
    } else {
        map_of(keys.drop_last(), vals.drop_last()).insert(keys.last(), vals.last())
    }
}

pub proof fn lemma_map_of<V>(keys: Seq<Seq<char>>, vals: Seq<V>)
    requires
        keys.len() == vals.len(),
        sorted_keys(keys),
    ensures
        forall|k: Seq<char>| #[trigger]
            map_of(keys, vals).dom().contains(k) <==> keys.contains(k),
        forall|i: int| 0 <= i < keys.len() ==> #[trigger] map_of(keys, vals)[keys[i]] == vals[i],
    decreases keys.len(),
{
    if keys.len() > 0 {
        let n = keys.len() - 1;
        let ks = keys.drop_last();
        let vs = vals.drop_last();
        assert(sorted_keys(ks)) by {
            assert forall|i: int, j: int| 0 <= i < j < ks.len() implies seq_lt(
                #[trigger] ks[i],
                #[trigger] ks[j],
            ) by {
                assert(ks[i] == keys[i] && ks[j] == keys[j]);
            }
        }
        lemma_map_of(ks, vs);
        let m = map_of(keys, vals);
        assert(m == map_of(ks, vs).insert(keys[n], vals[n]));
        assert forall|k: Seq<char>| #[trigger] m.dom().contains(k) <==> keys.contains(k) by {
            if keys.contains(k) {
                let i = choose|i: int| 0 <= i < keys.len() && keys[i] == k;
                if i < n {
                    assert(ks[i] == k);
                    assert(ks.contains(k));
                }
            }
            if ks.contains(k) {
                let i = choose|i: int| 0 <= i < n && ks[i] == k;
                assert(keys[i] == k);
            }
            if k == keys[n] {
                assert(keys.contains(k));
            }
        }
        assert forall|i: int| 0 <= i < keys.len() implies #[trigger] m[keys[i]] == vals[i] by {
            if i < n {
                assert(seq_lt(keys[i], keys[n]));
                lemma_lt_irrefl(keys[n]);
                assert(ks[i] == keys[i]);
                assert(vs[i] == vals[i]);
            }
        }
    }
}

/// The keys of a list of entries.
pub open spec fn keys_of<V>(es: Seq<(String, V)>) -> Seq<Seq<char>> {
    es.map_values(|e: (String, V)| e.0@)
}

/// The values of a list of entries.
pub open spec fn vals_of<V>(es: Seq<(String, V)>) -> Seq<V> {
    es.map_values(|e: (String, V)| e.1)
}

/// An ordered string-keyed map.
#[derive(Debug)]
pub struct StrMap<V> {
    entries: Vec<(String, V)>,
}

impl<V> StrMap<V> {
    /// The keys in ascending order.
    pub closed spec fn keys(&self) -> Seq<Seq<char>> {
        keys_of(self.entries@)
    }

    /// The values, in the order of their keys.
    pub closed spec fn vals(&self) -> Seq<V> {
        vals_of(self.entries@)
    }

    /// The map from keys to values.
    pub open spec fn view(&self) -> Map<Seq<char>, V> {
        map_of(self.keys(), self.vals())
    }

    /// Keys strictly ascending: the map's well-formedness, kept as its type
    /// invariant.
    #[verifier::type_invariant]
    pub closed spec fn inv(&self) -> bool {
        sorted_keys(self.keys())
    }

    /// The laws of the map view: keys sorted and distinct, and the map holds
    /// exactly the listed keys with their listed values.
    pub proof fn lemma_view(&self)
        requires
            self.inv(),
        ensures
            sorted_keys(self.keys()),
            self.keys().len() == self.vals().len(),
            forall|k: Seq<char>| #[trigger] self@.dom().contains(k) <==> self.keys().contains(k),
            forall|i: int| 0 <= i < self.keys().len() ==> #[trigger] self@[self.keys()[i]] == self.vals()[i],
    {
        lemma_map_of(self.keys(), self.vals());
    }

    /// An empty map.
    pub fn new() -> (m: Self)
        ensures
            m.keys().len() == 0,
            m@ == Map::<Seq<char>, V>::empty(),
    {
        let m = StrMap { entries: Vec::new() };
        proof {
            assert(m.keys() =~= Seq::<Seq<char>>::empty());
        }
        m
    }

    /// Number of entries.
    pub fn len(&self) -> (n: usize)
        ensures
            n == self.keys().len(),
            n == self@.dom().len(),
    {
        proof {
            use_type_invariant(self);
            self.lemma_view();
            self.lemma_dom_len();
        }
        self.entries.len()
    }

    proof fn lemma_dom_len(&self)
        requires
            self.inv(),
        ensures
            self@.dom().len() == self.keys().len(),
            self@.dom().finite(),
    {
        self.lemma_view();
        self.lemma_keys_no_dup();
        self.keys().unique_seq_to_set();
        assert(self@.dom() =~= self.keys().to_set());
    }

    proof fn lemma_keys_no_dup(&self)
        requires
            self.inv(),
        ensures
            self.keys().no_duplicates(),
    {
        assert forall|i: int, j: int| 0 <= i < self.keys().len() && 0 <= j < self.keys().len() && i != j
            implies self.keys()[i] != self.keys()[j] by {
            if i < j {
                assert(seq_lt(self.keys()[i], self.keys()[j]));
                lemma_lt_irrefl(self.keys()[i]);
            } else {
                assert(seq_lt(self.keys()[j], self.keys()[i]));
                lemma_lt_irrefl(self.keys()[j]);
            }
        }
    }

    /// Whether the map is empty.
    pub fn is_empty(&self) -> (b: bool)
        ensures
            b == (self.keys().len() == 0),
            b == (self@ == Map::<Seq<char>, V>::empty()),
    {
        proof {
            use_type_invariant(self);
            self.lemma_view();
            if self.keys().len() > 0 {
                assert(self.keys().contains(self.keys()[0]));
                assert(self@.dom().contains(self.keys()[0]));
            } else {
                assert(self@ =~= Map::<Seq<char>, V>::empty());
            }
        }
        self.entries.len() == 0
    }

    /// The `i`-th key in ascending order.
    pub fn key_at(&self, i: usize) -> (k: &String)
        requires
            i < self.keys().len(),
        ensures
            k@ == self.keys()[i as int],
    {
        &self.entries[i].0
    }

    /// The value of the `i`-th key in ascending order.
    pub fn value_at(&self, i: usize) -> (v: &V)
        requires
            i < self.keys().len(),
        ensures
            *v == self.vals()[i as int],
    {
        &self.entries[i].1
    }

    /// Position of `key`, if present.
    pub fn index_of(&self, key: &str) -> (r: Option<usize>)
        ensures
            match r {
                Some(i) => i < self.keys().len() && self.keys()[i as int] == key@,
                None => !self.keys().contains(key@),
            },
    {
        let mut i: usize = 0;
        while i < self.entries.len()
            invariant
                i <= self.entries@.len(),
                forall|j: int| 0 <= j < i ==> self.keys()[j] != key@,
            decreases self.entries.len() - i,
        {
            if str_eq(self.entries[i].0.as_str(), key) {
                return Some(i);
            }
            i = i + 1;
        }
        None
    }

    /// Whether `key` is present.
    pub fn contains_key(&self, key: &str) -> (b: bool)
        ensures
            b == self@.dom().contains(key@),
    {
        proof {
            use_type_invariant(self);
            self.lemma_view();
        }
        self.index_of(key).is_some()
    }

    /// The value under `key`, if present.
    pub fn get(&self, key: &str) -> (r: Option<&V>)
        ensures
            match r {
                Some(v) => self@.dom().contains(key@) && *v == self@[key@],
                None => !self@.dom().contains(key@),
            },
    {
        proof {
            use_type_invariant(self);
            self.lemma_view();
        }
        match self.index_of(key) {
            Some(i) => Some(&self.entries[i].1),
            None => None,
        }
    }

    /// The smallest key, if any.
    pub fn first_key(&self) -> (r: Option<&String>)
        ensures
            match r {
                Some(k) => self@.dom().contains(k@) && forall|k2: Seq<char>| #[trigger]
                    self@.dom().contains(k2) && k2 != k@ ==> seq_lt(k@, k2),
                None => self@ == Map::<Seq<char>, V>::empty(),
            },
    {
        proof {
            use_type_invariant(self);
            self.lemma_view();
        }
        if self.entries.len() == 0 {
            proof {
                assert(self@ =~= Map::<Seq<char>, V>::empty());
            }
            None
        } else {
            proof {
                let ks = self.keys();
                assert(ks.contains(ks[0]));
                assert forall|k2: Seq<char>| #[trigger]
                    self@.dom().contains(k2) && k2 != ks[0] implies seq_lt(ks[0], k2) by {
                    let j = choose|j: int| 0 <= j < ks.len() && ks[j] == k2;
                    assert(j != 0);
                }
            }
            Some(&self.entries[0].0)
        }
    }

    /// Remove every entry.
    pub fn clear(&mut self)
        ensures
            final(self)@ == Map::<Seq<char>, V>::empty(),
            final(self).keys().len() == 0,
    {
        self.entries = Vec::new();
        proof {
            assert(self.keys() =~= Seq::<Seq<char>>::empty());
        }
    }

    /// Remove `key`, returning its value if it was present. The other keys
    /// keep their order.
    pub fn remove(&mut self, key: &str) -> (r: Option<V>)
        ensures
            final(self)@ == old(self)@.remove(key@),
            match r {
                Some(v) => old(self)@.dom().contains(key@) && v == old(self)@[key@],
                None => !old(self)@.dom().contains(key@),
            },
    {
        proof {
            use_type_invariant(&*self);
            self.lemma_view();
        }
        match self.index_of(key) {
            None => {
                proof {
                    assert(self@.remove(key@) =~= self@);
                }
                None
            },
            Some(i) => {
                let ghost old_keys = self.keys();
                let ghost old_vals = self.vals();
                let ghost old_map = self@;
                let (k, v) = self.remove_index(i);
                proof {
                    use_type_invariant(&*self);
                    self.lemma_view();
                    assert(self.keys() =~= old_keys.remove(i as int));
                    assert(self.vals() =~= old_vals.remove(i as int));
                    assert forall|kk: Seq<char>| #[trigger] self@.dom().contains(kk) == old_map.remove(key@).dom().contains(kk) by {
                        if old_keys.contains(kk) && kk != key@ {
                            let j = choose|j: int| 0 <= j < old_keys.len() && old_keys[j] == kk;
                            if j < i {
                                assert(self.keys()[j] == kk);
                            } else {
                                assert(self.keys()[j - 1] == kk);
                            }
                        }
                        if self.keys().contains(kk) {
                            let j = choose|j: int| 0 <= j < self.keys().len() && self.keys()[j] == kk;
                            if j < i {
                                assert(old_keys[j] == kk);
                                assert(seq_lt(old_keys[j], old_keys[i as int]));
                                lemma_lt_irrefl(kk);
                            } else {
                                assert(old_keys[j + 1] == kk);
                                assert(seq_lt(old_keys[i as int], old_keys[j + 1]));
                                lemma_lt_irrefl(kk);
                            }
                        }
                    }
                    assert forall|kk: Seq<char>| #[trigger] self@.dom().contains(kk) implies self@[kk] == old_map.remove(key@)[kk] by {
                        let j = choose|j: int| 0 <= j < self.keys().len() && self.keys()[j] == kk;
                        if j < i {
                            assert(old_keys[j] == kk);
                        } else {
                            assert(old_keys[j + 1] == kk);
                        }
                    }
                    assert(self@ =~= old_map.remove(key@));
                }
                Some(v)
            },
        }
    }

    fn remove_index(&mut self, i: usize) -> (r: (String, V))
        requires
            i < old(self).keys().len(),
        ensures
            r == old(self).entries@[i as int],
            final(self).keys() == old(self).keys().remove(i as int),
            final(self).vals() == old(self).vals().remove(i as int),
    {
        proof {
            use_type_invariant(&*self);
        }
        let ghost ks = self.keys();
        let ghost vs = self.vals();
        let mut es: Vec<(String, V)> = Vec::new();
        std::mem::swap(&mut es, &mut self.entries);
        let r = es.remove(i);
        proof {
            let ks2 = keys_of(es@);
            assert(ks2 =~= ks.remove(i as int));
            assert(vals_of(es@) =~= vs.remove(i as int));
            assert forall|a: int, b: int| 0 <= a < b < ks2.len() implies seq_lt(
                #[trigger] ks2[a],
                #[trigger] ks2[b],
            ) by {
                let a0 = if a < i { a } else { a + 1 };
                let b0 = if b < i { b } else { b + 1 };
                assert(ks[a0] == ks2[a]);
                assert(ks[b0] == ks2[b]);
            }
        }
        self.entries = es;
        r
    }

    fn insert_index(&mut self, i: usize, key: String, value: V)
        requires
            i <= old(self).keys().len(),
            forall|j: int| 0 <= j < i ==> seq_lt(#[trigger] old(self).keys()[j], key@),
            forall|j: int|
                i <= j < old(self).keys().len() ==> seq_lt(key@, #[trigger] old(self).keys()[j]),
        ensures
            final(self).keys() == old(self).keys().insert(i as int, key@),
            final(self).vals() == old(self).vals().insert(i as int, value),
    {
        proof {
            use_type_invariant(&*self);
        }
        let ghost ks = self.keys();
        let ghost vs = self.vals();
        let ghost kk = key@;
        let mut es: Vec<(String, V)> = Vec::new();
        std::mem::swap(&mut es, &mut self.entries);
        es.insert(i, (key, value));
        proof {
            let ks2 = keys_of(es@);
            assert(ks2 =~= ks.insert(i as int, kk));
            assert(vals_of(es@) =~= vs.insert(i as int, value));
            assert forall|a: int, b: int| 0 <= a < b < ks2.len() implies seq_lt(
                #[trigger] ks2[a],
                #[trigger] ks2[b],
            ) by {
                if a < i && b < i {
                    assert(ks[a] == ks2[a] && ks[b] == ks2[b]);
                } else if a < i && b == i {
                    assert(ks[a] == ks2[a]);
                } else if a < i {
                    assert(ks2[b] == ks[b - 1]);
                    assert(ks[a] == ks2[a]);
                    lemma_lt_trans(ks2[a], kk, ks[b - 1]);
                } else if a == i {
                    assert(ks2[b] == ks[b - 1]);
                } else {
                    assert(ks2[a] == ks[a - 1] && ks2[b] == ks[b - 1]);
                }
            }
        }
        self.entries = es;
    }

    /// Insert `key` with `value`, returning the value it replaced. New keys
    /// take their place in ascending order.
    pub fn insert(&mut self, key: String, value: V) -> (r: Option<V>)
        ensures
            final(self)@ == old(self)@.insert(key@, value),
            match r {
                Some(v) => old(self)@.dom().contains(key@) && v == old(self)@[key@],
                None => !old(self)@.dom().contains(key@),
            },
    {
        proof {
            use_type_invariant(&*self);
            self.lemma_view();
        }
        let ghost old_keys = self.keys();
        let ghost old_vals = self.vals();
        let ghost old_map = self@;
        let ghost kk = key@;
        let n = self.entries.len();
        let mut i: usize = 0;
        let mut found = false;
        while i < n
            invariant_except_break
                !found,
            invariant
                n == old_keys.len(),
                old_keys == self.keys(),
                sorted_keys(old_keys),
                i <= n,
                kk == key@,
                forall|j: int| 0 <= j < i ==> seq_lt(#[trigger] old_keys[j], kk),
            ensures
                found ==> i < n && old_keys[i as int] == kk,
                !found ==> (i < n ==> seq_lt(kk, old_keys[i as int])),
            decreases n - i,
        {
            let o = compare_str(self.entries[i].0.as_str(), key.as_str());
            if o == KeyOrder::Equal {
                found = true;
                break;
            }
            if o == KeyOrder::Greater {
                break;
            }
            i = i + 1;
        }
        if found {
            let (_, old_v) = self.remove_index(i);
            proof {
                assert forall|j: int| i <= j < self.keys().len() implies seq_lt(
                    kk,
                    #[trigger] self.keys()[j],
                ) by {
                    assert(self.keys()[j] == old_keys[j + 1]);
                    assert(seq_lt(old_keys[i as int], old_keys[j + 1]));
                }
                assert forall|j: int| 0 <= j < i implies seq_lt(#[trigger] self.keys()[j], kk) by {
                    assert(self.keys()[j] == old_keys[j]);
                }
            }
            self.insert_index(i, key, value);
            proof {
                use_type_invariant(&*self);
                self.lemma_view();
                assert(self.keys() =~= old_keys);
                assert(self.vals() =~= old_vals.update(i as int, value));
                assert(old_keys.contains(kk));
                assert forall|k2: Seq<char>| #[trigger] self@.dom().contains(k2) == old_map.insert(
                    kk,
                    value,
                ).dom().contains(k2) by {}
                assert forall|k2: Seq<char>| #[trigger]
                    self@.dom().contains(k2) implies self@[k2] == old_map.insert(kk, value)[k2] by {
                    let j = choose|j: int| 0 <= j < self.keys().len() && self.keys()[j] == k2;
                    assert(self@[self.keys()[j]] == self.vals()[j]);
                    if j != i {
                        assert(old_map[old_keys[j]] == old_vals[j]);
                        if k2 == kk {
                            if j < i {
                                assert(seq_lt(old_keys[j], old_keys[i as int]));
                            } else {
                                assert(seq_lt(old_keys[i as int], old_keys[j]));
                            }
                            lemma_lt_irrefl(kk);
                        }
                    }
                }
                assert(self@ =~= old_map.insert(kk, value));
                assert(old_v == old_vals[i as int]);
            }
            return Some(old_v);
        }
        proof {
            assert forall|j: int| i <= j < old_keys.len() implies seq_lt(
                kk,
                #[trigger] old_keys[j],
            ) by {
                if j > i {
                    assert(seq_lt(old_keys[i as int], old_keys[j]));
                    lemma_lt_trans(kk, old_keys[i as int], old_keys[j]);
                }
            }
            assert(!old_keys.contains(kk)) by {
                if old_keys.contains(kk) {
                    let j = choose|j: int| 0 <= j < old_keys.len() && old_keys[j] == kk;
                    lemma_lt_irrefl(kk);
                }
            }
        }
        self.insert_index(i, key, value);
        proof {
            use_type_invariant(&*self);
            self.lemma_view();
            assert(self.keys() =~= old_keys.insert(i as int, kk));
            assert(self.vals() =~= old_vals.insert(i as int, value));
            assert forall|k2: Seq<char>| #[trigger] self@.dom().contains(k2) == old_map.insert(
                kk,
                value,
            ).dom().contains(k2) by {
                if old_keys.contains(k2) {
                    let j = choose|j: int| 0 <= j < old_keys.len() && old_keys[j] == k2;
                    if j < i {
                        assert(self.keys()[j] == k2);
                    } else {
                        assert(self.keys()[j + 1] == k2);
                    }
                }
                if k2 == kk {
                    assert(self.keys()[i as int] == kk);
                }
                if self.keys().contains(k2) {
                    let j = choose|j: int| 0 <= j < self.keys().len() && self.keys()[j] == k2;
                    if j < i {
                        assert(old_keys[j] == k2);
                    } else if j > i {
                        assert(old_keys[j - 1] == k2);
                    }
                }
            }
            assert forall|k2: Seq<char>| #[trigger]
                self@.dom().contains(k2) implies self@[k2] == old_map.insert(kk, value)[k2] by {
                let j = choose|j: int| 0 <= j < self.keys().len() && self.keys()[j] == k2;
                assert(self@[self.keys()[j]] == self.vals()[j]);
                if j < i {
                    assert(old_keys[j] == k2);
                    assert(old_map[old_keys[j]] == old_vals[j]);
                } else if j > i {
                    assert(old_keys[j - 1] == k2);
                    assert(old_map[old_keys[j - 1]] == old_vals[j - 1]);
                }
            }
            assert(self@ =~= old_map.insert(kk, value));
        }
        None
    }
}

} // verus!
