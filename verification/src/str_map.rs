//! A map keyed by strings, kept in ascending key order (the order of
//! `BTreeMap<String, _>`: lexicographic by Unicode scalar value, which is
//! the byte order of UTF-8).
use crate::text::{chars_of, str_eq};
use vstd::prelude::*;

verus! {

/// Lexicographic order on character sequences.
pub open spec fn seq_lt(a: Seq<char>, b: Seq<char>) -> bool
    decreases a.len(),
{
    if a.len() == 0 {
        b.len() > 0
    } else if b.len() == 0 {
        false
    } else if a[0] < b[0] {
        true
    } else if a[0] == b[0] {
        seq_lt(a.drop_first(), b.drop_first())
    } else {
        false
    }
}

pub proof fn lemma_seq_lt_irrefl(a: Seq<char>)
    ensures
        !seq_lt(a, a),
    decreases a.len(),
{
    if a.len() > 0 {
        lemma_seq_lt_irrefl(a.drop_first());
    }
}

pub proof fn lemma_seq_lt_trans(a: Seq<char>, b: Seq<char>, c: Seq<char>)
    requires
        seq_lt(a, b),
        seq_lt(b, c),
    ensures
        seq_lt(a, c),
    decreases a.len(),
{
    if a.len() > 0 && b.len() > 0 && c.len() > 0 {
        if a[0] == b[0] && b[0] == c[0] {
            lemma_seq_lt_trans(a.drop_first(), b.drop_first(), c.drop_first());
        }
    }
}

pub proof fn lemma_seq_lt_total(a: Seq<char>, b: Seq<char>)
    ensures
        a == b || seq_lt(a, b) || seq_lt(b, a),
    decreases a.len(),
{
    if a.len() > 0 && b.len() > 0 {
        if a[0] == b[0] {
            lemma_seq_lt_total(a.drop_first(), b.drop_first());
            if a.drop_first() == b.drop_first() {
                assert(a.drop_first().len() == a.len() - 1);
                assert(b.drop_first().len() == b.len() - 1);
                assert(a.len() == b.len());
                assert(a =~= b) by {
                    assert forall|i: int| 0 <= i < a.len() implies a[i] == b[i] by {
                        if i > 0 {
                            assert(a[i] == a.drop_first()[i - 1]);
                            assert(b[i] == b.drop_first()[i - 1]);
                        }
                    }
                }
            } else if seq_lt(a.drop_first(), b.drop_first()) {
                assert(seq_lt(a, b));
            } else {
                assert(seq_lt(b, a));
            }
        } else if a[0] < b[0] {
            assert(seq_lt(a, b));
        } else {
            assert(b[0] < a[0]);
            assert(seq_lt(b, a));
        }
    } else if a.len() == 0 && b.len() == 0 {
        assert(a =~= b);
    } else if a.len() == 0 {
        assert(seq_lt(a, b));
    } else {
        assert(seq_lt(b, a));
    }
}

/// `a < b` in the map's key order.
pub fn str_lt(a: &str, b: &str) -> (r: bool)
    ensures
        r == seq_lt(a@, b@),
{
    let x = chars_of(a);
    let y = chars_of(b);
    let mut i: usize = 0;
    proof {
        assert(x@.skip(0) =~= x@);
        assert(y@.skip(0) =~= y@);
    }
    while i < x.len() && i < y.len() && x[i] == y[i]
        invariant
            i <= x@.len(),
            i <= y@.len(),
            x@ == a@,
            y@ == b@,
            seq_lt(a@, b@) == seq_lt(x@.skip(i as int), y@.skip(i as int)),
        decreases x@.len() - i,
    {
        proof {
            assert(x@.skip(i as int).drop_first() =~= x@.skip(i + 1));
            assert(y@.skip(i as int).drop_first() =~= y@.skip(i + 1));
        }
        i = i + 1;
    }
    if i == x.len() {
        i < y.len()
    } else if i == y.len() {
        false
    } else {
        x[i] < y[i]
    }
}

/// Keys strictly ascending.
pub open spec fn keys_sorted<V>(es: Seq<(Seq<char>, V)>) -> bool {
    forall|i: int, j: int| 0 <= i < j < es.len() ==> seq_lt(#[trigger] es[i].0, #[trigger] es[j].0)
}

pub open spec fn lower_bound_at<V>(es: Seq<(Seq<char>, V)>, k: Seq<char>, i: int) -> bool {
    &&& 0 <= i <= es.len()
    &&& i < es.len() ==> !seq_lt(es[i].0, k)
    &&& forall|j: int| 0 <= j < i ==> seq_lt(#[trigger] es[j].0, k)
}

/// Index of the first entry whose key is not below `k`.
pub open spec fn lower_bound<V>(es: Seq<(Seq<char>, V)>, k: Seq<char>) -> int {
    choose|i: int| lower_bound_at(es, k, i)
}

/// The value stored under `k`.
pub open spec fn lookup<V>(es: Seq<(Seq<char>, V)>, k: Seq<char>) -> Option<V> {
    let i = lower_bound(es, k);
    if 0 <= i < es.len() && es[i].0 == k {
        Some(es[i].1)
    } else {
        None
    }
}

/// The entries after storing `v` under `k`.
pub open spec fn spec_insert<V>(es: Seq<(Seq<char>, V)>, k: Seq<char>, v: V) -> Seq<(Seq<char>, V)> {
    let i = lower_bound(es, k);
    if 0 <= i < es.len() && es[i].0 == k {
        es.update(i, (k, v))
    } else {
        es.insert(i, (k, v))
    }
}

/// The entries after dropping `k`.
pub open spec fn spec_remove<V>(es: Seq<(Seq<char>, V)>, k: Seq<char>) -> Seq<(Seq<char>, V)> {
    let i = lower_bound(es, k);
    if 0 <= i < es.len() && es[i].0 == k {
        es.remove(i)
    } else {
        es
    }
}

pub proof fn lemma_lower_bound_unique<V>(es: Seq<(Seq<char>, V)>, k: Seq<char>, i: int)
    requires
        lower_bound_at(es, k, i),
    ensures
        lower_bound(es, k) == i,
{
    let c = choose|c: int| lower_bound_at(es, k, c);
    if c < i {
        assert(seq_lt(es[c].0, k));
    }
    if c > i {
        assert(seq_lt(es[i].0, k));
    }
}

/// Some index is the lower bound of `k`: the first entry not below it.
pub proof fn lemma_lower_bound_exists<V>(es: Seq<(Seq<char>, V)>, k: Seq<char>)
    ensures
        lower_bound_at(es, k, lower_bound(es, k)),
    decreases es.len(),
{
    if exists|i: int| 0 <= i < es.len() && !seq_lt(#[trigger] es[i].0, k) {
        let i = choose|i: int| 0 <= i < es.len() && !seq_lt(#[trigger] es[i].0, k);
        lemma_first_not_below(es, k, i);
    } else {
        assert(lower_bound_at(es, k, es.len() as int));
    }
}

proof fn lemma_first_not_below<V>(es: Seq<(Seq<char>, V)>, k: Seq<char>, i: int)
    requires
        0 <= i < es.len(),
        !seq_lt(es[i].0, k),
    ensures
        exists|c: int| lower_bound_at(es, k, c),
    decreases i,
{
    if forall|j: int| 0 <= j < i ==> seq_lt(#[trigger] es[j].0, k) {
        assert(lower_bound_at(es, k, i));
    } else {
        let j = choose|j: int| 0 <= j < i && !seq_lt(#[trigger] es[j].0, k);
        lemma_first_not_below(es, k, j);
    }
}

/// In a sorted map, a key present at `j` reads as the value there.
pub proof fn lemma_lookup_at<V>(es: Seq<(Seq<char>, V)>, k: Seq<char>, j: int)
    requires
        keys_sorted(es),
        0 <= j < es.len(),
        es[j].0 == k,
    ensures
        lookup(es, k) == Some(es[j].1),
{
    lemma_seq_lt_irrefl(k);
    assert(lower_bound_at(es, k, j));
    lemma_lower_bound_unique(es, k, j);
}

/// A key present nowhere reads as nothing.
pub proof fn lemma_lookup_absent<V>(es: Seq<(Seq<char>, V)>, k: Seq<char>)
    requires
        forall|j: int| 0 <= j < es.len() ==> #[trigger] es[j].0 != k,
    ensures
        lookup(es, k) is None,
{
}

/// Inserting keeps the keys sorted.
pub proof fn lemma_insert_sorted<V>(es: Seq<(Seq<char>, V)>, k: Seq<char>, v: V)
    requires
        keys_sorted(es),
    ensures
        keys_sorted(spec_insert(es, k, v)),
{
    lemma_lower_bound_exists(es, k);
    let i = lower_bound(es, k);
    if 0 <= i < es.len() && es[i].0 == k {
        let es2 = es.update(i, (k, v));
        assert forall|a: int, b: int| 0 <= a < b < es2.len() implies seq_lt(#[trigger] es2[a].0, #[trigger] es2[b].0) by {
            assert(seq_lt(es[a].0, es[b].0));
        }
    } else {
        let es2 = es.insert(i, (k, v));
        if i < es.len() {
            lemma_seq_lt_total(es[i].0, k);
            assert(seq_lt(k, es[i].0));
        }
        assert forall|a: int, b: int| 0 <= a < b < es2.len() implies seq_lt(#[trigger] es2[a].0, #[trigger] es2[b].0) by {
            if b < i {
                assert(seq_lt(es[a].0, es[b].0));
            } else if b == i {
                assert(es2[a].0 == es[a].0);
            } else if a < i {
                assert(seq_lt(es[a].0, k));
                if b - 1 > i {
                    assert(seq_lt(es[i].0, es[b - 1].0));
                    lemma_seq_lt_trans(k, es[i].0, es[b - 1].0);
                }
                lemma_seq_lt_trans(es[a].0, k, es[b - 1].0);
            } else if a == i {
                if b - 1 > i {
                    assert(seq_lt(es[i].0, es[b - 1].0));
                    lemma_seq_lt_trans(k, es[i].0, es[b - 1].0);
                }
            } else {
                assert(seq_lt(es[a - 1].0, es[b - 1].0));
            }
        }
    }
}

/// Reading a map right after storing `v` under `k` gives `v` for `k` and
/// what was there before for every other key.
pub proof fn law_lookup_after_insert<V>(es: Seq<(Seq<char>, V)>, k: Seq<char>, v: V, k2: Seq<char>)
    requires
        keys_sorted(es),
    ensures
        keys_sorted(spec_insert(es, k, v)),
        lookup(spec_insert(es, k, v), k2) == if k2 == k {
            Some(v)
        } else {
            lookup(es, k2)
        },
{
    lemma_insert_sorted(es, k, v);
    lemma_lower_bound_exists(es, k);
    let i = lower_bound(es, k);
    let es2 = spec_insert(es, k, v);
    let found = 0 <= i < es.len() && es[i].0 == k;
    let at = i;
    assert(es2[at] == (k, v));
    if k2 == k {
        lemma_lookup_at(es2, k, at);
    } else {
        if exists|j: int| 0 <= j < es.len() && #[trigger] es[j].0 == k2 {
            let j = choose|j: int| 0 <= j < es.len() && #[trigger] es[j].0 == k2;
            lemma_lookup_at(es, k2, j);
            let j2 = if found || j < i {
                j
            } else {
                j + 1
            };
            assert(es2[j2] == es[j]);
            lemma_lookup_at(es2, k2, j2);
        } else {
            lemma_lookup_absent(es, k2);
            assert forall|j: int| 0 <= j < es2.len() implies #[trigger] es2[j].0 != k2 by {
                if j != at {
                    if found || j < i {
                        assert(es2[j] == es[j]);
                    } else {
                        assert(es2[j] == es[j - 1]);
                    }
                }
            }
            lemma_lookup_absent(es2, k2);
        }
    }
}

/// A string-keyed map kept in ascending key order.
#[derive(Debug)]
pub struct StrMap<V: View> {
    entries: Vec<(String, V)>,
}

impl<V: View> View for StrMap<V> {
    type V = Seq<(Seq<char>, V::V)>;

    closed spec fn view(&self) -> Seq<(Seq<char>, V::V)> {
        self.entries@.map_values(|e: (String, V)| (e.0@, e.1@))
    }
}

impl<V: View> StrMap<V> {
    #[verifier::type_invariant]
    spec fn inv(self) -> bool {
        keys_sorted(self@)
    }

    pub fn new() -> (m: Self)
        ensures
            m@ == Seq::<(Seq<char>, V::V)>::empty(),
    {
        let m = StrMap { entries: Vec::new() };
        assert(m@ =~= Seq::<(Seq<char>, V::V)>::empty());
        m
    }

    /// A map holding `entries`, whose keys are already strictly ascending.
    pub(crate) fn from_sorted(entries: Vec<(String, V)>) -> (m: Self)
        requires
            keys_sorted(entries@.map_values(|e: (String, V)| (e.0@, e.1@))),
        ensures
            m@ == entries@.map_values(|e: (String, V)| (e.0@, e.1@)),
    {
        StrMap { entries }
    }

    pub fn len(&self) -> (n: usize)
        ensures
            n == self@.len(),
    {
        self.entries.len()
    }

    pub fn is_empty(&self) -> (b: bool)
        ensures
            b == (self@.len() == 0),
    {
        self.entries.len() == 0
    }

    /// Key of the `i`th entry in ascending order.
    pub fn key_at(&self, i: usize) -> (k: &str)
        requires
            i < self@.len(),
        ensures
            k@ == self@[i as int].0,
    {
        self.entries[i].0.as_str()
    }

    /// Value of the `i`th entry in ascending key order.
    pub fn value_at(&self, i: usize) -> (v: &V)
        requires
            i < self@.len(),
        ensures
            v@ == self@[i as int].1,
    {
        &self.entries[i].1
    }

    /// Index of the first entry whose key is not below `k`.
    fn find(&self, k: &str) -> (i: usize)
        ensures
            i as int == lower_bound(self@, k@),
            lower_bound_at(self@, k@, i as int),
            i <= self@.len(),
    {
        proof {
            use_type_invariant(self);
        }
        let ghost es = self@;
        let mut i: usize = 0;
        while i < self.entries.len() && str_lt(self.entries[i].0.as_str(), k)
            invariant
                es == self@,
                es.len() == self.entries@.len(),
                i <= es.len(),
                forall|j: int| 0 <= j < i ==> seq_lt(#[trigger] es[j].0, k@),
            decreases es.len() - i,
        {
            i = i + 1;
        }
        proof {
            assert(lower_bound_at(es, k@, i as int));
            lemma_lower_bound_unique(es, k@, i as int);
        }
        i
    }

    /// The value stored under `k`.
    pub fn get(&self, k: &str) -> (r: Option<&V>)
        ensures
            match r {
                Some(v) => lookup(self@, k@) == Some(v@),
                None => lookup(self@, k@) is None,
            },
    {
        let i = self.find(k);
        if i < self.entries.len() && str_eq(self.entries[i].0.as_str(), k) {
            Some(&self.entries[i].1)
        } else {
            None
        }
    }

    pub fn contains_key(&self, k: &str) -> (b: bool)
        ensures
            b == lookup(self@, k@) is Some,
    {
        self.get(k).is_some()
    }

    /// Stores `v` under `k`, replacing any earlier value.
    pub fn insert(&mut self, k: String, v: V)
        ensures
            final(self)@ == spec_insert(old(self)@, k@, v@),
    {
        proof {
            use_type_invariant(&*self);
        }
        let i = self.find(k.as_str());
        let ghost es = self@;
        let ghost kv = k@;
        let ghost vv = v@;
        let found = i < self.entries.len() && str_eq(self.entries[i].0.as_str(), k.as_str());
        proof {
            if i < es.len() {
                assert(es[i as int].0 == self.entries@[i as int].0@);
            }
        }
        if found {
            let mut entries: Vec<(String, V)> = Vec::new();
            std::mem::swap(&mut entries, &mut self.entries);
            entries.set(i, (k, v));
            proof {
                assert(entries@.map_values(|e: (String, V)| (e.0@, e.1@)) =~= es.update(i as int, (kv, vv)));
                let es2 = es.update(i as int, (kv, vv));
                assert forall|a: int, b: int| 0 <= a < b < es2.len() implies seq_lt(
                    #[trigger] es2[a].0,
                    #[trigger] es2[b].0,
                ) by {
                    assert(seq_lt(es[a].0, es[b].0));
                }
            }
            self.entries = entries;
        } else {
            let mut entries: Vec<(String, V)> = Vec::new();
            std::mem::swap(&mut entries, &mut self.entries);
            entries.insert(i, (k, v));
            proof {
                assert(entries@.map_values(|e: (String, V)| (e.0@, e.1@)) =~= es.insert(i as int, (kv, vv)));
                let es2 = es.insert(i as int, (kv, vv));
                if i < es.len() {
                    lemma_seq_lt_total(es[i as int].0, kv);
                    assert(seq_lt(kv, es[i as int].0));
                }
                assert forall|a: int, b: int| 0 <= a < b < es2.len() implies seq_lt(
                    #[trigger] es2[a].0,
                    #[trigger] es2[b].0,
                ) by {
                    if b < i {
                        assert(seq_lt(es[a].0, es[b].0));
                    } else if b == i {
                        assert(es2[a].0 == es[a].0);
                    } else if a < i {
                        assert(seq_lt(es[a].0, kv));
                        if b - 1 > i {
                            assert(seq_lt(es[i as int].0, es[b - 1].0));
                            lemma_seq_lt_trans(kv, es[i as int].0, es[b - 1].0);
                        }
                        lemma_seq_lt_trans(es[a].0, kv, es[b - 1].0);
                    } else if a == i {
                        if b - 1 > i {
                            assert(seq_lt(es[i as int].0, es[b - 1].0));
                            lemma_seq_lt_trans(kv, es[i as int].0, es[b - 1].0);
                        }
                    } else {
                        assert(seq_lt(es[a - 1].0, es[b - 1].0));
                    }
                }
            }
            self.entries = entries;
        }
    }

    /// Drops `k`, returning its value.
    pub fn remove(&mut self, k: &str) -> (r: Option<V>)
        ensures
            final(self)@ == spec_remove(old(self)@, k@),
            match r {
                Some(v) => lookup(old(self)@, k@) == Some(v@),
                None => lookup(old(self)@, k@) is None,
            },
    {
        proof {
            use_type_invariant(&*self);
        }
        let i = self.find(k);
        let ghost es = self@;
        if i < self.entries.len() && str_eq(self.entries[i].0.as_str(), k) {
            let mut entries: Vec<(String, V)> = Vec::new();
            std::mem::swap(&mut entries, &mut self.entries);
            let (_, v) = entries.remove(i);
            assert(es[i as int].1 == v@);
            proof {
                assert(entries@.map_values(|e: (String, V)| (e.0@, e.1@)) =~= es.remove(i as int));
                let es2 = es.remove(i as int);
                assert forall|a: int, b: int| 0 <= a < b < es2.len() implies seq_lt(
                    #[trigger] es2[a].0,
                    #[trigger] es2[b].0,
                ) by {
                    if b < i {
                        assert(seq_lt(es[a].0, es[b].0));
                    } else if a < i {
                        assert(seq_lt(es[a].0, es[b + 1].0));
                    } else {
                        assert(seq_lt(es[a + 1].0, es[b + 1].0));
                    }
                }
            }
            self.entries = entries;
            Some(v)
        } else {
            None
        }
    }
}

impl StrMap<String> {
    /// An independent copy with the same entries.
    pub fn duplicate(&self) -> (r: Self)
        ensures
            r@ == self@,
    {
        proof {
            use_type_invariant(self);
        }
        let mut entries: Vec<(String, String)> = Vec::new();
        let mut i: usize = 0;
        while i < self.entries.len()
            invariant
                i <= self.entries@.len(),
                entries@.map_values(|e: (String, String)| (e.0@, e.1@)) == self@.take(i as int),
                keys_sorted(self@),
            decreases self.entries@.len() - i,
        {
            let ghost before = entries@.map_values(|e: (String, String)| (e.0@, e.1@));
            let k = self.entries[i].0.clone();
            let v = self.entries[i].1.clone();
            entries.push((k, v));
            proof {
                assert(self@[i as int] == (self.entries@[i as int].0@, self.entries@[i as int].1@));
                assert(k@ == self.entries@[i as int].0@);
                assert(self@.take(i + 1) =~= self@.take(i as int).push(self@[i as int]));
                assert(entries@.map_values(|e: (String, String)| (e.0@, e.1@)) =~= before.push((k@, v@)));
                assert(entries@.map_values(|e: (String, String)| (e.0@, e.1@)) =~= self@.take(i + 1));
            }
            i = i + 1;
        }
        proof {
            assert(self@.take(self@.len() as int) =~= self@);
        }
        StrMap { entries }
    }
}

} // verus!
