//! `StrMap`: a map keyed by `String` that keeps its entries in `String`
//! order, as the protocol's map fields do.
use vstd::prelude::*;

use crate::text::{
    compare_str, lemma_seq_less_asym, lemma_seq_less_irrefl, lemma_seq_less_total,
    lemma_seq_less_trans, seq_less, strictly_sorted,
};

verus! {

/// The keys of an association sequence.
pub open spec fn smap_keys<V>(m: Seq<(Seq<char>, V)>) -> Seq<Seq<char>> {
    m.map_values(|e: (Seq<char>, V)| e.0)
}

/// Keys strictly increasing in `String` order (so also unique).
pub open spec fn smap_sorted<V>(m: Seq<(Seq<char>, V)>) -> bool {
    strictly_sorted(smap_keys(m))
}

/// The value stored under `k`, if any (first match).
pub open spec fn smap_get<V>(m: Seq<(Seq<char>, V)>, k: Seq<char>) -> Option<V>
    decreases m.len(),
{
    if m.len() == 0 {
        None
    } else if m[0].0 == k {
        Some(m[0].1)
    } else {
        smap_get(m.drop_first(), k)
    }
}

/// Whether `k` has an entry.
pub open spec fn smap_has<V>(m: Seq<(Seq<char>, V)>, k: Seq<char>) -> bool {
    smap_get(m, k) is Some
}

/// The sorted map after setting `k` to `v`: an existing entry is replaced in
/// place, otherwise the entry goes before the first larger key.
pub open spec fn smap_insert<V>(m: Seq<(Seq<char>, V)>, k: Seq<char>, v: V) -> Seq<
    (Seq<char>, V),
>
    decreases m.len(),
{
    if m.len() == 0 {
        seq![(k, v)]
    } else if m[0].0 == k {
        seq![(k, v)] + m.drop_first()
    } else if seq_less(k, m[0].0) {
        seq![(k, v)] + m
    } else {
        seq![m[0]] + smap_insert(m.drop_first(), k, v)
    }
}

/// Reading a key just set gives the value set (whatever the map's order).
pub proof fn lemma_smap_get_insert<V>(m: Seq<(Seq<char>, V)>, k: Seq<char>, v: V)
    ensures
        smap_get(smap_insert(m, k, v), k) == Some(v),
    decreases m.len(),
{
    if m.len() > 0 && m[0].0 != k && !seq_less(k, m[0].0) {
        lemma_smap_get_insert(m.drop_first(), k, v);
        let r = seq![m[0]] + smap_insert(m.drop_first(), k, v);
        assert(r.drop_first() =~= smap_insert(m.drop_first(), k, v));
    }
}

pub proof fn lemma_smap_get_index<V>(m: Seq<(Seq<char>, V)>, k: Seq<char>, i: int)
    requires
        0 <= i < m.len(),
        m[i].0 == k,
        forall|j: int| 0 <= j < i ==> m[j].0 != k,
    ensures
        smap_get(m, k) == Some(m[i].1),
    decreases i,
{
    if i > 0 {
        assert(m[0].0 != k);
        lemma_smap_get_index(m.drop_first(), k, i - 1);
    }
}

pub proof fn lemma_smap_get_none<V>(m: Seq<(Seq<char>, V)>, k: Seq<char>)
    requires
        forall|j: int| 0 <= j < m.len() ==> m[j].0 != k,
    ensures
        smap_get(m, k) is None,
    decreases m.len(),
{
    if m.len() > 0 {
        lemma_smap_get_none(m.drop_first(), k);
    }
}

/// In a sorted map the entry for `k` is the one at the index holding `k`.
pub proof fn lemma_smap_get_sorted<V>(m: Seq<(Seq<char>, V)>, i: int)
    requires
        smap_sorted(m),
        0 <= i < m.len(),
    ensures
        smap_get(m, m[i].0) == Some(m[i].1),
{
    assert forall|j: int| 0 <= j < i implies m[j].0 != m[i].0 by {
        assert(seq_less(smap_keys(m)[j], smap_keys(m)[i]));
        lemma_seq_less_irrefl(m[i].0);
    };
    lemma_smap_get_index(m, m[i].0, i);
}

proof fn lemma_smap_insert_at<V>(m: Seq<(Seq<char>, V)>, k: Seq<char>, v: V, i: int)
    requires
        smap_sorted(m),
        0 <= i <= m.len(),
        forall|j: int| 0 <= j < i ==> seq_less(#[trigger] m[j].0, k),
        i < m.len() ==> !seq_less(m[i].0, k),
    ensures
        i < m.len() && m[i].0 == k ==> smap_insert(m, k, v) == m.take(i) + seq![(k, v)] + m.skip(
            i + 1,
        ),
        !(i < m.len() && m[i].0 == k) ==> smap_insert(m, k, v) == m.take(i) + seq![(k, v)]
            + m.skip(i),
    decreases i,
{
    if i == 0 {
        if m.len() > 0 {
            if m[0].0 != k {
                lemma_seq_less_total(m[0].0, k);
            }
        }
        assert(m.take(0) + seq![(k, v)] + m.skip(1) =~= seq![(k, v)] + m.drop_first());
        assert(m.take(0) + seq![(k, v)] + m.skip(0) =~= seq![(k, v)] + m);
    } else {
        let t = m.drop_first();
        assert(seq_less(m[0].0, k));
        lemma_seq_less_irrefl(k);
        lemma_seq_less_asym(m[0].0, k);
        assert forall|a: int, b: int| 0 <= a < b < t.len() implies seq_less(
            #[trigger] smap_keys(t)[a],
            #[trigger] smap_keys(t)[b],
        ) by {
            assert(smap_keys(t)[a] == smap_keys(m)[a + 1]);
            assert(smap_keys(t)[b] == smap_keys(m)[b + 1]);
        };
        lemma_smap_insert_at(t, k, v, i - 1);
        assert(m.take(i) =~= seq![m[0]] + t.take(i - 1));
        if i < m.len() {
            assert(m.skip(i + 1) =~= t.skip(i));
        }
        assert(m.skip(i) =~= t.skip(i - 1));
    }
}

/// Inserting into a sorted map leaves it sorted and holding `k`.
pub proof fn lemma_smap_insert_sorted<V>(m: Seq<(Seq<char>, V)>, k: Seq<char>, v: V)
    requires
        smap_sorted(m),
    ensures
        smap_sorted(smap_insert(m, k, v)),
        smap_get(smap_insert(m, k, v), k) == Some(v),
        forall|k2: Seq<char>| k2 != k ==> smap_get(#[trigger] smap_insert(m, k, v), k2) == smap_get(
            m,
            k2,
        ),
    decreases m.len(),
{
    let r = smap_insert(m, k, v);
    if m.len() == 0 {
        assert forall|k2: Seq<char>| k2 != k implies smap_get(#[trigger] smap_insert(m, k, v), k2)
            == smap_get(m, k2) by {
            assert(r =~= seq![(k, v)]);
            assert(r[0].0 == k);
            assert(r.drop_first().len() == 0);
            assert(smap_get(r.drop_first(), k2) is None);
        };
    } else if m[0].0 == k {
        let t = m.drop_first();
        assert forall|a: int, b: int| 0 <= a < b < r.len() implies seq_less(
            #[trigger] smap_keys(r)[a],
            #[trigger] smap_keys(r)[b],
        ) by {
            assert(smap_keys(r)[a] == smap_keys(m)[a]);
            assert(smap_keys(r)[b] == smap_keys(m)[b]);
        };
        assert forall|k2: Seq<char>| k2 != k implies smap_get(#[trigger] smap_insert(m, k, v), k2)
            == smap_get(m, k2) by {
            assert(r.drop_first() =~= t);
        };
    } else if seq_less(k, m[0].0) {
        assert forall|a: int, b: int| 0 <= a < b < r.len() implies seq_less(
            #[trigger] smap_keys(r)[a],
            #[trigger] smap_keys(r)[b],
        ) by {
            if a == 0 {
                assert(smap_keys(r)[0] == k);
                if b > 1 {
                    assert(smap_keys(m)[0] == m[0].0);
                    assert(seq_less(smap_keys(m)[0], smap_keys(m)[b - 1]));
                    lemma_seq_less_trans(k, m[0].0, smap_keys(r)[b]);
                }
            } else {
                assert(smap_keys(r)[a] == smap_keys(m)[a - 1]);
                assert(smap_keys(r)[b] == smap_keys(m)[b - 1]);
            }
        };
        assert forall|k2: Seq<char>| k2 != k implies smap_get(#[trigger] smap_insert(m, k, v), k2)
            == smap_get(m, k2) by {
            assert(r.drop_first() =~= m);
        };
    } else {
        let t = m.drop_first();
        assert forall|a: int, b: int| 0 <= a < b < t.len() implies seq_less(
            #[trigger] smap_keys(t)[a],
            #[trigger] smap_keys(t)[b],
        ) by {
            assert(smap_keys(t)[a] == smap_keys(m)[a + 1]);
            assert(smap_keys(t)[b] == smap_keys(m)[b + 1]);
        };
        lemma_smap_insert_sorted(t, k, v);
        let rt = smap_insert(t, k, v);
        assert(r =~= seq![m[0]] + rt);
        lemma_seq_less_total(k, m[0].0);
        assert(seq_less(m[0].0, k));
        // every key of rt is either k or a key of t, all above m[0].0
        assert forall|b: int| 0 <= b < rt.len() implies seq_less(m[0].0, #[trigger] rt[b].0) by {
            if rt[b].0 != k {
                let kb = rt[b].0;
                lemma_smap_get_sorted(rt, b);
                assert(smap_get(t, kb) is Some);
                lemma_smap_has_index(t, kb);
                let j = choose|j: int| 0 <= j < t.len() && t[j].0 == kb;
                assert(smap_keys(m)[j + 1] == kb);
                assert(smap_keys(m)[0] == m[0].0);
            }
        };
        assert forall|a: int, b: int| 0 <= a < b < r.len() implies seq_less(
            #[trigger] smap_keys(r)[a],
            #[trigger] smap_keys(r)[b],
        ) by {
            if a == 0 {
                assert(smap_keys(r)[b] == rt[b - 1].0);
            } else {
                assert(smap_keys(r)[a] == smap_keys(rt)[a - 1]);
                assert(smap_keys(r)[b] == smap_keys(rt)[b - 1]);
            }
        };
        assert(r.drop_first() =~= rt);
        lemma_seq_less_irrefl(k);
        assert forall|k2: Seq<char>| k2 != k implies smap_get(#[trigger] smap_insert(m, k, v), k2)
            == smap_get(m, k2) by {
            assert(smap_insert(m, k, v) == r);
            assert(r[0] == m[0]);
            assert(r.drop_first() =~= rt);
            assert(smap_get(rt, k2) == smap_get(t, k2));
        };
    }
}

/// Re-inserting the entries of a sorted map in order rebuilds it.
pub proof fn lemma_smap_append_sorted<V>(m: Seq<(Seq<char>, V)>, i: int)
    requires
        smap_sorted(m),
        0 <= i < m.len(),
    ensures
        smap_insert(m.take(i), m[i].0, m[i].1) == m.take(i + 1),
{
    let t = m.take(i);
    assert forall|a: int, b: int| 0 <= a < b < t.len() implies seq_less(
        #[trigger] smap_keys(t)[a],
        #[trigger] smap_keys(t)[b],
    ) by {
        assert(smap_keys(t)[a] == smap_keys(m)[a]);
        assert(smap_keys(t)[b] == smap_keys(m)[b]);
    };
    assert forall|j: int| 0 <= j < i implies seq_less(#[trigger] t[j].0, m[i].0) by {
        assert(smap_keys(m)[j] == t[j].0);
        assert(smap_keys(m)[i] == m[i].0);
    };
    lemma_smap_insert_at(t, m[i].0, m[i].1, i);
    assert(t.take(i) + seq![(m[i].0, m[i].1)] + t.skip(i) =~= m.take(i + 1));
}

/// Inserting a key above every key of a sorted map appends it.
pub proof fn lemma_smap_insert_last<V>(m: Seq<(Seq<char>, V)>, k: Seq<char>, v: V)
    requires
        smap_sorted(m),
        forall|j: int| 0 <= j < m.len() ==> seq_less(#[trigger] m[j].0, k),
    ensures
        smap_insert(m, k, v) == m.push((k, v)),
{
    lemma_smap_insert_at(m, k, v, m.len() as int);
    assert(m.take(m.len() as int) + seq![(k, v)] + m.skip(m.len() as int) =~= m.push((k, v)));
}

/// A key found by `smap_get` sits at some index.
pub proof fn lemma_smap_has_index<V>(m: Seq<(Seq<char>, V)>, k: Seq<char>)
    requires
        smap_get(m, k) is Some,
    ensures
        exists|j: int| 0 <= j < m.len() && m[j].0 == k && smap_get(m, k) == Some(m[j].1),
    decreases m.len(),
{
    if m[0].0 == k {
        assert(m[0].0 == k);
    } else {
        lemma_smap_has_index(m.drop_first(), k);
        let j = choose|j: int|
            0 <= j < m.drop_first().len() && m.drop_first()[j].0 == k && smap_get(
                m.drop_first(),
                k,
            ) == Some(m.drop_first()[j].1);
        assert(m[j + 1].0 == k);
    }
}

/// A key has an entry exactly when it is one of the keys.
pub proof fn lemma_smap_has_iff<V>(m: Seq<(Seq<char>, V)>, k: Seq<char>)
    ensures
        smap_has(m, k) <==> smap_keys(m).contains(k),
    decreases m.len(),
{
    if m.len() > 0 {
        lemma_smap_has_iff(m.drop_first(), k);
        if m[0].0 == k {
            assert(smap_keys(m)[0] == k);
        } else {
            if smap_keys(m.drop_first()).contains(k) {
                let j = choose|j: int|
                    0 <= j < smap_keys(m.drop_first()).len() && smap_keys(m.drop_first())[j] == k;
                assert(smap_keys(m)[j + 1] == k);
            }
            if smap_keys(m).contains(k) {
                let j = choose|j: int| 0 <= j < smap_keys(m).len() && smap_keys(m)[j] == k;
                assert(j != 0);
                assert(smap_keys(m.drop_first())[j - 1] == k);
            }
        }
    }
}

/// Inserting adds exactly the new key to the key set.
pub proof fn lemma_smap_insert_keys<V>(m: Seq<(Seq<char>, V)>, k: Seq<char>, v: V)
    requires
        smap_sorted(m),
    ensures
        smap_keys(smap_insert(m, k, v)).to_set() == smap_keys(m).to_set().insert(k),
{
    lemma_smap_insert_sorted(m, k, v);
    let r = smap_insert(m, k, v);
    assert forall|x: Seq<char>| smap_keys(r).to_set().contains(x) <==> smap_keys(
        m,
    ).to_set().insert(k).contains(x) by {
        lemma_smap_has_iff(r, x);
        lemma_smap_has_iff(m, x);
    };
    assert(smap_keys(r).to_set() =~= smap_keys(m).to_set().insert(k));
}

/// The strictly sorted sequence of a finite set of strings.
pub open spec fn sorted_set(s: Set<Seq<char>>) -> Seq<Seq<char>> {
    choose|q: Seq<Seq<char>>| strictly_sorted(q) && q.to_set() == s
}

/// Two strictly sorted sequences with the same elements are equal.
pub proof fn lemma_sorted_unique(a: Seq<Seq<char>>, b: Seq<Seq<char>>)
    requires
        strictly_sorted(a),
        strictly_sorted(b),
        a.to_set() == b.to_set(),
    ensures
        a == b,
    decreases a.len(),
{
    if a.len() == 0 {
        if b.len() > 0 {
            assert(b.to_set().contains(b[0]));
        }
        assert(a =~= b);
    } else {
        assert(a.to_set().contains(a[0]));
        assert(b.len() > 0);
        assert(b.to_set().contains(b[0]));
        let j = choose|j: int| 0 <= j < b.len() && b[j] == a[0];
        let k = choose|k: int| 0 <= k < a.len() && a[k] == b[0];
        if a[0] != b[0] {
            assert(j > 0 && k > 0);
            assert(seq_less(b[0], b[j]));
            assert(seq_less(a[0], a[k]));
            lemma_seq_less_asym(a[0], b[0]);
        }
        let a2 = a.drop_first();
        let b2 = b.drop_first();
        assert forall|x: Seq<char>| a2.to_set().contains(x) <==> b2.to_set().contains(x) by {
            if a2.contains(x) {
                let i = choose|i: int| 0 <= i < a2.len() && a2[i] == x;
                assert(a[i + 1] == x);
                assert(seq_less(a[0], a[i + 1]));
                lemma_seq_less_irrefl(x);
                assert(b.to_set().contains(x));
                let i2 = choose|i2: int| 0 <= i2 < b.len() && b[i2] == x;
                assert(i2 != 0);
                assert(b2[i2 - 1] == x);
            }
            if b2.contains(x) {
                let i = choose|i: int| 0 <= i < b2.len() && b2[i] == x;
                assert(b[i + 1] == x);
                assert(seq_less(b[0], b[i + 1]));
                lemma_seq_less_irrefl(x);
                assert(a.to_set().contains(x));
                let i2 = choose|i2: int| 0 <= i2 < a.len() && a[i2] == x;
                assert(i2 != 0);
                assert(a2[i2 - 1] == x);
            }
        };
        assert(a2.to_set() =~= b2.to_set());
        lemma_sorted_unique(a2, b2);
        assert(a =~= seq![a[0]] + a2);
        assert(b =~= seq![b[0]] + b2);
    }
}

/// Every finite set of strings has a strictly sorted enumeration.
pub proof fn lemma_sorted_set_exists(s: Set<Seq<char>>)
    requires
        s.finite(),
    ensures
        strictly_sorted(sorted_set(s)),
        sorted_set(s).to_set() == s,
    decreases s.len(),
{
    if s.len() == 0 {
        let q = Seq::<Seq<char>>::empty();
        assert(s =~= Set::<Seq<char>>::empty());
        assert(q.to_set() =~= s);
        assert(strictly_sorted(q) && q.to_set() == s);
    } else {
        let x = s.choose();
        let r = s.remove(x);
        lemma_sorted_set_exists(r);
        let q = sorted_set(r);
        let m = q.map_values(|k: Seq<char>| (k, ()));
        assert(smap_keys(m) =~= q);
        lemma_smap_insert_sorted(m, x, ());
        lemma_smap_insert_keys(m, x, ());
        let q2 = smap_keys(smap_insert(m, x, ()));
        assert(q2.to_set() =~= s);
        assert(strictly_sorted(q2) && q2.to_set() == s);
    }
}

/// The keys of a sorted map are its set's sorted sequence.
pub proof fn lemma_keys_are_sorted_set<V>(m: Seq<(Seq<char>, V)>)
    requires
        smap_sorted(m),
    ensures
        sorted_set(smap_keys(m).to_set()) == smap_keys(m),
{
    let q = sorted_set(smap_keys(m).to_set());
    assert(strictly_sorted(smap_keys(m)) && smap_keys(m).to_set() == smap_keys(m).to_set());
    lemma_sorted_unique(q, smap_keys(m));
}

/// A map with `String` keys kept in `String` order.
pub struct StrMap<T: View> {
    entries: Vec<(String, T)>,
}

impl<T: View> View for StrMap<T> {
    type V = Seq<(Seq<char>, T::V)>;

    closed spec fn view(&self) -> Seq<(Seq<char>, T::V)> {
        self.entries@.map_values(|e: (String, T)| (e.0@, e.1@))
    }
}

impl<T: View> StrMap<T> {
    /// The entries are in strictly increasing key order.
    #[verifier::type_invariant]
    pub open spec fn inv(self) -> bool {
        smap_sorted(self@)
    }

    /// An empty map.
    pub fn new() -> (m: Self)
        ensures
            m@ == Seq::<(Seq<char>, T::V)>::empty(),
    {
        let m = StrMap { entries: Vec::new() };
        assert(m@ =~= Seq::<(Seq<char>, T::V)>::empty());
        m
    }

    /// The number of entries.
    pub fn len(&self) -> (n: usize)
        ensures
            n == self@.len(),
    {
        self.entries.len()
    }

    /// The key of the `i`-th entry in key order.
    pub fn key_at(&self, i: usize) -> (k: &String)
        requires
            i < self@.len(),
        ensures
            k@ == self@[i as int].0,
    {
        &self.entries[i].0
    }

    /// The value of the `i`-th entry in key order.
    pub fn value_at(&self, i: usize) -> (v: &T)
        requires
            i < self@.len(),
        ensures
            v@ == self@[i as int].1,
    {
        &self.entries[i].1
    }

    /// The value stored under `k`.
    pub fn get(&self, k: &str) -> (r: Option<&T>)
        ensures
            match r {
                Some(v) => smap_get(self@, k@) == Some(v@),
                None => smap_get(self@, k@) is None,
            },
    {
        let mut i: usize = 0;
        while i < self.entries.len()
            invariant
                i <= self.entries.len(),
                forall|j: int| 0 <= j < i ==> self@[j].0 != k@,
            decreases self.entries.len() - i,
        {
            if compare_str(self.entries[i].0.as_str(), k) == 0 {
                proof {
                    lemma_smap_get_index(self@, k@, i as int);
                }
                return Some(&self.entries[i].1);
            }
            i += 1;
        }
        proof {
            lemma_smap_get_none(self@, k@);
        }
        None
    }

    /// Whether `k` has an entry.
    pub fn contains_key(&self, k: &str) -> (r: bool)
        ensures
            r == smap_has(self@, k@),
    {
        self.get(k).is_some()
    }

    /// Replaces the value of the `i`-th entry, keeping its key.
    pub fn set_value_at(&mut self, i: usize, v: T)
        requires
            i < old(self)@.len(),
        ensures
            final(self)@ == old(self)@.update(i as int, (old(self)@[i as int].0, v@)),
    {
        proof {
            use_type_invariant(&*self);
        }
        let ghost old_view = self@;
        let ghost vv = v@;
        let mut entries = Vec::new();
        std::mem::swap(&mut entries, &mut self.entries);
        let k = entries[i].0.clone();
        entries.set(i, (k, v));
        proof {
            let nv = entries@.map_values(|e: (String, T)| (e.0@, e.1@));
            assert(nv =~= old_view.update(i as int, (old_view[i as int].0, vv)));
            assert(smap_keys(nv) =~= smap_keys(old_view));
        }
        self.entries = entries;
    }

    /// Sets `k` to `v`.
    pub fn insert(&mut self, k: String, v: T)
        ensures
            final(self)@ == smap_insert(old(self)@, k@, v@),
    {
        proof {
            use_type_invariant(&*self);
        }
        let ghost old_view = self@;
        let mut i: usize = 0;
        while i < self.entries.len() && compare_str(self.entries[i].0.as_str(), k.as_str()) < 0
            invariant
                i <= self.entries.len(),
                self@ == old_view,
                forall|j: int| 0 <= j < i ==> seq_less(#[trigger] old_view[j].0, k@),
            decreases self.entries.len() - i,
        {
            i += 1;
        }
        let ghost kv = k@;
        let ghost vv = v@;
        let same = i < self.entries.len() && compare_str(self.entries[i].0.as_str(), k.as_str())
            == 0;
        proof {
            lemma_smap_insert_at(old_view, kv, vv, i as int);
            lemma_smap_insert_sorted(old_view, kv, vv);
        }
        let mut entries = Vec::new();
        std::mem::swap(&mut entries, &mut self.entries);
        if same {
            entries.set(i, (k, v));
            proof {
                let nv = entries@.map_values(|e: (String, T)| (e.0@, e.1@));
                assert(nv =~= old_view.take(i as int) + seq![(kv, vv)] + old_view.skip(i + 1));
            }
        } else {
            entries.insert(i, (k, v));
            proof {
                let nv = entries@.map_values(|e: (String, T)| (e.0@, e.1@));
                assert(nv =~= old_view.take(i as int) + seq![(kv, vv)] + old_view.skip(i as int));
            }
        }
        self.entries = entries;
    }
}

} // verus!
