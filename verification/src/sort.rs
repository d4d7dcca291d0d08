//! Stable sorting by a `String` key (what `sort_by(|a, b| a.k.cmp(&b.k))`
//! does), defined as insertion sort over the models.
use vstd::prelude::*;

use crate::text::{compare_str, lemma_seq_less_asym, lemma_seq_less_total, seq_less};

verus! {

/// Values that are sorted by a `String` key.
pub trait SortKey: View + Sized {
    /// The key of a model.
    spec fn key_of(v: Self::V) -> Seq<char>;

    /// The key of a value.
    fn sort_key(&self) -> (k: &String)
        ensures
            k@ == Self::key_of(self@),
    ;
}

/// `x` inserted into `s` after every element whose key is not above its key.
pub open spec fn ins_stable<V>(s: Seq<V>, x: V, key: spec_fn(V) -> Seq<char>) -> Seq<V>
    decreases s.len(),
{
    if s.len() == 0 {
        seq![x]
    } else if seq_less(key(x), key(s.last())) {
        ins_stable(s.drop_last(), x, key).push(s.last())
    } else {
        s.push(x)
    }
}

/// The stable sort of `s` by `key`.
pub open spec fn sort_stable<V>(s: Seq<V>, key: spec_fn(V) -> Seq<char>) -> Seq<V>
    decreases s.len(),
{
    if s.len() == 0 {
        s
    } else {
        ins_stable(sort_stable(s.drop_last(), key), s.last(), key)
    }
}

/// Keys never decrease along the sequence.
pub open spec fn key_sorted<V>(s: Seq<V>, key: spec_fn(V) -> Seq<char>) -> bool {
    forall|i: int, j: int| 0 <= i < j < s.len() ==> !seq_less(key(s[j]), key(s[i]))
}

proof fn lemma_ins_at<V>(s: Seq<V>, x: V, key: spec_fn(V) -> Seq<char>, j: int)
    requires
        0 <= j <= s.len(),
        forall|m: int| j <= m < s.len() ==> seq_less(key(x), key(#[trigger] s[m])),
        j > 0 ==> !seq_less(key(x), key(s[j - 1])),
    ensures
        ins_stable(s, x, key) == s.take(j) + seq![x] + s.skip(j),
    decreases s.len(),
{
    if s.len() == 0 {
        assert(s.take(j) + seq![x] + s.skip(j) =~= seq![x]);
    } else if j == s.len() {
        assert(s.take(j) + seq![x] + s.skip(j) =~= s.push(x));
    } else {
        assert(seq_less(key(x), key(s.last())));
        lemma_ins_at(s.drop_last(), x, key, j);
        assert(s.drop_last().take(j) + seq![x] + s.drop_last().skip(j) + seq![s.last()] =~= s.take(
            j,
        ) + seq![x] + s.skip(j));
    }
}

proof fn lemma_ins_sorted<V>(s: Seq<V>, x: V, key: spec_fn(V) -> Seq<char>)
    requires
        key_sorted(s, key),
    ensures
        key_sorted(ins_stable(s, x, key), key),
        ins_stable(s, x, key).to_multiset() == s.to_multiset().insert(x),
    decreases s.len(),
{
    broadcast use vstd::seq_lib::group_to_multiset_ensures;

    if s.len() == 0 {
        assert(seq![x] =~= Seq::<V>::empty().push(x));
    } else if seq_less(key(x), key(s.last())) {
        lemma_ins_sorted(s.drop_last(), x, key);
        let r = ins_stable(s.drop_last(), x, key);
        assert(s.drop_last().push(s.last()) =~= s);
        assert forall|i: int, j: int| 0 <= i < j < r.push(s.last()).len() implies !seq_less(
            key(r.push(s.last())[j]),
            key(r.push(s.last())[i]),
        ) by {
            if j == r.len() {
                let e = r[i];
                assert(r.to_multiset().count(e) > 0);
                assert(r.contains(e));
                assert(s.drop_last().to_multiset().insert(x).count(e) > 0);
                if e == x {
                    lemma_seq_less_asym(key(x), key(s.last()));
                } else {
                    assert(s.drop_last().to_multiset().count(e) > 0);
                    assert(s.drop_last().contains(e));
                    let k = choose|k: int| 0 <= k < s.drop_last().len() && s.drop_last()[k] == e;
                    assert(s[k] == e);
                }
            }
        };
    } else {
        assert forall|i: int, j: int| 0 <= i < j < s.push(x).len() implies !seq_less(
            key(s.push(x)[j]),
            key(s.push(x)[i]),
        ) by {
            if j == s.len() {
                lemma_seq_less_total(key(x), key(s.last()));
                if i < s.len() - 1 {
                    if seq_less(key(x), key(s[i])) {
                        lemma_seq_less_total(key(s[i]), key(s.last()));
                        if seq_less(key(s[i]), key(s.last())) {
                            crate::text::lemma_seq_less_trans(key(x), key(s[i]), key(s.last()));
                        } else if key(s[i]) == key(s.last()) {
                        }
                    }
                }
            }
        };
    }
}

/// The stable sort is sorted by key and a permutation of its input.
pub proof fn lemma_sort_stable<V>(s: Seq<V>, key: spec_fn(V) -> Seq<char>)
    ensures
        key_sorted(sort_stable(s, key), key),
        sort_stable(s, key).to_multiset() == s.to_multiset(),
        sort_stable(s, key).len() == s.len(),
    decreases s.len(),
{
    broadcast use vstd::seq_lib::group_to_multiset_ensures;

    if s.len() > 0 {
        lemma_sort_stable(s.drop_last(), key);
        lemma_ins_sorted(sort_stable(s.drop_last(), key), s.last(), key);
        assert(s.drop_last().push(s.last()) =~= s);
        assert(sort_stable(s, key).len() == sort_stable(s, key).to_multiset().len());
    }
}

/// Two key-sorted sequences with the same elements are equal, when no two
/// different elements share a key.
pub proof fn lemma_sorted_same_elements<V>(s1: Seq<V>, s2: Seq<V>, key: spec_fn(V) -> Seq<char>)
    requires
        key_sorted(s1, key),
        key_sorted(s2, key),
        s1.to_multiset() == s2.to_multiset(),
        forall|x: V, y: V| s1.contains(x) && s1.contains(y) && key(x) == key(y) ==> x == y,
    ensures
        s1 == s2,
    decreases s1.len(),
{
    broadcast use vstd::seq_lib::group_to_multiset_ensures;
    if s1.len() == 0 {
        assert(s2.to_multiset().len() == 0);
        assert(s1 =~= s2);
    } else {
        assert(s1.to_multiset().len() == s1.len());
        assert(s2.to_multiset().len() == s2.len());
        let n = s1.len() as int;
        let a = s1.last();
        let b = s2.last();
        let d1 = s1.drop_last();
        let d2 = s2.drop_last();
        assert(d1.push(a) =~= s1);
        assert(d2.push(b) =~= s2);
        assert(s2.contains(b)) by {
            assert(s2[n - 1] == b);
        };
        assert(s2.to_multiset().count(b) > 0);
        assert(s1.to_multiset().count(b) > 0);
        assert(s1.contains(b));
        let k = choose|k: int| 0 <= k < n && s1[k] == b;
        if k < n - 1 {
            assert(!seq_less(key(s1[n - 1]), key(s1[k])));
        }
        assert(s1.contains(a)) by {
            assert(s1[n - 1] == a);
        };
        assert(s1.to_multiset().count(a) > 0);
        assert(s2.to_multiset().count(a) > 0);
        assert(s2.contains(a));
        let k2 = choose|k2: int| 0 <= k2 < n && s2[k2] == a;
        if k2 < n - 1 {
            assert(!seq_less(key(s2[n - 1]), key(s2[k2])));
        }
        lemma_seq_less_total(key(a), key(b));
        assert(key(a) == key(b));
        assert(a == b);
        assert(d1.to_multiset() =~= d2.to_multiset()) by {
            assert(d1.push(a).to_multiset() =~= d1.to_multiset().insert(a));
            assert(d2.push(b).to_multiset() =~= d2.to_multiset().insert(b));
            assert forall|x: V| d1.to_multiset().count(x) == d2.to_multiset().count(x) by {
                assert(s1.to_multiset().count(x) == s2.to_multiset().count(x));
                assert(d1.to_multiset().insert(a).count(x) == s1.to_multiset().count(x));
                assert(d2.to_multiset().insert(b).count(x) == s2.to_multiset().count(x));
            };
        };
        assert forall|x: V, y: V| d1.contains(x) && d1.contains(y) && key(x) == key(y) implies x
            == y by {
            let i = choose|i: int| 0 <= i < d1.len() && d1[i] == x;
            let j = choose|j: int| 0 <= j < d1.len() && d1[j] == y;
            assert(s1[i] == x);
            assert(s1[j] == y);
            assert(s1.contains(x));
            assert(s1.contains(y));
        };
        assert(key_sorted(d1, key)) by {
            assert forall|i: int, j: int| 0 <= i < j < d1.len() implies !seq_less(key(d1[j]), key(d1[i])) by {
                assert(d1[i] == s1[i] && d1[j] == s1[j]);
            };
        };
        assert(key_sorted(d2, key)) by {
            assert forall|i: int, j: int| 0 <= i < j < d2.len() implies !seq_less(key(d2[j]), key(d2[i])) by {
                assert(d2[i] == s2[i] && d2[j] == s2[j]);
            };
        };
        lemma_sorted_same_elements(d1, d2, key);
    }
}

/// Stably sorts a vector by key.
pub fn sort_by_key<T: SortKey>(v: Vec<T>) -> (out: Vec<T>)
    ensures
        out@.map_values(|t: T| t@) == sort_stable(
            v@.map_values(|t: T| t@),
            |m: T::V| T::key_of(m),
        ),
{
    let ghost key = |m: T::V| T::key_of(m);
    let ghost src = v@.map_values(|t: T| t@);
    let mut out: Vec<T> = Vec::new();
    let mut v = v;
    let n = v.len();
    let mut i: usize = 0;
    assert(src.skip(0) =~= src);
    while v.len() > 0
        invariant
            v@.map_values(|t: T| t@) == src.skip(i as int),
            i <= src.len(),
            src.len() == n,
            out@.map_values(|t: T| t@) == sort_stable(src.take(i as int), key),
            key == (|m: T::V| T::key_of(m)),
        decreases v.len(),
    {
        let ghost before_v = v@;
        assert(before_v.map_values(|t: T| t@).len() == before_v.len());
        assert(i < src.len());
        let x = v.remove(0);
        proof {
            assert(before_v.map_values(|t: T| t@)[0] == x@);
            assert(src.skip(i as int)[0] == src[i as int]);
            assert(v@ =~= before_v.subrange(1, before_v.len() as int));
            let vm = v@.map_values(|t: T| t@);
            assert forall|k: int| 0 <= k < v.len() implies #[trigger] vm[k] == src.skip(i + 1)[k] by {
                assert(v@[k] == before_v[k + 1]);
                assert(before_v.map_values(|t: T| t@)[k + 1] == src.skip(i as int)[k + 1]);
            };
            assert(v@.map_values(|t: T| t@) =~= src.skip(i + 1));
            assert(src.take(i + 1).drop_last() =~= src.take(i as int));
            assert(src.take(i + 1).last() == x@);
        }
        let mut j: usize = out.len();
        while j > 0 && compare_str(x.sort_key().as_str(), out[j - 1].sort_key().as_str()) < 0
            invariant
                j <= out.len(),
                forall|m: int|
                    j <= m < out.len() ==> seq_less(
                        key(x@),
                        key((#[trigger] out@[m])@),
                    ),
                key == (|m: T::V| T::key_of(m)),
            decreases j,
        {
            j -= 1;
        }
        proof {
            let ov = out@.map_values(|t: T| t@);
            if j > 0 {
                assert(ov[j - 1] == out@[j - 1]@);
            }
            lemma_ins_at(ov, x@, key, j as int);
        }
        let ghost ov = out@.map_values(|t: T| t@);
        out.insert(j, x);
        proof {
            assert(out@.map_values(|t: T| t@) =~= ov.take(j as int) + seq![x@] + ov.skip(
                j as int,
            ));
        }
        i += 1;
    }
    proof {
        assert(src.skip(i as int).len() == 0);
        assert(src.take(i as int) =~= src);
    }
    out
}

} // verus!
