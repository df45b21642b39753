//! Canonical ordering of collection elements: strict sortedness, and the
//! sort-then-deduplicate normalization applied to every artifact collection.

use vstd::prelude::*;

use crate::text::{chars_lt, lemma_chars_lt_order, str_order, Rank};

verus! {

/// Elements ordered by a key of their view. Two elements with equal keys are
/// duplicates; the key order must be a strict total order.
pub trait SortKey: View + Sized {
    type Key;

    spec fn key(v: Self::V) -> Self::Key;

    spec fn key_lt(a: Self::Key, b: Self::Key) -> bool;

    proof fn lemma_key_order(a: Self::Key, b: Self::Key, c: Self::Key)
        ensures
            !Self::key_lt(a, a),
            Self::key_lt(a, b) && Self::key_lt(b, c) ==> Self::key_lt(a, c),
            Self::key_lt(a, b) || Self::key_lt(b, a) || a == b,
    ;

    fn key_rank(&self, other: &Self) -> (r: Rank)
        ensures
            r == Rank::Before <==> Self::key_lt(Self::key(self@), Self::key(other@)),
            r == Rank::After <==> Self::key_lt(Self::key(other@), Self::key(self@)),
            r == Rank::Same <==> Self::key(self@) == Self::key(other@),
    ;
}

/// The views of a sequence of values.
pub open spec fn views<T: View>(s: Seq<T>) -> Seq<T::V> {
    s.map_values(|x: T| x@)
}

/// Every element's key is strictly smaller than the keys after it.
pub open spec fn sorted_by_key<T: SortKey>(s: Seq<T::V>) -> bool {
    forall|i: int, j: int| 0 <= i < j < s.len() ==> T::key_lt(T::key(s[i]), T::key(s[j]))
}

/// Insert `x` into the key-sorted `r`, unless an element with its key is present.
pub open spec fn insert_by_key<T: SortKey>(r: Seq<T::V>, x: T::V) -> Seq<T::V>
    decreases r.len(),
{
    if r.len() == 0 {
        seq![x]
    } else if T::key_lt(T::key(x), T::key(r[0])) {
        seq![x] + r
    } else if T::key(x) == T::key(r[0]) {
        r
    } else {
        seq![r[0]] + insert_by_key::<T>(r.drop_first(), x)
    }
}

/// Stable sort by key followed by removal of later duplicates: the first
/// element of each key, in key order.
pub open spec fn sort_dedup<T: SortKey>(s: Seq<T::V>) -> Seq<T::V>
    decreases s.len(),
{
    if s.len() == 0 {
        Seq::empty()
    } else {
        insert_by_key::<T>(sort_dedup::<T>(s.drop_last()), s.last())
    }
}

proof fn lemma_order_all<T: SortKey>()
    ensures
        forall|a: T::Key| !T::key_lt(a, a),
        forall|a: T::Key, b: T::Key| #[trigger] T::key_lt(a, b) ==> !T::key_lt(b, a),
        forall|a: T::Key, b: T::Key, c: T::Key|
            #[trigger] T::key_lt(a, b) && #[trigger] T::key_lt(b, c) ==> T::key_lt(a, c),
{
    assert forall|a: T::Key| !T::key_lt(a, a) by {
        T::lemma_key_order(a, a, a);
    }
    assert forall|a: T::Key, b: T::Key| #[trigger] T::key_lt(a, b) implies !T::key_lt(b, a) by {
        T::lemma_key_order(a, b, a);
    }
    assert forall|a: T::Key, b: T::Key, c: T::Key|
        #[trigger] T::key_lt(a, b) && #[trigger] T::key_lt(b, c) implies T::key_lt(a, c) by {
        T::lemma_key_order(a, b, c);
    }
}

/// Where `insert_by_key` puts `x`: at the first position whose key is not
/// below `x`'s, unless that position already holds `x`'s key.
pub proof fn lemma_insert_position<T: SortKey>(r: Seq<T::V>, x: T::V, p: int)
    requires
        sorted_by_key::<T>(r),
        0 <= p <= r.len(),
        forall|i: int| 0 <= i < p ==> T::key_lt(T::key(#[trigger] r[i]), T::key(x)),
        p < r.len() ==> !T::key_lt(T::key(r[p]), T::key(x)),
    ensures
        insert_by_key::<T>(r, x) == (if p < r.len() && T::key(r[p]) == T::key(x) {
            r
        } else {
            r.take(p).push(x) + r.skip(p)
        }),
    decreases r.len(),
{
    lemma_order_all::<T>();
    if r.len() == 0 {
        assert(r.take(p).push(x) + r.skip(p) =~= seq![x]);
    } else if p == 0 {
        T::lemma_key_order(T::key(x), T::key(r[0]), T::key(x));
        assert(r.take(p).push(x) + r.skip(p) =~= seq![x] + r);
    } else {
        assert(T::key_lt(T::key(r[0]), T::key(x)));
        let r1 = r.drop_first();
        assert forall|i: int| 0 <= i < p - 1 implies T::key_lt(T::key(#[trigger] r1[i]), T::key(x)) by {
            assert(r1[i] == r[i + 1]);
        }
        lemma_insert_position::<T>(r1, x, p - 1);
        if p < r.len() && T::key(r[p]) == T::key(x) {
            assert(seq![r[0]] + r1 =~= r);
        } else {
            assert(seq![r[0]] + (r1.take(p - 1).push(x) + r1.skip(p - 1)) =~= r.take(p).push(x)
                + r.skip(p));
        }
    }
}

/// Inserting keeps the sequence sorted, keeps its elements, and leaves an
/// element with `x`'s key.
pub proof fn lemma_insert_props<T: SortKey>(r: Seq<T::V>, x: T::V)
    requires
        sorted_by_key::<T>(r),
    ensures
        sorted_by_key::<T>(insert_by_key::<T>(r, x)),
        forall|v: T::V| #[trigger] insert_by_key::<T>(r, x).contains(v) ==> r.contains(v) || v == x,
        forall|v: T::V| r.contains(v) ==> #[trigger] insert_by_key::<T>(r, x).contains(v),
        exists|i: int|
            0 <= i < insert_by_key::<T>(r, x).len() && T::key(
                #[trigger] insert_by_key::<T>(r, x)[i],
            ) == T::key(x),
    decreases r.len(),
{
    lemma_order_all::<T>();
    let res = insert_by_key::<T>(r, x);
    if r.len() == 0 {
        assert(res[0] == x);
    } else if T::key_lt(T::key(x), T::key(r[0])) {
        assert(res[0] == x);
        assert forall|i: int, j: int| 0 <= i < j < res.len() implies T::key_lt(
            T::key(res[i]),
            T::key(res[j]),
        ) by {
            if i == 0 {
                assert(res[j] == r[j - 1]);
                if j > 1 {
                    T::lemma_key_order(T::key(x), T::key(r[0]), T::key(r[j - 1]));
                }
            } else {
                assert(res[i] == r[i - 1]);
                assert(res[j] == r[j - 1]);
            }
        }
        assert forall|v: T::V| r.contains(v) implies #[trigger] res.contains(v) by {
            let k = choose|k: int| 0 <= k < r.len() && r[k] == v;
            assert(res[k + 1] == v);
        }
    } else if T::key(x) == T::key(r[0]) {
        assert(res[0] == r[0]);
    } else {
        T::lemma_key_order(T::key(x), T::key(r[0]), T::key(x));
        let r1 = r.drop_first();
        lemma_insert_props::<T>(r1, x);
        let sub = insert_by_key::<T>(r1, x);
        assert(res == seq![r[0]] + sub);
        assert forall|j: int| 0 <= j < sub.len() implies T::key_lt(
            T::key(r[0]),
            T::key(#[trigger] sub[j]),
        ) by {
            assert(sub.contains(sub[j]));
            if sub[j] != x {
                let k = choose|k: int| 0 <= k < r1.len() && r1[k] == sub[j];
                assert(r1[k] == r[k + 1]);
            }
        }
        assert forall|i: int, j: int| 0 <= i < j < res.len() implies T::key_lt(
            T::key(res[i]),
            T::key(res[j]),
        ) by {
            if i == 0 {
                assert(res[j] == sub[j - 1]);
            } else {
                assert(res[i] == sub[i - 1]);
                assert(res[j] == sub[j - 1]);
            }
        }
        assert forall|v: T::V| #[trigger] res.contains(v) implies r.contains(v) || v == x by {
            let k = choose|k: int| 0 <= k < res.len() && res[k] == v;
            if k > 0 {
                assert(sub[k - 1] == v);
                assert(sub.contains(v));
                if v != x {
                    let m = choose|m: int| 0 <= m < r1.len() && r1[m] == v;
                    assert(r[m + 1] == v);
                }
            } else {
                assert(r[0] == v);
            }
        }
        assert forall|v: T::V| r.contains(v) implies #[trigger] res.contains(v) by {
            let k = choose|k: int| 0 <= k < r.len() && r[k] == v;
            if k == 0 {
                assert(res[0] == v);
            } else {
                assert(r1[k - 1] == v);
                assert(r1.contains(v));
                assert(sub.contains(v));
                let m = choose|m: int| 0 <= m < sub.len() && sub[m] == v;
                assert(res[m + 1] == v);
            }
        }
        let i = choose|i: int| 0 <= i < sub.len() && T::key(#[trigger] sub[i]) == T::key(x);
        assert(res[i + 1] == sub[i]);
    }
}

/// The normalized sequence is sorted and unique by key, holds only elements
/// of the input, and holds an element of every input key.
pub proof fn lemma_sort_dedup_props<T: SortKey>(s: Seq<T::V>)
    ensures
        sorted_by_key::<T>(sort_dedup::<T>(s)),
        forall|v: T::V| #[trigger] sort_dedup::<T>(s).contains(v) ==> s.contains(v),
        forall|i: int|
            0 <= i < s.len() ==> exists|j: int|
                0 <= j < sort_dedup::<T>(s).len() && T::key(#[trigger] sort_dedup::<T>(s)[j])
                    == T::key(#[trigger] s[i]),
    decreases s.len(),
{
    if s.len() > 0 {
        let s1 = s.drop_last();
        lemma_sort_dedup_props::<T>(s1);
        let r1 = sort_dedup::<T>(s1);
        lemma_insert_props::<T>(r1, s.last());
        let r = sort_dedup::<T>(s);
        assert forall|v: T::V| #[trigger] r.contains(v) implies s.contains(v) by {
            if r1.contains(v) {
                let k = choose|k: int| 0 <= k < s1.len() && s1[k] == v;
                assert(s[k] == v);
            } else {
                assert(s[s.len() - 1] == v);
            }
        }
        assert forall|i: int| 0 <= i < s.len() implies exists|j: int|
            0 <= j < r.len() && T::key(#[trigger] r[j]) == T::key(#[trigger] s[i]) by {
            if i < s.len() - 1 {
                assert(s1[i] == s[i]);
                let j1 = choose|j: int| 0 <= j < r1.len() && T::key(#[trigger] r1[j]) == T::key(s1[i]);
                assert(r1.contains(r1[j1]));
                assert(r.contains(r1[j1]));
            }
        }
    }
}

/// Normalizing an already sorted, duplicate-free sequence changes nothing.
pub proof fn lemma_sort_dedup_sorted<T: SortKey>(s: Seq<T::V>)
    requires
        sorted_by_key::<T>(s),
    ensures
        sort_dedup::<T>(s) == s,
    decreases s.len(),
{
    if s.len() > 0 {
        let s1 = s.drop_last();
        assert(sorted_by_key::<T>(s1));
        lemma_sort_dedup_sorted::<T>(s1);
        let n = s1.len() as int;
        assert forall|i: int| 0 <= i < n implies T::key_lt(T::key(#[trigger] s1[i]), T::key(s.last())) by {
            assert(s1[i] == s[i]);
        }
        lemma_insert_position::<T>(s1, s.last(), n);
        assert(s1.take(n).push(s.last()) + s1.skip(n) =~= s);
    }
}

proof fn lemma_adjacent_chain<T: SortKey>(s: Seq<T::V>, i: int, j: int)
    requires
        0 <= i < j < s.len(),
        forall|m: int| 0 <= m < s.len() - 1 ==> T::key_lt(T::key(#[trigger] s[m]), T::key(s[m + 1])),
    ensures
        T::key_lt(T::key(s[i]), T::key(s[j])),
    decreases j - i,
{
    if j > i + 1 {
        lemma_adjacent_chain::<T>(s, i, j - 1);
        assert(T::key_lt(T::key(s[j - 1]), T::key(s[j])));
        T::lemma_key_order(T::key(s[i]), T::key(s[j - 1]), T::key(s[j]));
    }
}

/// Adjacent strict order is enough for a strictly sorted sequence.
proof fn lemma_adjacent_sorted<T: SortKey>(s: Seq<T::V>)
    requires
        forall|i: int| 0 <= i < s.len() - 1 ==> T::key_lt(T::key(#[trigger] s[i]), T::key(s[i + 1])),
    ensures
        sorted_by_key::<T>(s),
{
    assert forall|i: int, j: int| 0 <= i < j < s.len() implies T::key_lt(
        T::key(s[i]),
        T::key(s[j]),
    ) by {
        lemma_adjacent_chain::<T>(s, i, j);
    }
}

/// Two strictly sorted sequences that hold the same elements are equal.
pub proof fn lemma_sorted_same_elements<T: SortKey>(a: Seq<T::V>, b: Seq<T::V>)
    requires
        sorted_by_key::<T>(a),
        sorted_by_key::<T>(b),
        forall|v: T::V| a.contains(v) <==> b.contains(v),
    ensures
        a == b,
    decreases a.len(),
{
    lemma_order_all::<T>();
    if a.len() == 0 {
        if b.len() > 0 {
            assert(b.contains(b[0]));
        }
        assert(a =~= b);
    } else if b.len() == 0 {
        assert(a.contains(a[0]));
    } else {
        assert(a.contains(a[0]));
        assert(b.contains(b[0]));
        let j = choose|j: int| 0 <= j < b.len() && b[j] == a[0];
        let i = choose|i: int| 0 <= i < a.len() && a[i] == b[0];
        if a[0] != b[0] {
            assert(j > 0);
            assert(i > 0);
            assert(T::key_lt(T::key(b[0]), T::key(b[j])));
            assert(T::key_lt(T::key(a[0]), T::key(a[i])));
        }
        let a1 = a.drop_first();
        let b1 = b.drop_first();
        assert forall|v: T::V| a1.contains(v) <==> b1.contains(v) by {
            if a1.contains(v) {
                let k = choose|k: int| 0 <= k < a1.len() && a1[k] == v;
                assert(a[k + 1] == v);
                assert(a.contains(v));
                assert(b.contains(v));
                let m = choose|m: int| 0 <= m < b.len() && b[m] == v;
                if m == 0 {
                    assert(T::key_lt(T::key(a[0]), T::key(a[k + 1])));
                }
                assert(b1[m - 1] == v);
            }
            if b1.contains(v) {
                let k = choose|k: int| 0 <= k < b1.len() && b1[k] == v;
                assert(b[k + 1] == v);
                assert(b.contains(v));
                assert(a.contains(v));
                let m = choose|m: int| 0 <= m < a.len() && a[m] == v;
                if m == 0 {
                    assert(T::key_lt(T::key(b[0]), T::key(b[k + 1])));
                }
                assert(a1[m - 1] == v);
            }
        }
        assert(sorted_by_key::<T>(a1)) by {
            assert forall|p: int, q: int| 0 <= p < q < a1.len() implies T::key_lt(T::key(a1[p]), T::key(a1[q])) by {
                assert(a1[p] == a[p + 1]);
                assert(a1[q] == a[q + 1]);
            }
        }
        assert(sorted_by_key::<T>(b1)) by {
            assert forall|p: int, q: int| 0 <= p < q < b1.len() implies T::key_lt(T::key(b1[p]), T::key(b1[q])) by {
                assert(b1[p] == b[p + 1]);
                assert(b1[q] == b[q + 1]);
            }
        }
        lemma_sorted_same_elements::<T>(a1, b1);
        assert(a =~= seq![a[0]] + a1);
        assert(b =~= seq![b[0]] + b1);
    }
}

/// Inserting an element whose key is new adds exactly that element.
pub proof fn lemma_insert_fresh_elements<T: SortKey>(r: Seq<T::V>, x: T::V)
    requires
        sorted_by_key::<T>(r),
        forall|i: int| 0 <= i < r.len() ==> T::key(#[trigger] r[i]) != T::key(x),
    ensures
        sorted_by_key::<T>(insert_by_key::<T>(r, x)),
        forall|v: T::V| #[trigger] insert_by_key::<T>(r, x).contains(v) <==> r.contains(v) || v == x,
{
    lemma_insert_props::<T>(r, x);
    let res = insert_by_key::<T>(r, x);
    let i = choose|i: int| 0 <= i < res.len() && T::key(#[trigger] res[i]) == T::key(x);
    assert(res.contains(res[i]));
    if res[i] != x {
        let k = choose|k: int| 0 <= k < r.len() && r[k] == res[i];
    }
    assert(res.contains(x));
}

/// Inserting an element whose key is already present changes nothing.
pub proof fn lemma_insert_present<T: SortKey>(r: Seq<T::V>, x: T::V, i: int)
    requires
        sorted_by_key::<T>(r),
        0 <= i < r.len(),
        T::key(r[i]) == T::key(x),
    ensures
        insert_by_key::<T>(r, x) == r,
    decreases r.len(),
{
    lemma_order_all::<T>();
    if T::key_lt(T::key(x), T::key(r[0])) {
        if i > 0 {
            assert(T::key_lt(T::key(r[0]), T::key(r[i])));
        }
    } else if T::key(x) != T::key(r[0]) {
        let r1 = r.drop_first();
        assert(i > 0);
        assert(r1[i - 1] == r[i]);
        assert(sorted_by_key::<T>(r1)) by {
            assert forall|p: int, q: int| 0 <= p < q < r1.len() implies T::key_lt(T::key(r1[p]), T::key(r1[q])) by {
                assert(r1[p] == r[p + 1]);
                assert(r1[q] == r[q + 1]);
            }
        }
        lemma_insert_present::<T>(r1, x, i - 1);
        assert(seq![r[0]] + r1 =~= r);
    }
}

/// Two elements with different keys can be inserted in either order.
pub proof fn lemma_insert_commutes<T: SortKey>(r: Seq<T::V>, x: T::V, y: T::V)
    requires
        sorted_by_key::<T>(r),
        T::key(x) != T::key(y),
    ensures
        insert_by_key::<T>(insert_by_key::<T>(r, x), y) == insert_by_key::<T>(
            insert_by_key::<T>(r, y),
            x,
        ),
{
    let rx = insert_by_key::<T>(r, x);
    let ry = insert_by_key::<T>(r, y);
    lemma_insert_props::<T>(r, x);
    lemma_insert_props::<T>(r, y);
    if exists|i: int| 0 <= i < r.len() && T::key(#[trigger] r[i]) == T::key(x) {
        let i = choose|i: int| 0 <= i < r.len() && T::key(#[trigger] r[i]) == T::key(x);
        lemma_insert_present::<T>(r, x, i);
        assert(r.contains(r[i]));
        assert(ry.contains(r[i]));
        let j = choose|j: int| 0 <= j < ry.len() && ry[j] == r[i];
        lemma_insert_present::<T>(ry, x, j);
    } else if exists|i: int| 0 <= i < r.len() && T::key(#[trigger] r[i]) == T::key(y) {
        let i = choose|i: int| 0 <= i < r.len() && T::key(#[trigger] r[i]) == T::key(y);
        lemma_insert_present::<T>(r, y, i);
        assert(r.contains(r[i]));
        assert(rx.contains(r[i]));
        let j = choose|j: int| 0 <= j < rx.len() && rx[j] == r[i];
        lemma_insert_present::<T>(rx, y, j);
    } else {
        lemma_insert_fresh_elements::<T>(r, x);
        lemma_insert_fresh_elements::<T>(r, y);
        assert forall|i: int| 0 <= i < rx.len() implies T::key(#[trigger] rx[i]) != T::key(y) by {
            assert(rx.contains(rx[i]));
            if rx[i] != x {
                let k = choose|k: int| 0 <= k < r.len() && r[k] == rx[i];
            }
        }
        assert forall|i: int| 0 <= i < ry.len() implies T::key(#[trigger] ry[i]) != T::key(x) by {
            assert(ry.contains(ry[i]));
            if ry[i] != y {
                let k = choose|k: int| 0 <= k < r.len() && r[k] == ry[i];
            }
        }
        lemma_insert_fresh_elements::<T>(rx, y);
        lemma_insert_fresh_elements::<T>(ry, x);
        let a = insert_by_key::<T>(rx, y);
        let b = insert_by_key::<T>(ry, x);
        assert forall|v: T::V| a.contains(v) <==> b.contains(v) by {
            assert(a.contains(v) <==> rx.contains(v) || v == y);
            assert(b.contains(v) <==> ry.contains(v) || v == x);
            assert(rx.contains(v) <==> r.contains(v) || v == x);
            assert(ry.contains(v) <==> r.contains(v) || v == y);
        }
        lemma_sorted_same_elements::<T>(a, b);
    }
}

/// True when the elements are strictly increasing by key.
pub fn is_sorted_unique<T: SortKey>(s: &[T]) -> (r: bool)
    ensures
        r == sorted_by_key::<T>(views(s@)),
{
    let n = s.len();
    if n < 2 {
        return true;
    }
    let mut i: usize = 0;
    while i + 1 < n
        invariant
            n == s@.len(),
            n >= 2,
            i + 1 <= n,
            forall|k: int| 0 <= k < i ==> T::key_lt(T::key(#[trigger] s@[k]@), T::key(s@[k + 1]@)),
        decreases n - i,
    {
        let rank = s[i].key_rank(&s[i + 1]);
        if rank != Rank::Before {
            proof {
                assert(views(s@)[i as int] == s@[i as int]@);
                assert(views(s@)[i + 1] == s@[i + 1]@);
            }
            return false;
        }
        i += 1;
    }
    proof {
        let v = views(s@);
        assert forall|k: int| 0 <= k < v.len() - 1 implies T::key_lt(T::key(#[trigger] v[k]), T::key(v[k + 1])) by {
            assert(v[k] == s@[k]@);
            assert(v[k + 1] == s@[k + 1]@);
        }
        lemma_adjacent_sorted::<T>(v);
    }
    true
}

/// Sort by key, keeping the first element of each key.
pub fn sort_dedup_vec<T: SortKey>(v: Vec<T>) -> (r: Vec<T>)
    ensures
        views(r@) == sort_dedup::<T>(views(v@)),
{
    let ghost orig = v@;
    assert(orig.len() == v.len());
    let mut rest = v;
    let mut out: Vec<T> = Vec::new();
    let mut k: usize = 0;
    assert(views(orig).take(0) =~= Seq::<T::V>::empty());
    while rest.len() > 0
        invariant
            k + rest@.len() == orig.len(),
            orig.len() <= usize::MAX,
            rest@ == orig.skip(k as int),
            views(out@) == sort_dedup::<T>(views(orig).take(k as int)),
        decreases rest@.len(),
    {
        let x = rest.remove(0);
        proof {
            assert(x == orig[k as int]);
            assert(rest@ =~= orig.skip(k + 1));
            lemma_sort_dedup_props::<T>(views(orig).take(k as int));
            assert(views(orig).take(k + 1).drop_last() =~= views(orig).take(k as int));
            assert(views(orig).take(k + 1).last() == x@);
        }
        let ghost before = views(out@);
        let n = out.len();
        let mut p: usize = 0;
        while p < n && out[p].key_rank(&x) == Rank::Before
            invariant
                n == out@.len(),
                p <= n,
                before == views(out@),
                forall|i: int| 0 <= i < p ==> T::key_lt(T::key(#[trigger] before[i]), T::key(x@)),
            decreases n - p,
        {
            assert(before[p as int] == out@[p as int]@);
            p += 1;
        }
        proof {
            if p < n {
                assert(before[p as int] == out@[p as int]@);
            }
            lemma_insert_position::<T>(before, x@, p as int);
        }
        if p < n && out[p].key_rank(&x) == Rank::Same {
            proof {
                assert(before[p as int] == out@[p as int]@);
            }
        } else {
            out.insert(p, x);
            proof {
                assert(views(out@) =~= before.take(p as int).push(x@) + before.skip(p as int));
            }
        }
        k += 1;
    }
    proof {
        assert(views(orig).take(k as int) =~= views(orig));
    }
    out
}

impl SortKey for u32 {
    type Key = u32;

    open spec fn key(v: u32) -> u32 {
        v
    }

    open spec fn key_lt(a: u32, b: u32) -> bool {
        a < b
    }

    proof fn lemma_key_order(a: u32, b: u32, c: u32) {
    }

    fn key_rank(&self, other: &u32) -> (r: Rank) {
        if *self < *other {
            Rank::Before
        } else if *other < *self {
            Rank::After
        } else {
            Rank::Same
        }
    }
}

impl SortKey for String {
    type Key = Seq<char>;

    open spec fn key(v: Seq<char>) -> Seq<char> {
        v
    }

    open spec fn key_lt(a: Seq<char>, b: Seq<char>) -> bool {
        chars_lt(a, b)
    }

    proof fn lemma_key_order(a: Seq<char>, b: Seq<char>, c: Seq<char>) {
        lemma_chars_lt_order(a, b, c);
    }

    fn key_rank(&self, other: &String) -> (r: Rank) {
        str_order(self.as_str(), other.as_str())
    }
}

} // verus!
