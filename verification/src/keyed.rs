//! Collections kept strictly sorted by a text key: lookup and insertion.

use vstd::prelude::*;

use crate::order::{insert_by_key, lemma_insert_position, lemma_insert_props, sorted_by_key, views, SortKey};
use crate::text::{str_order, Rank};

verus! {

/// Values keyed by a text of their own, ordered by that text.
pub trait Keyed: SortKey<Key = Seq<char>> {
    fn key_str(&self) -> (r: &str)
        ensures
            r@ == Self::key(self@),
    ;
}

/// Some element of `s` has key `k`.
pub open spec fn has_key<T: Keyed>(s: Seq<T::V>, k: Seq<char>) -> bool {
    exists|i: int| 0 <= i < s.len() && T::key(s[i]) == k
}

/// The element of `s` with key `k`, if there is one.
pub open spec fn lookup<T: Keyed>(s: Seq<T::V>, k: Seq<char>) -> Option<T::V> {
    if has_key::<T>(s, k) {
        Some(s[choose|i: int| 0 <= i < s.len() && T::key(s[i]) == k])
    } else {
        None
    }
}

/// In a sorted sequence, the element at a position is what its key looks up.
pub proof fn lemma_lookup_at<T: Keyed>(s: Seq<T::V>, i: int)
    requires
        sorted_by_key::<T>(s),
        0 <= i < s.len(),
    ensures
        lookup::<T>(s, T::key(s[i])) == Some(s[i]),
{
    let k = T::key(s[i]);
    assert(has_key::<T>(s, k));
    let j = choose|j: int| 0 <= j < s.len() && T::key(s[j]) == k;
    T::lemma_key_order(k, k, k);
    if j < i {
        assert(T::key_lt(T::key(s[j]), T::key(s[i])));
    } else if j > i {
        assert(T::key_lt(T::key(s[i]), T::key(s[j])));
    }
    assert(j == i);
    assert(lookup::<T>(s, k) == Some(s[j]));
}

/// Where `x` goes in a sorted sequence that lacks its key, and what the
/// insertion leaves in place.
pub proof fn lemma_insert_fresh<T: Keyed>(s: Seq<T::V>, x: T::V)
    requires
        sorted_by_key::<T>(s),
        !has_key::<T>(s, T::key(x)),
    ensures
        sorted_by_key::<T>(insert_by_key::<T>(s, x)),
        insert_by_key::<T>(s, x).len() == s.len() + 1,
        lookup::<T>(insert_by_key::<T>(s, x), T::key(x)) == Some(x),
        forall|k: Seq<char>| k != T::key(x) ==> #[trigger] lookup::<T>(insert_by_key::<T>(s, x), k)
            == lookup::<T>(s, k),
        forall|k: Seq<char>| #[trigger] has_key::<T>(insert_by_key::<T>(s, x), k) <==> has_key::<T>(s, k) || k
            == T::key(x),
{
    lemma_insert_props::<T>(s, x);
    let r = insert_by_key::<T>(s, x);
    // The position of the first key not below `x`'s.
    let p = first_not_below::<T>(s, T::key(x));
    lemma_first_not_below::<T>(s, T::key(x));
    lemma_insert_position::<T>(s, x, p);
    assert(r == s.take(p).push(x) + s.skip(p));
    assert(r.len() == s.len() + 1);
    assert(r[p] == x);
    lemma_lookup_at::<T>(r, p);
    assert forall|k: Seq<char>| #[trigger] has_key::<T>(r, k) <==> has_key::<T>(s, k) || k == T::key(x) by {
        if has_key::<T>(r, k) {
            let i = choose|i: int| 0 <= i < r.len() && T::key(r[i]) == k;
            if i < p {
                assert(r[i] == s[i]);
            } else if i > p {
                assert(r[i] == s[i - 1]);
            }
        }
        if has_key::<T>(s, k) {
            let i = choose|i: int| 0 <= i < s.len() && T::key(s[i]) == k;
            if i < p {
                assert(r[i] == s[i]);
            } else {
                assert(r[i + 1] == s[i]);
            }
        }
        if k == T::key(x) {
            assert(T::key(r[p]) == k);
        }
    }
    assert forall|k: Seq<char>| k != T::key(x) implies #[trigger] lookup::<T>(r, k) == lookup::<T>(s, k) by {
        if has_key::<T>(s, k) {
            let i = choose|i: int| 0 <= i < s.len() && T::key(s[i]) == k;
            lemma_lookup_at::<T>(s, i);
            if i < p {
                assert(r[i] == s[i]);
                lemma_lookup_at::<T>(r, i);
            } else {
                assert(r[i + 1] == s[i]);
                lemma_lookup_at::<T>(r, i + 1);
            }
        }
    }
}

/// The number of leading elements whose keys are below `k`.
pub open spec fn first_not_below<T: Keyed>(s: Seq<T::V>, k: Seq<char>) -> int
    decreases s.len(),
{
    if s.len() == 0 {
        0
    } else if T::key_lt(T::key(s[0]), k) {
        1 + first_not_below::<T>(s.drop_first(), k)
    } else {
        0
    }
}

pub proof fn lemma_first_not_below<T: Keyed>(s: Seq<T::V>, k: Seq<char>)
    requires
        sorted_by_key::<T>(s),
    ensures
        0 <= first_not_below::<T>(s, k) <= s.len(),
        forall|i: int| 0 <= i < first_not_below::<T>(s, k) ==> T::key_lt(T::key(#[trigger] s[i]), k),
        first_not_below::<T>(s, k) < s.len() ==> !T::key_lt(T::key(s[first_not_below::<T>(s, k)]), k),
    decreases s.len(),
{
    if s.len() > 0 && T::key_lt(T::key(s[0]), k) {
        let s1 = s.drop_first();
        lemma_first_not_below::<T>(s1, k);
        assert forall|i: int| 0 <= i < first_not_below::<T>(s, k) implies T::key_lt(T::key(#[trigger] s[i]), k) by {
            if i > 0 {
                assert(s[i] == s1[i - 1]);
            }
        }
    }
}

/// The position of the element keyed `k`, if any.
pub fn find_key<T: Keyed>(v: &Vec<T>, k: &str) -> (r: Option<usize>)
    ensures
        match r {
            Some(i) => i < v@.len() && T::key(v@[i as int]@) == k@ && has_key::<T>(views(v@), k@),
            None => !has_key::<T>(views(v@), k@),
        },
{
    let n = v.len();
    let mut i: usize = 0;
    while i < n
        invariant
            n == v@.len(),
            i <= n,
            forall|j: int| 0 <= j < i ==> T::key(#[trigger] v@[j]@) != k@,
        decreases n - i,
    {
        if str_order(v[i].key_str(), k) == Rank::Same {
            proof {
                assert(views(v@)[i as int] == v@[i as int]@);
            }
            return Some(i);
        }
        i += 1;
    }
    proof {
        if has_key::<T>(views(v@), k@) {
            let j = choose|j: int| 0 <= j < views(v@).len() && T::key(views(v@)[j]) == k@;
            assert(views(v@)[j] == v@[j]@);
        }
    }
    None
}

/// Insert `x` at its place by key; a key already present keeps its element.
pub fn insert_keyed<T: Keyed>(v: &mut Vec<T>, x: T)
    requires
        sorted_by_key::<T>(views(old(v)@)),
    ensures
        views(final(v)@) == insert_by_key::<T>(views(old(v)@), x@),
        sorted_by_key::<T>(views(final(v)@)),
{
    let ghost before = views(v@);
    proof {
        lemma_insert_props::<T>(before, x@);
    }
    let n = v.len();
    let mut p: usize = 0;
    while p < n && v[p].key_rank(&x) == Rank::Before
        invariant
            n == v@.len(),
            p <= n,
            before == views(v@),
            forall|i: int| 0 <= i < p ==> T::key_lt(T::key(#[trigger] before[i]), T::key(x@)),
        decreases n - p,
    {
        assert(before[p as int] == v@[p as int]@);
        p += 1;
    }
    proof {
        if p < n {
            assert(before[p as int] == v@[p as int]@);
        }
        lemma_insert_position::<T>(before, x@, p as int);
    }
    if p < n && v[p].key_rank(&x) == Rank::Same {
        proof {
            assert(before[p as int] == v@[p as int]@);
        }
    } else {
        v.insert(p, x);
        proof {
            assert(views(v@) =~= before.take(p as int).push(x@) + before.skip(p as int));
        }
    }
}

impl Keyed for String {
    fn key_str(&self) -> (r: &str) {
        self.as_str()
    }
}

} // verus!
