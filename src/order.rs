//! Stable ordering of keyed positions, shared by the primary-color sort and
//! the curve orientation.

use vstd::prelude::*;

verus! {

/// `x` placed into `s` after every entry whose key is at most its own: the
/// step of a stable insertion sort.
pub open spec fn insert_by_key(s: Seq<(u64, usize)>, x: (u64, usize)) -> Seq<(u64, usize)>
    decreases s.len(),
{
    if s.len() == 0 {
        seq![x]
    } else if s.last().0 <= x.0 {
        s.push(x)
    } else {
        insert_by_key(s.drop_last(), x).push(s.last())
    }
}

/// The entries of `s` in ascending order of key, entries of equal key in
/// the order they are given in.
pub open spec fn stable_sort(s: Seq<(u64, usize)>) -> Seq<(u64, usize)>
    decreases s.len(),
{
    if s.len() == 0 {
        s
    } else {
        insert_by_key(stable_sort(s.drop_last()), s.last())
    }
}

proof fn lemma_insert_at(s: Seq<(u64, usize)>, x: (u64, usize), j: int)
    requires
        0 <= j <= s.len(),
        forall|k: int| j <= k < s.len() ==> #[trigger] s[k].0 > x.0,
        j == 0 || s[j - 1].0 <= x.0,
    ensures
        insert_by_key(s, x) == s.insert(j, x),
    decreases s.len(),
{
    if s.len() == 0 {
        assert(s.insert(j, x) =~= seq![x]);
    } else if s.last().0 <= x.0 {
        assert(s.insert(j, x) =~= s.push(x));
    } else {
        lemma_insert_at(s.drop_last(), x, j);
        assert(s.drop_last().insert(j, x).push(s.last()) =~= s.insert(j, x));
    }
}

/// The sorted entries are the given ones rearranged: as many, and each with a
/// position below any bound that all given positions stay below.
pub proof fn lemma_sort_positions(s: Seq<(u64, usize)>, bound: int)
    requires
        forall|i: int| 0 <= i < s.len() ==> (#[trigger] s[i]).1 < bound,
    ensures
        stable_sort(s).len() == s.len(),
        forall|i: int| 0 <= i < s.len() ==> (#[trigger] stable_sort(s)[i]).1 < bound,
    decreases s.len(),
{
    if s.len() > 0 {
        lemma_sort_positions(s.drop_last(), bound);
        lemma_insert_positions(stable_sort(s.drop_last()), s.last(), bound);
    }
}

proof fn lemma_insert_positions(s: Seq<(u64, usize)>, x: (u64, usize), bound: int)
    requires
        forall|i: int| 0 <= i < s.len() ==> (#[trigger] s[i]).1 < bound,
        x.1 < bound,
    ensures
        insert_by_key(s, x).len() == s.len() + 1,
        forall|i: int|
            0 <= i < s.len() + 1 ==> (#[trigger] insert_by_key(s, x)[i]).1 < bound,
    decreases s.len(),
{
    if s.len() > 0 && s.last().0 > x.0 {
        lemma_insert_positions(s.drop_last(), x, bound);
    }
}

/// Sorts keyed positions by key, keeping entries of equal key in order.
pub fn sort_stable(items: &Vec<(u64, usize)>) -> (r: Vec<(u64, usize)>)
    ensures
        r@ == stable_sort(items@),
{
    let mut r: Vec<(u64, usize)> = Vec::new();
    let n = items.len();
    let mut i: usize = 0;
    while i < n
        invariant
            n == items@.len(),
            i <= n,
            r@ == stable_sort(items@.take(i as int)),
        decreases n - i,
    {
        let x = items[i];
        let mut j = r.len();
        while j > 0 && r[j - 1].0 > x.0
            invariant
                j <= r@.len(),
                forall|k: int| j <= k < r@.len() ==> #[trigger] r@[k].0 > x.0,
            decreases j,
        {
            j = j - 1;
        }
        proof {
            lemma_insert_at(r@, x, j as int);
            assert(items@.take(i + 1).drop_last() == items@.take(i as int));
        }
        r.insert(j, x);
        i = i + 1;
    }
    assert(items@.take(n as int) == items@);
    r
}

/// The entries in reverse order.
pub fn reverse_entries(v: &Vec<(u64, usize)>) -> (r: Vec<(u64, usize)>)
    ensures
        r@ == v@.reverse(),
{
    let mut r: Vec<(u64, usize)> = Vec::new();
    let mut i: usize = v.len();
    while i > 0
        invariant
            i <= v@.len(),
            r@.len() == v@.len() - i,
            forall|k: int| 0 <= k < r@.len() ==> #[trigger] r@[k] == v@[v@.len() - 1 - k],
        decreases i,
    {
        i = i - 1;
        r.push(v[i]);
    }
    assert(r@ =~= v@.reverse());
    r
}

} // verus!
