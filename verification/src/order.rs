//! Ordering records by a number they carry, largest first, keeping records
//! with equal numbers in the order they came: what a stable sort by that
//! number, descending, gives.
use vstd::prelude::*;

verus! {

/// A record with a number it is ordered by.
pub trait Ranked {
    spec fn rank(&self) -> int;
}

/// How many leading records of `s` rank no lower than `x`.
pub open spec fn desc_pos<T: Ranked>(s: Seq<T>, x: T) -> nat
    decreases s.len(),
{
    if s.len() == 0 {
        0
    } else if s[0].rank() >= x.rank() {
        1 + desc_pos(s.drop_first(), x)
    } else {
        0
    }
}

/// `x` placed in `s` after the leading records that rank no lower than it.
pub open spec fn insert_desc<T: Ranked>(s: Seq<T>, x: T) -> Seq<T>
    decreases s.len(),
{
    if s.len() == 0 {
        seq![x]
    } else if s[0].rank() >= x.rank() {
        seq![s[0]] + insert_desc(s.drop_first(), x)
    } else {
        seq![x] + s
    }
}

/// The records of `s` highest rank first, equal ranks in the order of `s`.
pub open spec fn sort_desc<T: Ranked>(s: Seq<T>) -> Seq<T>
    decreases s.len(),
{
    if s.len() == 0 {
        seq![]
    } else {
        insert_desc(sort_desc(s.drop_last()), s.last())
    }
}

/// No record of `s` ranks higher than one before it.
pub open spec fn sorted_desc<T: Ranked>(s: Seq<T>) -> bool {
    forall|i: int, j: int| 0 <= i < j < s.len() ==> #[trigger] s[i].rank() >= #[trigger] s[j].rank()
}

/// Inserting at the first position `p` whose record ranks lower than `x`
/// (or at the end) is `insert_desc`.
pub proof fn lemma_desc_pos<T: Ranked>(s: Seq<T>, x: T, p: int)
    requires
        0 <= p <= s.len(),
        forall|k: int| 0 <= k < p ==> #[trigger] s[k].rank() >= x.rank(),
        p == s.len() || s[p].rank() < x.rank(),
    ensures
        desc_pos(s, x) == p,
        insert_desc(s, x) == s.insert(p, x),
    decreases p,
{
    if p == 0 {
        assert(s.insert(0, x) =~= seq![x] + s);
        if s.len() == 0 {
            assert(insert_desc(s, x) =~= seq![x]);
        }
    } else {
        let t = s.drop_first();
        assert forall|k: int| 0 <= k < p - 1 implies #[trigger] t[k].rank() >= x.rank() by {
            assert(s[k + 1].rank() >= x.rank());
        }
        lemma_desc_pos(t, x, p - 1);
        assert(s.insert(p, x) =~= seq![s[0]] + t.insert(p - 1, x));
    }
}

proof fn lemma_desc_pos_props<T: Ranked>(s: Seq<T>, x: T)
    ensures
        desc_pos(s, x) <= s.len(),
        forall|k: int| 0 <= k < desc_pos(s, x) ==> #[trigger] s[k].rank() >= x.rank(),
        desc_pos(s, x) == s.len() || s[desc_pos(s, x) as int].rank() < x.rank(),
    decreases s.len(),
{
    if s.len() > 0 && s[0].rank() >= x.rank() {
        let t = s.drop_first();
        lemma_desc_pos_props(t, x);
        assert forall|k: int| 0 <= k < desc_pos(s, x) implies #[trigger] s[k].rank() >= x.rank() by {
            if k > 0 {
                assert(s[k] == t[k - 1]);
            }
        }
    }
}

proof fn lemma_insert_keeps_order<T: Ranked>(s: Seq<T>, x: T)
    requires
        sorted_desc(s),
    ensures
        sorted_desc(insert_desc(s, x)),
        insert_desc(s, x).to_multiset() == s.to_multiset().insert(x),
{
    lemma_desc_pos_props(s, x);
    let p = desc_pos(s, x) as int;
    lemma_desc_pos(s, x, p);
    let r = s.insert(p, x);
    assert forall|i: int, j: int| 0 <= i < j < r.len() implies #[trigger] r[i].rank() >= #[trigger] r[j].rank() by {
        if j < p {
        } else if j == p {
            assert(r[i] == s[i]);
        } else if i < p {
            assert(r[j] == s[j - 1]);
            assert(s[i].rank() >= x.rank());
            if p < s.len() {
                assert(s[p].rank() < x.rank());
                assert(s[p].rank() >= s[j - 1].rank() || p == j - 1);
            }
        } else if i == p {
            assert(r[j] == s[j - 1]);
            assert(s[p].rank() < x.rank());
            assert(s[p].rank() >= s[j - 1].rank() || p == j - 1);
        } else {
            assert(r[i] == s[i - 1]);
            assert(r[j] == s[j - 1]);
        }
    }
    vstd::seq_lib::to_multiset_insert(s, p, x);
}

/// `sort_desc` orders its input highest rank first and keeps every record.
pub proof fn lemma_sort_desc<T: Ranked>(s: Seq<T>)
    ensures
        sorted_desc(sort_desc(s)),
        sort_desc(s).to_multiset() == s.to_multiset(),
        sort_desc(s).len() == s.len(),
    decreases s.len(),
{
    if s.len() == 0 {
        assert(s =~= Seq::<T>::empty());
        assert(sort_desc(s) =~= s);
    } else {
        lemma_sort_desc(s.drop_last());
        lemma_insert_keeps_order(sort_desc(s.drop_last()), s.last());
        vstd::seq_lib::to_multiset_build(s.drop_last(), s.last());
        assert(s.drop_last().push(s.last()) =~= s);
    }
    sort_desc(s).to_multiset_ensures();
    s.to_multiset_ensures();
}

} // verus!
