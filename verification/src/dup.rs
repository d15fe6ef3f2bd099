//! Copying values field by field while keeping their plain content, one by
//! one or in vectors.
use vstd::prelude::*;
use crate::security::audit_log::newest;

verus! {

/// A value that can be copied field by field, keeping its plain content.
pub trait Duplicate: View + Sized {
    fn dup(&self) -> (r: Self)
        ensures
            r@ == self@;
}

/// The plain content of each element.
pub open spec fn views<T: View>(s: Seq<T>) -> Seq<T::V> {
    s.map_values(|t: T| t@)
}

/// The plain content of an optional vector.
pub open spec fn opt_views<T: View>(o: Option<Vec<T>>) -> Option<Seq<T::V>> {
    match o {
        Some(v) => Some(views(v@)),
        None => None,
    }
}

/// A copy of each element, in order.
pub fn dup_vec<T: Duplicate>(v: &Vec<T>) -> (r: Vec<T>)
    ensures
        views(r@) == views(v@),
{
    let n = v.len();
    let mut r: Vec<T> = Vec::new();
    let mut i: usize = 0;
    while i < n
        invariant
            n == v@.len(),
            i <= n,
            views(r@) == views(v@).subrange(0, i as int),
        decreases n - i,
    {
        let ghost before = views(r@);
        r.push(v[i].dup());
        assert(views(r@) =~= before.push(v@[i as int]@));
        i = i + 1;
        assert(views(r@) =~= views(v@).subrange(0, i as int));
    }
    assert(views(v@).subrange(0, n as int) =~= views(v@));
    r
}

/// Copies of the newest `n` elements of `v` (all when there are fewer), newest first.
pub fn newest_dup<T: Duplicate>(v: &Vec<T>, n: usize) -> (r: Vec<T>)
    ensures
        views(r@) == newest(views(v@), n as nat),
{
    let len = v.len();
    let take = if n < len { n } else { len };
    let ghost s = views(v@);
    let mut r: Vec<T> = Vec::new();
    let mut i: usize = 0;
    while i < take
        invariant
            len == v@.len(),
            s == views(v@),
            take <= len,
            i <= take,
            views(r@) == Seq::new(i as nat, |k: int| s[s.len() - 1 - k]),
        decreases take - i,
    {
        let ghost before = views(r@);
        r.push(v[len - 1 - i].dup());
        assert(views(r@) =~= before.push(s[s.len() - 1 - i]));
        i = i + 1;
        assert(views(r@) =~= Seq::new(i as nat, |k: int| s[s.len() - 1 - k]));
    }
    assert(views(r@) =~= newest(s, n as nat));
    r
}

/// A copy of an optional vector.
pub fn dup_opt_vec<T: Duplicate>(o: &Option<Vec<T>>) -> (r: Option<Vec<T>>)
    ensures
        opt_views(r) == opt_views(*o),
{
    match o {
        Some(v) => Some(dup_vec(v)),
        None => None,
    }
}

} // verus!
