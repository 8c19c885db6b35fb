//! Element-wise views of sequences of executable values.

use vstd::prelude::*;

verus! {

/// The sequence of the views of the elements of `s`, in order.
pub open spec fn views<T: View>(s: Seq<T>) -> Seq<T::V> {
    Seq::new(s.len(), |i: int| s[i]@)
}

/// Appending an element appends its view.
pub proof fn lemma_views_push<T: View>(s: Seq<T>, x: T)
    ensures
        views(s.push(x)) == views(s).push(x@),
{
    assert(views(s.push(x)) =~= views(s).push(x@));
}

/// Cutting a sequence short cuts its views short.
pub proof fn lemma_views_prefix<T: View>(s: Seq<T>, n: int)
    requires
        0 <= n <= s.len(),
    ensures
        views(s.subrange(0, n)) == views(s).subrange(0, n),
{
    assert(views(s.subrange(0, n)) =~= views(s).subrange(0, n));
}

/// Replacing one element replaces its view.
pub proof fn lemma_views_update<T: View>(s: Seq<T>, i: int, x: T)
    requires
        0 <= i < s.len(),
    ensures
        views(s.update(i, x)) == views(s).update(i, x@),
{
    assert(views(s.update(i, x)) =~= views(s).update(i, x@));
}

/// Concatenation commutes with taking views.
pub proof fn lemma_views_concat<T: View>(a: Seq<T>, b: Seq<T>)
    ensures
        views(a + b) == views(a) + views(b),
{
    assert(views(a + b) =~= views(a) + views(b));
}

} // verus!
