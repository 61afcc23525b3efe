//! How the deep view of a vector follows the vector through its updates.

use vstd::prelude::*;

verus! {

/// The deep views of the elements of a sequence.
pub open spec fn deep<T: DeepView>(s: Seq<T>) -> Seq<T::V> {
    Seq::new(s.len(), |i: int| s[i].deep_view())
}

/// The deep view of a vector is that of its elements.
pub proof fn lemma_deep_vec<T: DeepView>(v: Vec<T>)
    ensures
        v.deep_view() == deep(v@),
{
}

/// A push goes through to the deep view.
pub proof fn lemma_deep_push<T: DeepView>(s: Seq<T>, x: T)
    ensures
        deep(s.push(x)) == deep(s).push(x.deep_view()),
{
}

/// The deep view of two sequences, one after the other, is that of each, one
/// after the other.
pub proof fn lemma_deep_add<T: DeepView>(a: Seq<T>, b: Seq<T>)
    ensures
        deep(a + b) == deep(a) + deep(b),
{
    assert(deep(a + b) =~= deep(a) + deep(b));
}

} // verus!
