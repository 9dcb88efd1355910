//! Views of sequences and of optional values, taken element by element.

use vstd::prelude::*;

verus! {

/// The views of the elements of a sequence, in order.
pub open spec fn view_all<T: View>(s: Seq<T>) -> Seq<T::V> {
    Seq::new(s.len(), |i: int| s[i]@)
}

/// The view of an optional value.
pub open spec fn view_opt<T: View>(o: Option<T>) -> Option<T::V> {
    match o {
        Some(x) => Some(x@),
        None => None,
    }
}

/// The view of the outcome of a step that may fail and may yield nothing.
pub open spec fn view_outcome<T: View, E: View>(r: Result<Option<T>, E>) -> Result<
    Option<T::V>,
    E::V,
> {
    match r {
        Ok(Some(x)) => Ok(Some(x@)),
        Ok(None) => Ok(None),
        Err(e) => Err(e@),
    }
}

/// The view of the outcome of a step that may fail.
pub open spec fn view_result<T: View, E: View>(r: Result<T, E>) -> Result<T::V, E::V> {
    match r {
        Ok(x) => Ok(x@),
        Err(e) => Err(e@),
    }
}

/// Taking views commutes with appending an element.
pub proof fn lemma_view_all_push<T: View>(s: Seq<T>, x: T)
    ensures
        view_all(s.push(x)) == view_all(s).push(x@),
{
    assert(view_all(s.push(x)) =~= view_all(s).push(x@));
}

} // verus!
