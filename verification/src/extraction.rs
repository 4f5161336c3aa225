use vstd::prelude::*;

verus! {

/// The extraction rule of a tag that needs no handling of its own: it
/// leaves the extractor, the attributes and the pending elements alone and
/// opens no element.
pub fn no_op<E, A, N, T>(extractor: &mut E, attrs: &mut A, nexts: &mut N) -> (r: Option<T>)
    ensures
        r is None,
        *final(extractor) == *old(extractor),
        *final(attrs) == *old(attrs),
        *final(nexts) == *old(nexts),
{
    None
}

} // verus!
