use vstd::prelude::*;
use core::ops::Range;

verus! {

/// The range `outer` covers every position that the range `inner` covers
/// (by the bounds alone; an empty `inner` still has to lie between them).
pub open spec fn spec_contains_range(outer: Range<usize>, inner: Range<usize>) -> bool {
    outer.start <= inner.start && outer.end >= inner.end
}

/// Whether the range `outer` includes the range `inner`.
pub fn contains_range(outer: &Range<usize>, inner: &Range<usize>) -> (r: bool)
    ensures
        r == spec_contains_range(*outer, *inner),
{
    outer.start <= inner.start && outer.end >= inner.end
}

/// Every range includes itself.
pub proof fn lemma_contains_range_reflexive(r: Range<usize>)
    ensures
        spec_contains_range(r, r),
{
}

/// Inclusion of ranges is transitive.
pub proof fn lemma_contains_range_transitive(a: Range<usize>, b: Range<usize>, c: Range<usize>)
    requires
        spec_contains_range(a, b),
        spec_contains_range(b, c),
    ensures
        spec_contains_range(a, c),
{
}

} // verus!
