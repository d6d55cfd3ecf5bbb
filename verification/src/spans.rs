//! Pairs of byte positions and their order.
use vstd::prelude::*;

verus! {

/// The order of pairs: by the first component, then by the second.
pub open spec fn span_leq(a: (u64, u64), b: (u64, u64)) -> bool {
    a.0 < b.0 || (a.0 == b.0 && a.1 <= b.1)
}

pub open spec fn spans_sorted(spans: Seq<(u64, u64)>) -> bool {
    forall|i: int, j: int|
        0 <= i <= j < spans.len() ==> span_leq(#[trigger] spans[i], #[trigger] spans[j])
}

/// `slice::sort_unstable` on pairs of integers puts them in ascending
/// lexicographic order and neither adds nor loses any.
#[verifier::external_body]
pub(crate) fn sort_spans(spans: &mut Vec<(u64, u64)>)
    ensures
        spans_sorted(final(spans)@),
        final(spans)@.to_multiset() == old(spans)@.to_multiset(),
{
    spans.sort_unstable();
}

} // verus!
