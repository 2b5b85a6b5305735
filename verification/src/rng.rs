use vstd::prelude::*;

verus! {

/// Relies on `rand::random_range` over an inclusive integer range: it panics
/// on an empty range and otherwise returns a value within the bounds.
/// Nothing more is assumed of any one outcome.
#[verifier::external_body]
pub(crate) fn random_in_range(lo: i64, hi: i64) -> (r: i64)
    requires
        lo <= hi,
    ensures
        lo <= r <= hi,
{
    rand::random_range(lo..=hi)
}

} // verus!
