use vstd::prelude::*;

verus! {

/// Relies on `rand::random_range`: a sample of the thread-local generator,
/// uniform over the given half-open range; nothing more can be said of a
/// random value than its bounds. Panics on an empty range, so callers must
/// keep `lo < hi`.
#[verifier::external_body]
pub fn random_in_range(lo: i32, hi: i32) -> (r: i32)
    requires
        lo < hi,
    ensures
        lo <= r < hi,
{
    rand::random_range(lo..hi)
}

} // verus!
