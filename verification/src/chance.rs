use vstd::prelude::*;

verus! {

/// Calls `rand::random_range(0..n)`: a number drawn uniformly from `0..n`
/// by the thread-local generator. The contract states only that it lies in
/// the range; which number comes out is chance. `rand` panics on an empty
/// range, which `requires` rules out.
#[verifier::external_body]
pub(crate) fn random_below(n: usize) -> (r: usize)
    requires
        n > 0,
    ensures
        r < n,
{
    rand::random_range(0..n)
}

/// Calls `uuid::Uuid::new_v4()` and hands back the UUID's 128-bit value
/// (`as_u128`, big-endian). The UUID's bits are random; the contract states
/// only what `new_v4` fixes in every outcome: the version nibble is 4 and
/// the variant bits are `10`.
#[verifier::external_body]
pub(crate) fn new_random_uuid() -> (id: u128)
    ensures
        (id >> 76u128) & 0xfu128 == 4,
        (id >> 62u128) & 0x3u128 == 2,
{
    uuid::Uuid::new_v4().as_u128()
}

} // verus!
