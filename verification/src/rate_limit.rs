//! The token bucket of the global speed limit: its size for a rate.
use vstd::prelude::*;

verus! {

/// Bucket size for a rate in bytes per second: two seconds of traffic (at
/// least one byte), or 0 when the rate is 0 (no limit).
pub open spec fn spec_bucket_capacity(rate: u64) -> u64 {
    if rate > 0 {
        (2 * rate) as u64
    } else {
        0
    }
}

/// Bucket size for a rate (`spec_bucket_capacity`).
pub fn bucket_capacity(rate: u64) -> (c: u64)
    requires
        2 * rate <= u64::MAX,
    ensures
        c == spec_bucket_capacity(rate),
        rate > 0 ==> c >= 1,
{
    if rate > 0 {
        let doubled = 2 * rate;
        if doubled > 1 { doubled } else { 1 }
    } else {
        0
    }
}

/// The bucket holds two seconds of traffic: twice the rate for any
/// limited rate, so a bucket of a doubled rate is twice as large, and
/// nothing when there is no limit.
pub proof fn lemma_bucket_holds_two_seconds(rate: u64, other: u64)
    requires
        2 * rate <= u64::MAX,
        2 * other <= u64::MAX,
    ensures
        rate > 0 ==> spec_bucket_capacity(rate) == rate + rate,
        rate > 0 ==> spec_bucket_capacity(rate) >= 1,
        rate == 0 ==> spec_bucket_capacity(rate) == 0,
        other == 2 * rate ==> spec_bucket_capacity(other) == 2 * spec_bucket_capacity(rate),
{
}

} // verus!
