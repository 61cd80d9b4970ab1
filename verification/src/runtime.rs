//! Time spans as numbers of nanoseconds: what this library relies on from `std::time`.
use std::time::Duration;
use vstd::prelude::*;

verus! {

/// A timeout that has run out.
#[derive(Debug)]
pub struct Elapsed;

/// Nanoseconds in a second.
pub const NANOS_PER_SEC: u128 = 1_000_000_000;

/// Nanoseconds in the longest `Duration`.
pub const MAX_NANOS: u128 = 18_446_744_073_709_551_615_999_999_999;

/// The length of a time span in nanoseconds.
pub uninterp spec fn nanos(d: Duration) -> nat;

/// `Duration::as_nanos`: the length in nanoseconds. A `Duration` holds whole seconds in 64 bits and
/// a rest of less than a second.
#[verifier::external_body]
pub(crate) fn nanos_of(d: &Duration) -> (r: u128)
    ensures
        r == nanos(*d),
        r <= MAX_NANOS,
{
    d.as_nanos()
}

/// `Duration::new`: the time span of so many seconds and, beyond them, nanoseconds. A rest of a
/// second or more would be carried over, and could panic.
#[verifier::external_body]
pub(crate) fn duration_new(secs: u64, rest: u32) -> (r: Duration)
    requires
        rest < NANOS_PER_SEC,
    ensures
        nanos(r) == secs * NANOS_PER_SEC + rest,
{
    Duration::new(secs, rest)
}

/// `Duration::clone`: the same time span.
pub assume_specification[ <Duration as Clone>::clone ](d: &Duration) -> (r: Duration)
    ensures
        r == *d,
;

/// The time span of so many nanoseconds, or the longest one.
pub fn duration_of(n: u128) -> (r: Duration)
    ensures
        nanos(r) == if n <= MAX_NANOS {
            n as nat
        } else {
            MAX_NANOS as nat
        },
{
    let capped: u128 = if n <= MAX_NANOS {
        n
    } else {
        MAX_NANOS
    };
    let secs: u64 = (capped / NANOS_PER_SEC) as u64;
    let rest: u32 = (capped % NANOS_PER_SEC) as u32;
    duration_new(secs, rest)
}

/// The time span of so many seconds.
pub fn seconds(secs: u64) -> (r: Duration)
    ensures
        nanos(r) == secs * NANOS_PER_SEC,
{
    duration_new(secs, 0)
}

} // verus!
