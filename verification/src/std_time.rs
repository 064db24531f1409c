//! The boundary to `core::time::Duration`. vstd declares the type but
//! gives its methods no specifications, so the handful the library
//! relies on are stated here, over a name for the nanosecond count a
//! standard duration holds.

use vstd::prelude::*;

verus! {

/// The nanosecond count a `core::time::Duration` holds.
pub uninterp spec fn std_nanos(d: core::time::Duration) -> nat;

/// The largest nanosecond count a `core::time::Duration` can hold:
/// `u64::MAX` seconds plus `999_999_999` nanoseconds.
pub const MAX_STD_NANOS: u128 = 18446744073709551615 * 1000000000 + 999999999;

/// Relies on `Duration::new`: the duration of `secs` seconds plus
/// `nanos` nanoseconds; with `nanos` below one second no carry occurs
/// and the call cannot panic.
pub assume_specification [ core::time::Duration::new ](secs: u64, nanos: u32) -> (d:
    core::time::Duration)
    requires
        nanos < 1_000_000_000,
    ensures
        std_nanos(d) == secs * 1_000_000_000 + nanos,
;

/// Relies on `Duration::from_nanos`: the duration of `n` nanoseconds.
pub assume_specification [ core::time::Duration::from_nanos ](n: u64) -> (d: core::time::Duration)
    ensures
        std_nanos(d) == n,
;

/// Relies on `Duration::from_millis`: the duration of `n` milliseconds.
pub assume_specification [ core::time::Duration::from_millis ](n: u64) -> (d: core::time::Duration)
    ensures
        std_nanos(d) == n * 1_000_000,
;

/// Relies on `Duration::from_secs`: the duration of `n` seconds.
pub assume_specification [ core::time::Duration::from_secs ](n: u64) -> (d: core::time::Duration)
    ensures
        std_nanos(d) == n * 1_000_000_000,
;

/// Relies on `Duration::as_nanos`: the total number of whole
/// nanoseconds, which never exceeds the type's documented maximum.
pub assume_specification [ core::time::Duration::as_nanos ](d: &core::time::Duration) -> (r: u128)
    ensures
        r == std_nanos(*d),
        r <= MAX_STD_NANOS,
;

/// Relies on `Duration::as_millis`: the total number of whole
/// milliseconds.
pub assume_specification [ core::time::Duration::as_millis ](d: &core::time::Duration) -> (r: u128)
    ensures
        r == std_nanos(*d) / 1_000_000,
;

/// Relies on `Duration::as_secs`: the total number of whole seconds,
/// which fits the type's seconds field.
pub assume_specification [ core::time::Duration::as_secs ](d: &core::time::Duration) -> (r: u64)
    ensures
        r == std_nanos(*d) / 1_000_000_000,
;

} // verus!
