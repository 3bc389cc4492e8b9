//! Numeric and timestamp conversions used by the data-point translators.

use vstd::prelude::*;
use crate::wire::Timestamp;

verus! {

/// Whether a nanosecond count since the epoch has a seconds part that fits
/// the wire's signed 64-bit seconds field.
pub open spec fn fits_wire_time(nanos: u128) -> bool {
    nanos / 1_000_000_000 <= i64::MAX as u128
}

/// The wire form of an instant given as nanoseconds since the epoch.
pub open spec fn spec_timestamp(nanos: u128) -> Timestamp {
    Timestamp {
        seconds: (nanos / 1_000_000_000) as i64,
        nanos: (nanos % 1_000_000_000) as i32,
    }
}

/// Splits nanoseconds since the epoch into whole seconds and residual
/// nanoseconds.  Instants before the epoch cannot be represented in the
/// argument at all: a caller that meets one must clamp to zero first, and
/// that choice is part of this library's documented behavior.
pub fn timestamp_from_epoch_nanos(nanos: u128) -> (t: Timestamp)
    requires
        fits_wire_time(nanos),
    ensures
        t == spec_timestamp(nanos),
        t.seconds as int == nanos as int / 1_000_000_000,
        t.nanos as int == nanos as int % 1_000_000_000,
{
    let seconds = (nanos / 1_000_000_000) as i64;
    let nanos_part = (nanos % 1_000_000_000) as i32;
    Timestamp { seconds, nanos: nanos_part }
}

/// The total form of the timestamp conversion: `None` exactly when the
/// seconds part would overflow the wire field.
pub fn checked_timestamp_from_epoch_nanos(nanos: u128) -> (r: Option<Timestamp>)
    ensures
        fits_wire_time(nanos) ==> r == Some(spec_timestamp(nanos)),
        !fits_wire_time(nanos) ==> r is None,
{
    if nanos / 1_000_000_000 <= i64::MAX as u128 {
        Some(timestamp_from_epoch_nanos(nanos))
    } else {
        None
    }
}

/// Coercion of a sample value into the wire's signed 64-bit integer form.
///
/// Unsigned values above `i64::MAX` saturate to `i64::MAX`; they never wrap.
pub trait ToI64 {
    /// The mathematical value that the coercion saturates towards.
    spec fn spec_saturated(self) -> int;

    fn to_i64(self) -> (r: i64)
        ensures
            r == self.spec_saturated();
}

impl ToI64 for i64 {
    open spec fn spec_saturated(self) -> int {
        self as int
    }

    fn to_i64(self) -> (r: i64) {
        self
    }
}

impl ToI64 for u64 {
    open spec fn spec_saturated(self) -> int {
        if self <= i64::MAX as u64 {
            self as int
        } else {
            i64::MAX as int
        }
    }

    fn to_i64(self) -> (r: i64) {
        if self <= i64::MAX as u64 {
            self as i64
        } else {
            i64::MAX
        }
    }
}

} // verus!
