//! The monotonic clock that loop recording reads.
use std::time::{Duration, Instant};
use vstd::prelude::*;

verus! {

/// `std::time::Instant`, carried through the recorder as an opaque value.
#[verifier::external_type_specification]
#[verifier::external_body]
pub struct ExInstant(Instant);

/// Calls `std::time::Instant::now`. The instant depends on the machine's
/// clock, so nothing is claimed of it.
#[verifier::external_body]
pub(crate) fn clock_now() -> (t: Instant) {
    Instant::now()
}

/// Calls `std::time::Instant::elapsed` on `t`. The duration depends on the
/// machine's clock, so nothing is claimed of it.
#[verifier::external_body]
pub(crate) fn time_since(t: &Instant) -> (d: Duration) {
    t.elapsed()
}

/// Calls `std::time::Duration::as_millis`: the whole milliseconds of `d`.
/// A duration is opaque here, so nothing is claimed of the count.
#[verifier::external_body]
pub(crate) fn whole_millis(d: &Duration) -> (ms: u128) {
    d.as_millis()
}

/// The whole milliseconds since `t`, cut to 64 bits.
pub(crate) fn elapsed_millis(t: &Instant) -> (ms: u64) {
    let d = time_since(t);
    let ms: u128 = whole_millis(&d);
    #[verifier::truncate] (ms as u64)
}

} // verus!
