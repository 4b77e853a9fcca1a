//! Time as the operating system tells it, for the drivers that turn deadlines
//! into timers.

use std::time::Duration;
use std::time::SystemTime;
use vstd::prelude::*;

verus! {

#[verifier::external_type_specification]
#[verifier::external_body]
pub struct ExSystemTime(std::time::SystemTime);

/// Types that can be represented by a `Duration`.
pub trait AsDuration {
    fn as_duration(&self) -> Duration;
}

/// `SystemTime::now`: the reading of the system clock. Nothing is claimed of
/// it: two readings may differ in either direction.
#[verifier::external_body]
fn clock_now() -> SystemTime {
    SystemTime::now()
}

/// `SystemTime::duration_since`: the time from `earlier` to `later`, or nothing
/// where `earlier` is the later of the two. Nothing is claimed of the length.
#[verifier::external_body]
fn time_between(later: &SystemTime, earlier: &SystemTime) -> Option<Duration> {
    later.duration_since(*earlier).ok()
}

/// `Duration::default`: the duration of no time at all.
#[verifier::external_body]
fn no_time() -> Duration {
    Duration::default()
}

/// The given span of time, or no time at all where there is none.
pub fn or_zero(span: Option<Duration>) -> (left: Duration)
    ensures
        span matches Some(d) ==> left == d,
{
    match span {
        Some(d) => d,
        None => no_time(),
    }
}

impl AsDuration for SystemTime {
    /// The time that is left until this instant; none if it has passed.
    fn as_duration(&self) -> Duration {
        let now = clock_now();
        or_zero(time_between(self, &now))
    }
}

} // verus!
