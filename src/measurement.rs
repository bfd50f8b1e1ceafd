//! The duration of one timed step.
use std::time::{Duration, Instant};

use vstd::prelude::*;

verus! {

#[verifier::external_type_specification]
#[verifier::external_body]
pub struct ExInstant(std::time::Instant);

/// Relies on `std::time::Instant::now`: reads the monotonic clock; nothing
/// is promised of the value.
pub assume_specification[ std::time::Instant::now ]() -> std::time::Instant;

/// Relies on `std::time::Instant::elapsed`: the time since the instant, on
/// the monotonic clock; it does not panic (it saturates at zero).
pub assume_specification[ std::time::Instant::elapsed ](
    i: &std::time::Instant,
) -> std::time::Duration;

/// A measurement started at some instant, finished or not yet.
#[derive(Debug)]
pub struct Measurement {
    start_time: Instant,
    duration: Option<Duration>,
}

impl Measurement {
    /// The measured duration, once finished.
    pub closed spec fn duration(&self) -> Option<Duration> {
        self.duration
    }

    /// The instant the measurement started at.
    pub closed spec fn started(&self) -> Instant {
        self.start_time
    }

    /// Starts a measurement now.
    pub fn new() -> (r: Measurement)
        ensures
            r.duration() is None,
    {
        Measurement { start_time: Instant::now(), duration: None }
    }

    /// Finishes the measurement now: the duration is the time since it
    /// started.
    pub fn set_finish_time(&mut self)
        ensures
            final(self).duration() is Some,
            final(self).started() == old(self).started(),
    {
        self.duration = Some(self.start_time.elapsed());
    }

    /// The measured duration; `None` until the measurement is finished.
    pub fn get_duration(&self) -> (r: &Option<Duration>)
        ensures
            *r == self.duration(),
    {
        &self.duration
    }
}

impl Default for Measurement {
    fn default() -> (r: Self)
        ensures
            r.duration() is None,
    {
        Measurement::new()
    }
}

} // verus!
