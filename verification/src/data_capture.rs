//! Telemetry capture: an observer that stamps every typing event with a
//! clock reading and keeps the records in order.  Persisting the records
//! to durable storage is the surrounding program's business.

use vstd::prelude::*;

use crate::text_model::CharacterStatus;
use crate::text_model::Event;
use crate::text_model::Observer;

verus! {

/// One captured record.
#[derive(Clone, Copy, Debug, PartialEq)]
pub enum Data {
    CharacterTyped(char, CharacterStatus),
    Backspace,
}

/// A source of timestamps, in milliseconds.  `TestClock` makes capture
/// deterministic under test; `RealClock` reads the wall clock.
pub trait Clock: Sized {
    fn new() -> Self;

    fn elapsed(&mut self) -> u64;
}

pub struct RealClock {}

/// Relies on `chrono::Utc::now` and `DateTime::timestamp_millis`: the
/// milliseconds since the epoch.  The result depends on the wall clock, so
/// nothing is claimed of it; on a machine whose clock stands before the
/// epoch, `Utc::now` itself aborts.
#[verifier::external_body]
fn wall_clock_millis() -> u64 {
    let ms = chrono::Utc::now().timestamp_millis();
    if ms < 0 {
        0
    } else {
        ms as u64
    }
}

impl Clock for RealClock {
    fn new() -> Self {
        RealClock {  }
    }

    fn elapsed(&mut self) -> u64 {
        wall_clock_millis()
    }
}

/// A deterministic clock: the n-th reading is ten times n, counting from
/// zero.
pub struct TestClock {
    pub calls: u64,
}

impl TestClock {
    /// One reading: ten milliseconds per call made so far, and the call
    /// counter steps by one.  (Both stick at the top of their range rather
    /// than overflow; successive readings otherwise grow by exactly ten.)
    pub fn tick(&mut self) -> (r: u64)
        ensures
            r == (if old(self).calls <= u64::MAX / 10 {
                10 * old(self).calls
            } else {
                u64::MAX as int
            }),
            final(self).calls == (if old(self).calls < u64::MAX {
                old(self).calls + 1
            } else {
                old(self).calls as int
            }),
    {
        let reading = if self.calls <= u64::MAX / 10 {
            self.calls * 10
        } else {
            u64::MAX
        };
        if self.calls < u64::MAX {
            self.calls = self.calls + 1;
        }
        reading
    }
}

impl Clock for TestClock {
    fn new() -> Self {
        TestClock { calls: 0 }
    }

    fn elapsed(&mut self) -> u64 {
        self.tick()
    }
}

/// The record an event is stored as.
pub open spec fn record_of(event: Event) -> Data {
    match event {
        Event::Backspace => Data::Backspace,
        Event::Type(c, status) => Data::CharacterTyped(c, status),
    }
}

/// Captures `(timestamp, event)` pairs as the model emits events.
pub struct DataCapture<T: Clock> {
    pub clock: T,
    pub data: Vec<(u64, Data)>,
}

impl<T: Clock> DataCapture<T> {
    /// A capture with a fresh clock and no records yet.  (What "fresh"
    /// means is the clock implementation's business; over the generic
    /// parameter nothing can be said of it.)
    pub fn new() -> (r: Self)
        ensures
            r.data@ == Seq::<(u64, Data)>::empty(),
    {
        DataCapture { clock: T::new(), data: Vec::new() }
    }

    /// Appends exactly one record: the event under the given timestamp;
    /// everything already recorded, and the clock, stay as they are.
    pub fn record(&mut self, stamp: u64, event: &Event)
        ensures
            final(self).data@ == old(self).data@.push((stamp, record_of(*event))),
            final(self).clock == old(self).clock,
    {
        match event {
            Event::Backspace => {
                self.data.push((stamp, Data::Backspace));
            },
            Event::Type(c, status) => {
                self.data.push((stamp, Data::CharacterTyped(*c, *status)));
            },
        }
    }
}

impl<T: Clock> Observer for DataCapture<T> {
    fn notify(&mut self, event: &Event) {
        let stamp = self.clock.elapsed();
        self.record(stamp, event);
    }
}

} // verus!
