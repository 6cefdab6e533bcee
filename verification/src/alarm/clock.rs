use vstd::prelude::*;

use crate::alarm::{AlarmTrigger, AlarmTriggerResult};
use crate::types::{RawData, Timestamp};

verus! {

/// Single time triggering at defined datetime
#[derive(Clone, Copy, Debug, PartialEq, Eq, Structural)]
pub struct AlarmClockData {
    /// When it triggers
    pub trigger_at: Timestamp,
    /// Already fired
    pub passed: bool,
}

/// What an alarm clock does on data received at `at`: its next state and its decision
/// (fire, write back). It fires once, on the first data received at or after its time.
pub open spec fn clock_step(c: AlarmClockData, at: Timestamp) -> (AlarmClockData, (bool, bool)) {
    if c.passed {
        (c, (false, false))
    } else if c.trigger_at.at_or_before(at) {
        (AlarmClockData { trigger_at: c.trigger_at, passed: true }, (true, true))
    } else {
        (c, (false, false))
    }
}

impl AlarmClockData {
    pub fn new(trigger_at: Timestamp) -> (c: Self)
        ensures
            c == (AlarmClockData { trigger_at, passed: false }),
    {
        Self { trigger_at, passed: false }
    }
}

impl AlarmTrigger for AlarmClockData {
    fn on_data(&mut self, raw: RawData) -> (r: AlarmTriggerResult)
        ensures
            *final(self) == clock_step(*old(self), raw@.timestamp).0,
            r@ == clock_step(*old(self), raw@.timestamp).1,
            final(self).trigger_at == old(self).trigger_at,
            final(self).passed == (old(self).passed || old(self).trigger_at.at_or_before(raw@.timestamp)),
            r@.0 == (!old(self).passed && old(self).trigger_at.at_or_before(raw@.timestamp)),
            r@.1 == r@.0,
    {
        // Avoid trigger multiple times
        if self.passed {
            return (false, false).into();
        }
        let fires = raw.get_ref_timestamp().is_at_or_after(&self.trigger_at);
        if fires {
            self.passed = true;
        }
        // update_required only when state actually changed
        (fires, fires).into()
    }
}

/// A step of a clock keeps its trigger time; only the passed flag may change, from false
/// to true, exactly when the clock fires: on the first data at or after its time. It asks
/// for a write-back exactly when it fires.
pub proof fn lemma_clock_step_keeps_trigger_time(c: AlarmClockData, at: Timestamp)
    ensures
        clock_step(c, at).0.trigger_at == c.trigger_at,
        clock_step(c, at).1.0 == (!c.passed && c.trigger_at.at_or_before(at)),
        clock_step(c, at).0.passed == (c.passed || clock_step(c, at).1.0),
        clock_step(c, at).1.1 == clock_step(c, at).1.0,
{
}

/// The results of successive calls of `on_data` on a clock, with data received at the
/// given times in turn.
pub open spec fn clock_results(c: AlarmClockData, times: Seq<Timestamp>) -> Seq<(bool, bool)>
    decreases times.len(),
{
    if times.len() == 0 {
        Seq::empty()
    } else {
        let next = clock_step(c, times[0]);
        seq![next.1] + clock_results(next.0, times.drop_first())
    }
}

/// A clock that has fired stays silent: every later call neither fires nor asks for a
/// write-back.
pub proof fn lemma_passed_clock_stays_silent(c: AlarmClockData, times: Seq<Timestamp>)
    requires
        c.passed,
    ensures
        clock_results(c, times).len() == times.len(),
        forall|i: int| 0 <= i < times.len() ==> #[trigger] clock_results(c, times)[i] == (false, false),
    decreases times.len(),
{
    if times.len() > 0 {
        lemma_passed_clock_stays_silent(c, times.drop_first());
        let rest = clock_results(c, times.drop_first());
        assert forall|i: int| 0 <= i < times.len() implies #[trigger] clock_results(c, times)[i] == (false, false) by {
            if i > 0 {
                assert(clock_results(c, times)[i] == rest[i - 1]);
            }
        }
    }
}

/// Over successive calls a clock fires at most once, never when it has already fired,
/// and every call after the one that fires neither fires nor asks for a write-back.
pub proof fn lemma_clock_calls_fire_at_most_once(c: AlarmClockData, times: Seq<Timestamp>)
    ensures
        clock_results(c, times).len() == times.len(),
        c.passed ==> forall|i: int| 0 <= i < times.len() ==> #[trigger] clock_results(c, times)[i] == (false, false),
        forall|i: int, j: int|
            0 <= i < j < times.len() && (#[trigger] clock_results(c, times)[i]).0
                ==> #[trigger] clock_results(c, times)[j] == (false, false),
    decreases times.len(),
{
    if c.passed {
        lemma_passed_clock_stays_silent(c, times);
    }
    if times.len() > 0 {
        let next = clock_step(c, times[0]);
        let rest = clock_results(next.0, times.drop_first());
        lemma_clock_calls_fire_at_most_once(next.0, times.drop_first());
        if next.1.0 {
            lemma_passed_clock_stays_silent(next.0, times.drop_first());
        }
        assert forall|i: int, j: int|
            0 <= i < j < times.len() && (#[trigger] clock_results(c, times)[i]).0
                implies #[trigger] clock_results(c, times)[j] == (false, false) by {
            assert(clock_results(c, times)[j] == rest[j - 1]);
            if i > 0 {
                assert(clock_results(c, times)[i] == rest[i - 1]);
            }
        }
    }
}

} // verus!
