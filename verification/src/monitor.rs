//! Edge monitor: turns debounced readings of one float switch into
//! timestamped pump transitions.
//!
//! The caller waits for any edge on the input, takes the timestamp at once,
//! waits for the debounce interval and reads the level again. That reading
//! is handed to [`EdgeMonitor::settle`], which decides whether a transition
//! took place.

use crate::types::{Message, Pump};
use vstd::prelude::*;

verus! {

/// How long after an edge the input is read again, in milliseconds.
pub const DEBOUNCE_MS: u64 = 30;

/// Level of a sensor input. A low level means that the float switch
/// reports the pump running.
#[derive(Clone, Copy, Debug, PartialEq, Eq, Structural)]
pub enum Level {
    Low,
    High,
}

/// One debounced reading: the level found once the debounce interval had
/// run out, and the timestamp taken when the edge was first seen.
#[derive(Clone, Copy, Debug, PartialEq, Eq, Structural)]
pub struct Sample {
    pub level: Level,
    pub stamp: u64,
}

/// The monitor of one sensor input. Its only state is the level that was
/// last confirmed.
#[derive(Clone, Copy, Debug, PartialEq, Eq, Structural)]
pub struct EdgeMonitor {
    pub pump: Pump,
    pub confirmed: Level,
}

/// The event that announces that `pump`'s input settled at `level`.
pub open spec fn transition(pump: Pump, level: Level, stamp: u64) -> Message {
    match level {
        Level::Low => Message::PumpOn { stamp, pump },
        Level::High => Message::PumpOff { stamp, pump },
    }
}

/// What a monitor publishes for one reading: nothing where the level is
/// the confirmed one, else the transition to the new level, stamped with
/// the time of the edge.
pub open spec fn emitted(m: EdgeMonitor, s: Sample) -> Option<Message> {
    if s.level == m.confirmed {
        None
    } else {
        Some(transition(m.pump, s.level, s.stamp))
    }
}

/// The monitor after one reading.
pub open spec fn settled(m: EdgeMonitor, s: Sample) -> EdgeMonitor {
    EdgeMonitor { pump: m.pump, confirmed: s.level }
}

/// The monitor after a run of readings.
pub open spec fn settled_all(m: EdgeMonitor, samples: Seq<Sample>) -> EdgeMonitor
    decreases samples.len(),
{
    if samples.len() == 0 {
        m
    } else {
        settled(settled_all(m, samples.drop_last()), samples.last())
    }
}

/// Everything a monitor publishes over a run of readings, in order.
pub open spec fn emitted_all(m: EdgeMonitor, samples: Seq<Sample>) -> Seq<Message>
    decreases samples.len(),
{
    if samples.len() == 0 {
        Seq::empty()
    } else {
        let earlier = emitted_all(m, samples.drop_last());
        match emitted(settled_all(m, samples.drop_last()), samples.last()) {
            Some(event) => earlier.push(event),
            None => earlier,
        }
    }
}

impl EdgeMonitor {
    /// A monitor for `pump` whose input is at `level` when the task starts.
    pub fn new(pump: Pump, level: Level) -> (m: Self)
        ensures
            m == (EdgeMonitor { pump, confirmed: level }),
    {
        EdgeMonitor { pump, confirmed: level }
    }

    /// Takes in one debounced reading. Returns the event to publish, if
    /// the level changed; a reading at the confirmed level was noise.
    pub fn settle(&mut self, sample: Sample) -> (event: Option<Message>)
        ensures
            *final(self) == settled(*old(self), sample),
            event == emitted(*old(self), sample),
    {
        if sample.level == self.confirmed {
            return None;
        }
        self.confirmed = sample.level;
        match sample.level {
            Level::Low => Some(Message::PumpOn { stamp: sample.stamp, pump: self.pump }),
            Level::High => Some(Message::PumpOff { stamp: sample.stamp, pump: self.pump }),
        }
    }
}

/// The level confirmed before reading `i` of a run is the level of the
/// reading before it, or the starting level for the first.
pub proof fn lemma_confirmed_before(m: EdgeMonitor, samples: Seq<Sample>, i: int)
    requires
        0 <= i <= samples.len(),
    ensures
        settled_all(m, samples.take(i)).pump == m.pump,
        settled_all(m, samples.take(i)).confirmed == if i == 0 {
            m.confirmed
        } else {
            samples[i - 1].level
        },
    decreases i,
{
    if i > 0 {
        let head = samples.take(i);
        assert(head.drop_last() =~= samples.take(i - 1));
        lemma_confirmed_before(m, samples, i - 1);
    }
}

/// Over any run of readings, reading `i` produces an event if and only if
/// its level differs from the level confirmed before it, and that event is
/// the transition to the new level with the timestamp of the edge.
pub proof fn law_event_iff_level_changed(m: EdgeMonitor, samples: Seq<Sample>, i: int)
    requires
        0 <= i < samples.len(),
    ensures
        ({
            let before = emitted_all(m, samples.take(i));
            let after = emitted_all(m, samples.take(i + 1));
            let confirmed = if i == 0 {
                m.confirmed
            } else {
                samples[i - 1].level
            };
            if samples[i].level == confirmed {
                after == before
            } else {
                after == before.push(transition(m.pump, samples[i].level, samples[i].stamp))
            }
        }),
{
    let head = samples.take(i + 1);
    assert(head.drop_last() =~= samples.take(i));
    assert(head.last() == samples[i]);
    lemma_confirmed_before(m, samples, i);
}

/// Readings that all find the confirmed level again are noise: they
/// produce no event and leave the monitor as it was.
pub proof fn law_noise_is_silent(m: EdgeMonitor, samples: Seq<Sample>)
    requires
        forall|i: int| 0 <= i < samples.len() ==> samples[i].level == m.confirmed,
    ensures
        emitted_all(m, samples) == Seq::<Message>::empty(),
        settled_all(m, samples) == m,
    decreases samples.len(),
{
    if samples.len() > 0 {
        law_noise_is_silent(m, samples.drop_last());
    }
}

} // verus!
