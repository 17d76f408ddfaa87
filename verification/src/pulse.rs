//! Measuring pulses and echoes: the width of a square-wave pulse from the
//! clock readings at its edges, the edge tracking of a polled input, and the
//! distance that an ultrasonic echo stands for.

use vstd::prelude::*;

verus! {

/// Ticks elapsed from `earlier` to `later`, both counted since boot, through
/// `embassy_time::Instant::checked_duration_since`. As its source shows, it
/// gives `None` when `later` comes before `earlier` and otherwise the
/// difference of the two tick counts.
#[verifier::external_body]
fn ticks_between(later: u64, earlier: u64) -> (r: Option<u64>)
    ensures
        r == (if later < earlier {
            None
        } else {
            Some((later - earlier) as u64)
        }),
{
    match embassy_time::Instant::from_ticks(later).checked_duration_since(
        embassy_time::Instant::from_ticks(earlier),
    ) {
        Some(d) => Some(d.as_ticks()),
        None => None,
    }
}

/// Whole milliseconds in a span of `ticks`, through
/// `embassy_time::Duration::as_millis`. Its source computes
/// `ticks * (1000 / g) / (TICK_HZ / g)` with `g` the greatest common divisor
/// of 1000 and the tick rate; with the one-megahertz tick rate that this
/// build selects that is `ticks / 1000`.
#[verifier::external_body]
fn ticks_as_millis(ticks: u64) -> (ms: u64)
    ensures
        ms == ticks / 1000,
{
    embassy_time::Duration::from_ticks(ticks).as_millis()
}

/// The width, in whole milliseconds, of a pulse that rose at tick `rise`
/// and fell at tick `fall`.
pub fn pulse_width_ms(rise: u64, fall: u64) -> (ms: u64)
    requires
        rise <= fall,
    ensures
        ms == (fall - rise) / 1000,
{
    match ticks_between(fall, rise) {
        Some(t) => ticks_as_millis(t),
        None => 0,
    }
}

/// Read from a clock that never goes back, every rising-edge reading is at
/// most the falling-edge reading that follows it, so `pulse_width_ms` can be
/// called on each pulse of a run and measuring never fails.
pub proof fn steady_clock_measures_every_pulse(readings: Seq<u64>)
    requires
        forall|i: int, j: int| 0 <= i <= j < readings.len() ==> readings[i] <= readings[j],
    ensures
        forall|i: int| 0 <= i && i + 1 < readings.len() ==> #[trigger] readings[i] <= readings[i + 1],
{
    assert forall|i: int| 0 <= i && i + 1 < readings.len() implies #[trigger] readings[i]
        <= readings[i + 1] by {
        assert(readings[i] <= readings[i + 1]);
    }
}

/// The level of a digital input.
#[derive(PartialEq, Eq, Structural, Debug, Clone, Copy)]
pub enum Level {
    Low,
    High,
}

/// What the pulse timer does after a poll of its input.
#[derive(PartialEq, Eq, Structural, Debug, Clone, Copy)]
pub enum EdgeAction {
    /// A rising edge: restart the counter from zero.
    RestartCounter,
    /// A falling edge: read the counter, which holds the pulse width.
    ReadCounter,
    /// No change of level.
    Nothing,
}

/// The action for a poll that reads `level` after `last`.
pub open spec fn edge_action(last: Level, level: Level) -> EdgeAction {
    if level == last {
        EdgeAction::Nothing
    } else if level == Level::High {
        EdgeAction::RestartCounter
    } else {
        EdgeAction::ReadCounter
    }
}

/// Counter restarts and counter reads alternate: after a restart, the next
/// poll that does anything reads the counter, and after a read the next one
/// restarts it.
pub proof fn edges_alternate(l0: Level, l1: Level, l2: Level)
    ensures
        edge_action(l0, l1) == EdgeAction::RestartCounter && edge_action(l1, l2)
            != EdgeAction::Nothing ==> edge_action(l1, l2) == EdgeAction::ReadCounter,
        edge_action(l0, l1) == EdgeAction::ReadCounter && edge_action(l1, l2)
            != EdgeAction::Nothing ==> edge_action(l1, l2) == EdgeAction::RestartCounter,
{
}

/// Follows the level of a polled input to find the edges of its pulses,
/// and keeps the counter value read at the last falling edge.
pub struct PulseTracker {
    pub last_level: Level,
    pub width_ticks: u64,
}

impl PulseTracker {
    /// A tracker whose input was last seen at `level`, with no pulse
    /// measured yet.
    pub fn new(level: Level) -> (t: PulseTracker)
        ensures
            t.last_level == level,
            t.width_ticks == 0,
    {
        PulseTracker { last_level: level, width_ticks: 0 }
    }

    /// Takes the level read by a poll: a change to high asks for a counter
    /// restart, a change to low for a counter read, and the new level is
    /// remembered in either case.
    pub fn poll(&mut self, level: Level) -> (a: EdgeAction)
        ensures
            final(self).last_level == level,
            final(self).width_ticks == old(self).width_ticks,
            a == edge_action(old(self).last_level, level),
    {
        if level != self.last_level && level == Level::High {
            self.last_level = level;
            EdgeAction::RestartCounter
        } else if level != self.last_level && level == Level::Low {
            self.last_level = level;
            EdgeAction::ReadCounter
        } else {
            EdgeAction::Nothing
        }
    }

    /// Keeps the counter value read at a falling edge.
    pub fn capture(&mut self, count: u64)
        ensures
            final(self).last_level == old(self).last_level,
            final(self).width_ticks == count,
    {
        self.width_ticks = count;
    }

    /// The last pulse width in milliseconds, for a counter that ticks at one
    /// megahertz.
    pub fn width_ms(&self) -> (ms: u64)
        ensures
            ms == self.width_ticks / 1000,
    {
        self.width_ticks / 1000
    }
}

/// Counts of the system timer per microsecond.
pub const SYSTIMER_TICKS_PER_US: u64 = 16;

/// Microseconds of echo time per centimetre of distance to the obstacle.
pub const ECHO_US_PER_CM: u64 = 58;

/// The distance, in whole centimetres, that an echo seen between the timer
/// readings `start` and `end` stands for. The timer count wraps around, so
/// the echo time is the difference modulo 2^64.
pub fn echo_distance_cm(start: u64, end: u64) -> (cm: u64)
    ensures
        cm == ((end - start) % 0x1_0000_0000_0000_0000) as nat / 16 / 58,
{
    let dur = end.wrapping_sub(start);
    dur / SYSTIMER_TICKS_PER_US / ECHO_US_PER_CM
}

/// Dividing by 16 and then by 58 is dividing by 928: the distance is the
/// echo time in timer counts divided by 928.
pub proof fn echo_distance_is_one_division(dur: nat)
    ensures
        dur / 16 / 58 == dur / 928,
{
    vstd::arithmetic::div_mod::lemma_div_denominator(dur as int, 16, 58);
}

/// A longer echo never means a shorter distance.
pub proof fn echo_distance_monotonic(d1: nat, d2: nat)
    requires
        d1 <= d2,
    ensures
        d1 / 16 / 58 <= d2 / 16 / 58,
{
    vstd::arithmetic::div_mod::lemma_div_is_ordered(d1 as int, d2 as int, 16);
    vstd::arithmetic::div_mod::lemma_div_is_ordered((d1 / 16) as int, (d2 / 16) as int, 58);
}

} // verus!
