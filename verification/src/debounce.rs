//! A debounced push button that counts its presses and shortens a busy-wait
//! loop on each one.

use vstd::prelude::*;
use crate::delay::{CyclingDelay, POLL_LOOP_START, POLL_LOOP_STEP, shortened_delay};

verus! {

/// A debouncer of the `debouncr` crate over `S` bits of history.
#[verifier::external_type_specification]
#[verifier::external_body]
#[verifier::reject_recursive_types(S)]
#[verifier::reject_recursive_types(M)]
pub struct ExDebouncer<S, M>(debouncr::Debouncer<S, M>);

/// The marker of `debouncr` for sixteen consecutive equal samples.
#[verifier::external_type_specification]
#[verifier::external_body]
pub struct ExRepeat16(debouncr::Repeat16);

/// The last sixteen samples that a sixteen-sample debouncer holds, oldest
/// first (the crate keeps them as the bits of a `u16`, newest in the lowest
/// bit).
pub uninterp spec fn debouncer_history(d: debouncr::Debouncer<u16, debouncr::Repeat16>) -> Seq<
    bool,
>;

/// Every sample of `s` equals `b`.
pub open spec fn all_samples(s: Seq<bool>, b: bool) -> bool {
    forall|i: int| 0 <= i < s.len() ==> s[i] == b
}

/// A debounced edge: sixteen equal samples after a change.
#[derive(PartialEq, Eq, Structural, Debug, Clone, Copy)]
pub enum DebouncedEdge {
    Rising,
    Falling,
}

/// What one update of a debouncer reports, from the samples it held before
/// and after: nothing when the new sample matches all that it held, else a
/// rising edge once all samples are pressed, a falling edge once none is.
pub open spec fn debounce_result(before: Seq<bool>, after: Seq<bool>, pressed: bool) -> Option<
    DebouncedEdge,
> {
    if all_samples(before, pressed) {
        None
    } else if all_samples(after, true) {
        Some(DebouncedEdge::Rising)
    } else if all_samples(after, false) {
        Some(DebouncedEdge::Falling)
    } else {
        None
    }
}

/// A sixteen-sample debouncer, through `debouncr::debounce_16`, which fills
/// all sixteen bits with the initial state.
#[verifier::external_body]
fn new_debouncer(initial_pressed: bool) -> (d: debouncr::Debouncer<u16, debouncr::Repeat16>)
    ensures
        debouncer_history(d) == Seq::new(16, |i: int| initial_pressed),
{
    debouncr::debounce_16(initial_pressed)
}

/// One sample, through `debouncr::Debouncer::update`. Its source shifts the
/// sample in as the newest bit, dropping the oldest (a no-op when all bits
/// already equal the sample, where it returns at once), and reports a
/// rising edge when all bits are set, a falling edge when none is, and
/// nothing otherwise or on the early return.
#[verifier::external_body]
fn update_debouncer(d: &mut debouncr::Debouncer<u16, debouncr::Repeat16>, pressed: bool) -> (r:
    Option<DebouncedEdge>)
    ensures
        debouncer_history(*final(d)) == debouncer_history(*old(d)).drop_first().push(pressed),
        r == debounce_result(
            debouncer_history(*old(d)),
            debouncer_history(*old(d)).drop_first().push(pressed),
            pressed,
        ),
{
    match d.update(pressed) {
        Some(debouncr::Edge::Rising) => Some(DebouncedEdge::Rising),
        Some(debouncr::Edge::Falling) => Some(DebouncedEdge::Falling),
        None => None,
    }
}

/// A debouncer's samples after `k` more samples equal to `b`.
pub open spec fn fed(h: Seq<bool>, b: bool, k: nat) -> Seq<bool>
    decreases k,
{
    if k == 0 {
        h
    } else {
        fed(h, b, (k - 1) as nat).drop_first().push(b)
    }
}

/// An edge is only reported once the sixteen samples agree: a rising edge
/// when all of them are pressed, a falling edge when none is.
pub proof fn edge_only_when_settled(before: Seq<bool>, pressed: bool)
    requires
        before.len() == 16,
    ensures
        debounce_result(before, before.drop_first().push(pressed), pressed) == Some(
            DebouncedEdge::Rising,
        ) ==> pressed && all_samples(before.drop_first().push(pressed), true),
        debounce_result(before, before.drop_first().push(pressed), pressed) == Some(
            DebouncedEdge::Falling,
        ) ==> !pressed && all_samples(before.drop_first().push(pressed), false),
{
    let after = before.drop_first().push(pressed);
    assert(after[15] == pressed);
}

/// The samples after `k <= 16` further equal samples: the newest `16 - k`
/// of the old ones, then `k` copies of the new one.
proof fn fed_shape(h: Seq<bool>, b: bool, k: nat)
    requires
        h.len() == 16,
        k <= 16,
    ensures
        fed(h, b, k) =~= h.skip(k as int) + Seq::new(k, |i: int| b),
    decreases k,
{
    if k > 0 {
        fed_shape(h, b, (k - 1) as nat);
        assert((h.skip((k - 1) as int) + Seq::new((k - 1) as nat, |i: int| b)).drop_first().push(b)
            =~= h.skip(k as int) + Seq::new(k, |i: int| b));
    }
}

/// Sixteen equal samples in a row settle the debouncer on that sample,
/// whatever it held before.
pub proof fn sixteen_samples_settle(h: Seq<bool>, b: bool)
    requires
        h.len() == 16,
    ensures
        all_samples(fed(h, b, 16), b),
        fed(h, b, 16).len() == 16,
{
    fed_shape(h, b, 16);
}

/// A push button read through a sixteen-sample debouncer: each falling edge
/// counts as a press, is numbered (the count wraps after 255), and shortens
/// the busy-wait loop between LED toggles.
pub struct PressMonitor {
    debouncer: debouncr::Debouncer<u16, debouncr::Repeat16>,
    presses: u8,
    wait: CyclingDelay,
}

impl PressMonitor {
    /// The samples the debouncer holds, oldest first.
    pub closed spec fn history(&self) -> Seq<bool> {
        debouncer_history(self.debouncer)
    }

    /// The presses counted so far, modulo 256.
    pub closed spec fn press_count(&self) -> u8 {
        self.presses
    }

    /// The current length of the busy-wait loop.
    pub closed spec fn wait_polls(&self) -> int {
        self.wait.current()
    }

    /// The step and reload value of the busy-wait loop.
    pub closed spec fn wait_shape(&self) -> (int, int) {
        (self.wait.step_size(), self.wait.reload_value())
    }

    /// A monitor for a released button: no presses, the longest loop.
    pub fn new() -> (m: PressMonitor)
        ensures
            m.history() == Seq::new(16, |i: int| false),
            m.press_count() == 0,
            m.wait_polls() == POLL_LOOP_START,
            m.wait_shape() == (POLL_LOOP_STEP as int, POLL_LOOP_START as int),
    {
        PressMonitor {
            debouncer: new_debouncer(false),
            presses: 0,
            wait: CyclingDelay::new(POLL_LOOP_STEP, POLL_LOOP_START),
        }
    }

    /// Number of polls in the next busy-wait loop.
    pub fn wait_length(&self) -> (n: u32)
        ensures
            n == self.wait_polls(),
    {
        self.wait.value()
    }

    /// Takes one sample of the button. On a debounced falling edge it gives
    /// the number of the press (the count before this one), counts it and
    /// shortens the loop; otherwise it gives `None`.
    pub fn poll(&mut self, pressed: bool) -> (r: Option<u8>)
        ensures
            final(self).history() == old(self).history().drop_first().push(pressed),
            final(self).wait_shape() == old(self).wait_shape(),
            debounce_result(old(self).history(), final(self).history(), pressed) == Some(
                DebouncedEdge::Falling,
            ) ==> {
                &&& r == Some(old(self).press_count())
                &&& final(self).press_count() == (old(self).press_count() + 1) % 256
                &&& final(self).wait_polls() == shortened_delay(
                    old(self).wait_polls(),
                    old(self).wait_shape().0,
                    old(self).wait_shape().1,
                )
            },
            debounce_result(old(self).history(), final(self).history(), pressed) != Some(
                DebouncedEdge::Falling,
            ) ==> {
                &&& r is None
                &&& final(self).press_count() == old(self).press_count()
                &&& final(self).wait_polls() == old(self).wait_polls()
            },
    {
        let edge = update_debouncer(&mut self.debouncer, pressed);
        match edge {
            Some(DebouncedEdge::Falling) => {
                let number = self.presses;
                self.presses = self.presses.wrapping_add(1);
                self.wait.press();
                Some(number)
            },
            _ => None,
        }
    }
}

} // verus!
