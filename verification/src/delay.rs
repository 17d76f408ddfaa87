//! Delay values that a button press shortens and that wrap back to a start
//! value once they would get too short.

use vstd::prelude::*;

verus! {

/// Blink delay (in milliseconds) that the LED rotation starts with.
pub const BLINK_DELAY_START: u32 = 200;

/// Amount by which one press shortens the blink delay.
pub const BLINK_DELAY_STEP: u32 = 50;

/// What a press does to the blink delay: at or below one step it restarts
/// from the start value, else it loses one step.
pub open spec fn blink_delay_after_press(del: int) -> int {
    if del <= BLINK_DELAY_STEP {
        BLINK_DELAY_START as int
    } else {
        del - BLINK_DELAY_STEP
    }
}

/// The blink delay after one button press.
pub fn next_blink_delay(del: u32) -> (r: u32)
    ensures
        r == blink_delay_after_press(del as int),
{
    if del <= BLINK_DELAY_STEP {
        BLINK_DELAY_START
    } else {
        del - BLINK_DELAY_STEP
    }
}

/// The blink delay after one poll of the button: shortened when the button
/// reads as pressed, unchanged otherwise.
pub fn button_pressed(pressed: bool, del: u32) -> (r: u32)
    ensures
        pressed ==> r == blink_delay_after_press(del as int),
        !pressed ==> r == del,
{
    if pressed {
        next_blink_delay(del)
    } else {
        del
    }
}

/// What a press does to a delay that shrinks by `step` and reloads `reload`
/// once the shortened value falls below one step.
pub open spec fn shortened_delay(del: int, step: int, reload: int) -> int {
    if del - step < step {
        reload
    } else {
        del - step
    }
}

/// Shortens `del` by one `step`, reloading `reload` when the result would be
/// shorter than one step. The subtraction comes first, so `del` must hold at
/// least one step.
pub fn shorten_delay(del: u32, step: u32, reload: u32) -> (r: u32)
    requires
        step <= del,
    ensures
        r == shortened_delay(del as int, step as int, reload as int),
{
    let d = del - step;
    if d < step {
        reload
    } else {
        d
    }
}

/// Delay (in milliseconds) that the interrupt-driven blinker starts with.
pub const ISR_DELAY_START: u32 = 2000;

/// Amount (in milliseconds) by which one button interrupt shortens it.
pub const ISR_DELAY_STEP: u32 = 500;

/// Number of polls in the busy-wait loop that the polling blinkers start with.
pub const POLL_LOOP_START: u32 = 100_000;

/// Number of polls by which one press shortens that loop.
pub const POLL_LOOP_STEP: u32 = 25_000;

/// Timer period (in milliseconds) that the timer-polling blinker starts with.
pub const TIMER_PERIOD_START_MS: u32 = 2000;

/// Amount (in milliseconds) by which one press shortens that period.
pub const TIMER_PERIOD_STEP_MS: u32 = 1000;

/// A delay that each press shortens by a fixed step, reloading its start
/// value once it would fall below one step.
pub struct CyclingDelay {
    value: u32,
    step: u32,
    reload: u32,
}

impl CyclingDelay {
    #[verifier::type_invariant]
    closed spec fn inv(self) -> bool {
        &&& 0 < self.step <= self.reload
        &&& in_delay_cycle(self.value as int, self.step as int, self.reload as int)
    }

    /// The current delay.
    pub closed spec fn current(self) -> int {
        self.value as int
    }

    /// The amount one press takes off.
    pub closed spec fn step_size(self) -> int {
        self.step as int
    }

    /// The value the delay starts from and returns to.
    pub closed spec fn reload_value(self) -> int {
        self.reload as int
    }

    /// A delay that starts at `reload` and loses `step` per press.
    pub fn new(step: u32, reload: u32) -> (d: CyclingDelay)
        requires
            0 < step <= reload,
        ensures
            d.current() == reload,
            d.step_size() == step,
            d.reload_value() == reload,
    {
        CyclingDelay { value: reload, step, reload }
    }

    /// The current delay.
    /// It is always at least one step, at most the reload value, and a
    /// whole number of steps below the reload value.
    pub fn value(&self) -> (v: u32)
        ensures
            v == self.current(),
            in_delay_cycle(v as int, self.step_size(), self.reload_value()),
            0 < self.step_size() <= self.reload_value(),
    {
        proof {
            use_type_invariant(self);
        }
        self.value
    }

    /// One press: the delay loses a step, or reloads when less than a step
    /// would remain.
    pub fn press(&mut self)
        ensures
            final(self).current() == shortened_delay(
                old(self).current(),
                old(self).step_size(),
                old(self).reload_value(),
            ),
            final(self).step_size() == old(self).step_size(),
            final(self).reload_value() == old(self).reload_value(),
    {
        proof {
            use_type_invariant(&*self);
            delay_stays_in_cycle(self.value as int, self.step as int, self.reload as int);
        }
        self.value = shorten_delay(self.value, self.step, self.reload);
    }

}

/// The values a blink delay takes between presses: a positive multiple of
/// the step, no larger than the start value.
pub open spec fn in_blink_cycle(d: int) -> bool {
    &&& BLINK_DELAY_STEP <= d <= BLINK_DELAY_START
    &&& d % (BLINK_DELAY_STEP as int) == 0
}

/// `k` presses applied one after the other to the blink delay `d`.
pub open spec fn blink_delay_after_presses(d: int, k: nat) -> int
    decreases k,
{
    if k == 0 {
        d
    } else {
        blink_delay_after_press(blink_delay_after_presses(d, (k - 1) as nat))
    }
}

/// A press keeps the blink delay in its cycle: starting from the start
/// value, the delay is always a multiple of the step between one step and
/// the start value.
pub proof fn blink_delay_stays_in_cycle(d: int)
    requires
        in_blink_cycle(d),
    ensures
        in_blink_cycle(blink_delay_after_press(d)),
{
}

/// Four presses bring any blink delay of the cycle back to itself
/// (200, 150, 100, 50, 200, ...).
pub proof fn blink_delay_period(d: int)
    requires
        in_blink_cycle(d),
    ensures
        blink_delay_after_presses(d, 4) == d,
{
    reveal_with_fuel(blink_delay_after_presses, 5);
}

/// The values a delay that shrinks by `step` from `reload` takes between
/// presses: at least one step, at most the reload value, and a whole number
/// of steps short of the reload value.
pub open spec fn in_delay_cycle(d: int, step: int, reload: int) -> bool {
    &&& step <= d <= reload
    &&& d % step == reload % step
}

/// `k` presses applied one after the other to the delay `d`.
pub open spec fn delay_after_presses(d: int, step: int, reload: int, k: nat) -> int
    decreases k,
{
    if k == 0 {
        d
    } else {
        shortened_delay(delay_after_presses(d, step, reload, (k - 1) as nat), step, reload)
    }
}

/// A press keeps a shrinking delay in its cycle, so the subtraction in
/// `shorten_delay` never needs more than the delay holds: from its start
/// value a delay stays at least one step, at most the start value, and a
/// whole number of steps below it.
pub proof fn delay_stays_in_cycle(d: int, step: int, reload: int)
    requires
        0 < step <= reload,
        in_delay_cycle(d, step, reload),
    ensures
        in_delay_cycle(shortened_delay(d, step, reload), step, reload),
{
    vstd::arithmetic::div_mod::lemma_mod_sub_multiples_vanish(d, step);
}

/// The k-th press from the reload value gives the reload value less k steps,
/// as long as k is below the number of steps that the reload value holds.
proof fn delay_countdown(step: int, reload: int, n: nat, r: int, k: nat)
    requires
        0 < step,
        0 <= r < step,
        reload == n * step + r,
        k < n,
    ensures
        delay_after_presses(reload, step, reload, k) == reload - k * step,
    decreases k,
{
    if k == 0 {
        assert(k * step == 0) by (nonlinear_arith)
            requires
                k == 0,
        ;
    } else {
        delay_countdown(step, reload, n, r, (k - 1) as nat);
        assert(reload - (k - 1) * step - step == reload - k * step) by (nonlinear_arith);
        assert(reload - k * step >= step) by (nonlinear_arith)
            requires
                reload == n * step + r,
                0 <= r,
                k < n,
                0 < step,
        ;
        assert(delay_after_presses(reload, step, reload, k) == shortened_delay(
            delay_after_presses(reload, step, reload, (k - 1) as nat),
            step,
            reload,
        ));
    }
}

/// A delay that starts from its reload value comes back to it after as many
/// presses as the reload value holds whole steps (2000, 1500, 1000, 500,
/// 2000 for the interrupt blinker).
pub proof fn delay_period(step: int, reload: int)
    requires
        0 < step <= reload,
    ensures
        delay_after_presses(reload, step, reload, (reload / step) as nat) == reload,
{
    let n: nat = (reload / step) as nat;
    let r = reload % step;
    vstd::arithmetic::div_mod::lemma_fundamental_div_mod(reload, step);
    assert(reload == n * step + r) by (nonlinear_arith)
        requires
            reload == step * (reload / step) + reload % step,
            n == reload / step,
            r == reload % step,
    ;
    assert(n >= 1) by (nonlinear_arith)
        requires
            reload == n * step + r,
            0 <= r < step,
            0 < step <= reload,
    ;
    delay_countdown(step, reload, n, r, (n - 1) as nat);
    assert(reload - (n - 1) * step == step + r) by (nonlinear_arith)
        requires
            reload == n * step + r,
    ;
}

} // verus!
