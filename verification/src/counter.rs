//! Counting button presses reported by an interrupt or an edge wait.

use vstd::prelude::*;

verus! {

/// A running count of button presses.
pub struct PressCounter {
    pub count: u32,
}

impl PressCounter {
    /// A counter at zero.
    pub fn new() -> (c: PressCounter)
        ensures
            c.count == 0,
    {
        PressCounter { count: 0 }
    }

    /// Services the flag that the button interrupt raises: when it is set,
    /// one more press is counted (the count wraps around after `u32::MAX`)
    /// and the new count is given, to be printed; when it is clear, nothing
    /// happens.
    pub fn service_flag(&mut self, flag_set: bool) -> (r: Option<u32>)
        ensures
            flag_set ==> final(self).count == (old(self).count + 1) % 0x1_0000_0000 && r == Some(
                final(self).count,
            ),
            !flag_set ==> final(self).count == old(self).count && r is None,
    {
        if flag_set {
            self.count = self.count.wrapping_add(1);
            Some(self.count)
        } else {
            None
        }
    }

    /// Counts one press seen on a rising edge and gives the new count, to
    /// be signalled to the task that reports it.
    pub fn press(&mut self) -> (n: u32)
        requires
            old(self).count < u32::MAX,
        ensures
            final(self).count == old(self).count + 1,
            n == final(self).count,
    {
        self.count = self.count + 1;
        self.count
    }
}

} // verus!
