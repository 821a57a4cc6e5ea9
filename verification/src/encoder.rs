//! Rotary encoder: step counting with one debounce guard for both channels.

use vstd::prelude::*;

use crate::backlight;

verus! {

/// Minimum microseconds between any two accepted counts (same OR opposite
/// channel).
///
/// 8 ms suppresses contact bounce (typically < 2 ms) and delayed cross-channel
/// pulses from mechanical coupling. Maximum reliable step rate at 8 ms = 125
/// steps/sec, well above any realistic volume-knob speed.
pub const GUARD_US: u32 = 8_000;

/// Interrupt-driven rotary encoder with hardware-timer debounce.
///
/// Rising edges on the encoder channels are counted in the GPIO interrupt, so
/// no steps are missed regardless of main-loop timing. A unified cross-channel
/// guard suppresses both contact bounce and the spurious opposite-direction
/// pulses that a polling driver would miss.
pub struct Encoder {
    /// Net step count. Positive = CW (channel A), negative = CCW (channel B).
    count: i32,
    /// Microseconds since boot, wrapping, of the last accepted count from
    /// either channel.
    last_count_us: u32,
}

/// One step up or down on a counter that wraps.
pub open spec fn stepped(count: i32, up: bool) -> i32 {
    if up {
        if count == i32::MAX {
            i32::MIN
        } else {
            (count + 1) as i32
        }
    } else {
        if count == i32::MIN {
            i32::MAX
        } else {
            (count - 1) as i32
        }
    }
}

/// The count and its time after an interrupt at `now_us` with rising edges on
/// `a` and `b`, from `e`.
pub open spec fn interrupted(e: (i32, u32), now_us: u32, a: bool, b: bool) -> (i32, u32) {
    if (a || b) && backlight::ticks_between(e.1, now_us) >= GUARD_US {
        (stepped(e.0, a), now_us)
    } else {
        e
    }
}

impl View for Encoder {
    /// Count, and when it last changed.
    type V = (i32, u32);

    closed spec fn view(&self) -> (i32, u32) {
        (self.count, self.last_count_us)
    }
}

impl Encoder {
    /// An encoder that has not moved.
    pub fn new() -> (e: Self)
        ensures
            e@ == (0i32, 0u32),
    {
        Encoder { count: 0, last_count_us: 0 }
    }

    /// No-op: steps are accumulated by the GPIO interrupt.
    pub fn poll(&mut self)
        ensures
            *final(self) == *old(self),
    {
    }

    /// Net accumulated step count. Positive = CW, negative = CCW.
    pub fn get(&self) -> (count: i32)
        ensures
            count == self@.0,
    {
        self.count
    }

    /// The GPIO interrupt: `a` and `b` say which channel has a rising edge
    /// pending.
    ///
    /// Both channels share a single gate timestamp. Whichever channel comes
    /// first wins; the other is suppressed for `GUARD_US`.
    pub fn on_interrupt(&mut self, now_us: u32, a: bool, b: bool)
        ensures
            final(self)@ == interrupted(old(self)@, now_us, a, b),
    {
        let elapsed: u32 = now_us.wrapping_sub(self.last_count_us);
        if elapsed >= GUARD_US {
            if a {
                self.count = self.count.wrapping_add(1);
                self.last_count_us = now_us;
            } else if b {
                self.count = self.count.wrapping_sub(1);
                self.last_count_us = now_us;
            }
        }
    }
}

/// Two accepted counts are at least `GUARD_US` apart: after one, an edge on
/// either channel that comes sooner changes nothing.
pub proof fn law_guard(e: (i32, u32), t1: u32, a1: bool, b1: bool, t2: u32, a2: bool, b2: bool)
    requires
        a1 || b1,
        backlight::ticks_between(e.1, t1) >= GUARD_US,
        backlight::ticks_between(t1, t2) < GUARD_US,
    ensures
        interrupted(interrupted(e, t1, a1, b1), t2, a2, b2) == interrupted(e, t1, a1, b1),
{
}

/// A step back undoes a step forward, wherever the counter stands.
pub proof fn law_steps_cancel(count: i32)
    ensures
        stepped(stepped(count, true), false) == count,
        stepped(stepped(count, false), true) == count,
{
}

/// A rising edge on the first channel counts one up, one on the second alone one
/// down, once the guard time is over; without an edge nothing changes.
pub proof fn law_channels_count(e: (i32, u32), now_us: u32, a: bool, b: bool)
    ensures
        ({
            let then = interrupted(e, now_us, a, b);
            let open = backlight::ticks_between(e.1, now_us) >= 8000;
            &&& !open || (!a && !b) ==> then == e
            &&& open && a && e.0 < i32::MAX ==> then == ((e.0 + 1) as i32, now_us)
            &&& open && !a && b && e.0 > i32::MIN ==> then == ((e.0 - 1) as i32, now_us)
            &&& open && a && e.0 == i32::MAX ==> then == (i32::MIN, now_us)
            &&& open && !a && b && e.0 == i32::MIN ==> then == (i32::MAX, now_us)
        }),
{
}

} // verus!
