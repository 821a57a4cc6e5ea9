//! CST816 capacitive touch controller: register decoding and gesture
//! reporting.

use vstd::prelude::*;

use crate::messages::GestureKind;

verus! {

/// I2C address of the controller.
pub const CST816_ADDR: u8 = 0x15;

// Registers: 0x01..0x06 are read as a block, so only start/chip/sleep are used
// directly.
pub const REG_GESTURE_ID: u8 = 0x01;

pub const REG_CHIP_ID: u8 = 0xA7;

pub const REG_DIS_AUTOSLEEP: u8 = 0xFE;

/// Gesture types reported by the CST816.
#[derive(Debug, Clone, Copy, PartialEq, Eq, Structural)]
pub enum Gesture {
    NoGesture,
    SwipeUp,
    SwipeDown,
    SwipeLeft,
    SwipeRight,
    SingleTap,
    DoubleTap,
    LongPress,
}

/// The gesture that a register value stands for.
pub open spec fn gesture_of(id: u8) -> Gesture {
    match id {
        0x01u8 => Gesture::SwipeUp,
        0x02u8 => Gesture::SwipeDown,
        0x03u8 => Gesture::SwipeLeft,
        0x04u8 => Gesture::SwipeRight,
        0x05u8 => Gesture::SingleTap,
        0x0Bu8 => Gesture::DoubleTap,
        0x0Cu8 => Gesture::LongPress,
        _ => Gesture::NoGesture,
    }
}

impl Gesture {
    /// The gesture that the controller reports as `id`.
    pub fn from_id(id: u8) -> (g: Self)
        ensures
            g == gesture_of(id),
    {
        match id {
            0x01 => Gesture::SwipeUp,
            0x02 => Gesture::SwipeDown,
            0x03 => Gesture::SwipeLeft,
            0x04 => Gesture::SwipeRight,
            0x05 => Gesture::SingleTap,
            0x0B => Gesture::DoubleTap,
            0x0C => Gesture::LongPress,
            _ => Gesture::NoGesture,
        }
    }
}

/// The wire form of a gesture; double taps and no gesture have none.
pub open spec fn wire_gesture_of(g: Gesture) -> Option<GestureKind> {
    match g {
        Gesture::SingleTap => Some(GestureKind::SingleTap),
        Gesture::LongPress => Some(GestureKind::LongPress),
        Gesture::SwipeUp => Some(GestureKind::SwipeUp),
        Gesture::SwipeDown => Some(GestureKind::SwipeDown),
        Gesture::SwipeLeft => Some(GestureKind::SwipeLeft),
        Gesture::SwipeRight => Some(GestureKind::SwipeRight),
        Gesture::DoubleTap | Gesture::NoGesture => None,
    }
}

/// Convert a touch gesture to the wire protocol enum.
pub fn to_wire_gesture(g: Gesture) -> (kind: Option<GestureKind>)
    ensures
        kind == wire_gesture_of(g),
{
    match g {
        Gesture::SingleTap => Some(GestureKind::SingleTap),
        Gesture::LongPress => Some(GestureKind::LongPress),
        Gesture::SwipeUp => Some(GestureKind::SwipeUp),
        Gesture::SwipeDown => Some(GestureKind::SwipeDown),
        Gesture::SwipeLeft => Some(GestureKind::SwipeLeft),
        Gesture::SwipeRight => Some(GestureKind::SwipeRight),
        Gesture::DoubleTap | Gesture::NoGesture => None,
    }
}

/// Touch event: position + gesture.
#[derive(Debug, Clone, Copy)]
pub struct TouchEvent {
    pub x: u16,
    pub y: u16,
    pub gesture: Gesture,
}

/// CST816 touch state between two register reads.
pub struct Cst816 {
    last_gesture: Gesture,
    /// Updated on every successful `read` from the `num_points` register.
    /// More reliable than the IRQ pin for detecting a sustained hold.
    finger_down: bool,
}

/// A twelve-bit coordinate: four low bits of `high`, then `low`.
pub open spec fn coordinate(high: u8, low: u8) -> u16 {
    ((high % 16) * 256 + low) as u16
}

impl View for Cst816 {
    /// Last gesture, and whether a finger is down.
    type V = (Gesture, bool);

    closed spec fn view(&self) -> (Gesture, bool) {
        (self.last_gesture, self.finger_down)
    }
}

/// The six registers say that nothing happens: no finger and no gesture, or the
/// value the controller gives while it is busy.
pub open spec fn idle_registers(regs: Seq<u8>) -> bool {
    regs[1] == 0xFF || (regs[1] == 0 && gesture_of(regs[0]) == Gesture::NoGesture)
}

/// A new gesture has been recognised.
pub open spec fn reports(last: Gesture, regs: Seq<u8>) -> bool {
    !idle_registers(regs) && gesture_of(regs[0]) != last && gesture_of(regs[0]) != Gesture::NoGesture
}

/// The last gesture, and whether a finger is down, after a read of the registers.
pub open spec fn state_after(t: (Gesture, bool), regs: Seq<u8>) -> (Gesture, bool) {
    (
        if regs[1] == 0xFF {
            t.0
        } else {
            gesture_of(regs[0])
        },
        regs[1] != 0 && regs[1] != 0xFF,
    )
}

/// The event that a read of the registers gives.
pub open spec fn event_in(last: Gesture, regs: Seq<u8>) -> Option<TouchEvent> {
    if reports(last, regs) {
        Some(
            TouchEvent {
                x: coordinate(regs[2], regs[3]),
                y: coordinate(regs[4], regs[5]),
                gesture: gesture_of(regs[0]),
            },
        )
    } else {
        None
    }
}

impl Cst816 {
    /// No gesture yet, no finger.
    pub fn new() -> (t: Self)
        ensures
            t@ == (Gesture::NoGesture, false),
    {
        Cst816 { last_gesture: Gesture::NoGesture, finger_down: false }
    }

    /// Returns true if the touch IRQ pin is asserted (active LOW), given the
    /// pin's level.
    pub fn is_touched(&self, irq_low: bool) -> (r: bool)
        ensures
            r == irq_low,
    {
        irq_low
    }

    /// Returns true if a finger is currently on the screen, based on the
    /// `num_points` register read during the last `read` call.
    pub fn is_finger_down(&self) -> (down: bool)
        ensures
            down == self@.1,
    {
        self.finger_down
    }

    /// The registers have to be read: the IRQ pin is asserted or a finger was
    /// already down. Tap and long-press gestures fire at finger-lift when IRQ
    /// is already high, so the second condition catches those.
    pub fn needs_read(&self, irq_low: bool) -> (r: bool)
        ensures
            r == (irq_low || self@.1),
    {
        self.is_touched(irq_low) || self.is_finger_down()
    }

    /// Evaluate a read of the registers 0x01..0x06 (gesture, num_points, x, y);
    /// `None` where the bus transfer failed.
    ///
    /// Always evaluates the registers rather than gating on IRQ, because
    /// tap/long-press gestures are reported at finger-lift when IRQ has already
    /// gone HIGH. A gesture is reported once.
    pub fn read(&mut self, registers: Option<[u8; 6]>) -> (event: Option<TouchEvent>)
        ensures
            match registers {
                None => event is None && *final(self) == *old(self),
                Some(regs) => {
                    &&& final(self)@ == state_after(old(self)@, regs@)
                    &&& event == event_in(old(self)@.0, regs@)
                },
            },
    {
        let buf = match registers {
            Some(buf) => buf,
            None => return None,
        };
        let gesture = Gesture::from_id(buf[0]);
        let num_points = buf[1];

        // Cache finger presence from the register: more reliable than the IRQ
        // pin, which only pulses briefly and is high again by finger-lift time.
        self.finger_down = num_points > 0 && num_points != 0xFF;

        // No finger and no gesture: nothing happening
        if num_points == 0 && gesture == Gesture::NoGesture {
            self.last_gesture = Gesture::NoGesture;
            return None;
        }
        if num_points == 0xFF {
            return None;
        }
        // Only report a gesture once: skip if same as last time
        if gesture == self.last_gesture {
            return None;
        }
        self.last_gesture = gesture;

        // Skip None gestures (raw touch points)
        if gesture == Gesture::NoGesture {
            return None;
        }
        let (xh, xl, yh, yl) = (buf[2], buf[3], buf[4], buf[5]);
        let x: u16 = ((xh as u16 & 0x0F) << 8) | xl as u16;
        let y: u16 = ((yh as u16 & 0x0F) << 8) | yl as u16;
        assert((((xh as u16 & 0x0F) << 8) | xl as u16) == (xh % 16) * 256 + xl) by (bit_vector);
        assert((((yh as u16 & 0x0F) << 8) | yl as u16) == (yh % 16) * 256 + yl) by (bit_vector);
        Some(TouchEvent { x, y, gesture })
    }
}

/// A gesture that the controller keeps reporting is reported once: two reads of
/// the same registers never give two events.
pub proof fn law_gesture_reported_once(last: Gesture, regs: Seq<u8>)
    requires
        regs.len() == 6,
        reports(last, regs),
    ensures
        !reports(gesture_of(regs[0]), regs),
{
}

/// The controller's numbers of the gestures, each of which it has one for, and
/// that it reports none with any other number.
pub proof fn law_gesture_numbers(id: u8)
    ensures
        gesture_of(id) == Gesture::SwipeUp <==> id == 1,
        gesture_of(id) == Gesture::SwipeDown <==> id == 2,
        gesture_of(id) == Gesture::SwipeLeft <==> id == 3,
        gesture_of(id) == Gesture::SwipeRight <==> id == 4,
        gesture_of(id) == Gesture::SingleTap <==> id == 5,
        gesture_of(id) == Gesture::DoubleTap <==> id == 11,
        gesture_of(id) == Gesture::LongPress <==> id == 12,
{
}

/// No two gestures have the same name on the wire, and all but double taps have
/// one.
pub proof fn law_wire_names_differ(g: Gesture, h: Gesture)
    ensures
        wire_gesture_of(g) is Some && wire_gesture_of(g) == wire_gesture_of(h) ==> g == h,
        wire_gesture_of(g) is None <==> g == Gesture::DoubleTap || g == Gesture::NoGesture,
        wire_gesture_of(Gesture::SingleTap) == Some(GestureKind::SingleTap),
        wire_gesture_of(Gesture::LongPress) == Some(GestureKind::LongPress),
        wire_gesture_of(Gesture::SwipeUp) == Some(GestureKind::SwipeUp),
        wire_gesture_of(Gesture::SwipeDown) == Some(GestureKind::SwipeDown),
        wire_gesture_of(Gesture::SwipeLeft) == Some(GestureKind::SwipeLeft),
        wire_gesture_of(Gesture::SwipeRight) == Some(GestureKind::SwipeRight),
{
}

/// A gesture that is new is reported, with a finger down or without; a finger
/// without a gesture, a gesture that was there before and a busy controller are
/// not.
pub proof fn law_new_gestures_are_reported(last: Gesture, regs: Seq<u8>)
    requires
        regs.len() == 6,
    ensures
        reports(last, regs) <==> {
            &&& regs[1] != 255
            &&& gesture_of(regs[0]) != Gesture::NoGesture
            &&& gesture_of(regs[0]) != last
        },
{
}

/// Positions are twelve-bit numbers, and every one has registers that mean it.
pub proof fn law_coordinates(high: u8, low: u8, at: u16)
    ensures
        coordinate(high, low) < 4096,
        coordinate(high, low) % 256 == low,
        high < 16 ==> coordinate(high, low) / 256 == high,
        at < 4096 ==> coordinate((at / 256) as u8, (at % 256) as u8) == at,
{
}

/// A finger is down while the controller counts any, but not while it is busy.
/// What is reported is where the controller saw it, across and down, and which
/// gesture it was.
pub proof fn law_read(t: (Gesture, bool), regs: Seq<u8>)
    requires
        regs.len() == 6,
    ensures
        state_after(t, regs).1 <==> 1 <= regs[1] <= 254,
        regs[1] != 255 ==> state_after(t, regs).0 == gesture_of(regs[0]),
        regs[1] == 255 ==> state_after(t, regs).0 == t.0,
        event_in(t.0, regs) matches Some(e) ==> {
            &&& e.x == (regs[2] % 16) * 256 + regs[3]
            &&& e.y == (regs[4] % 16) * 256 + regs[5]
            &&& e.gesture == gesture_of(regs[0])
            &&& e.gesture != Gesture::NoGesture
        },
{
}

/// A gesture is reported once for as long as it lasts, and again once the
/// controller has seen none in between.
pub proof fn law_gesture_again(t: (Gesture, bool), first: Seq<u8>, between: Seq<u8>)
    requires
        first.len() == 6,
        between.len() == 6,
        first[1] != 255,
        gesture_of(first[0]) != Gesture::NoGesture,
        between[1] != 255,
        gesture_of(between[0]) == Gesture::NoGesture,
    ensures
        event_in(state_after(t, first).0, first) is None,
        event_in(t.0, between) is None,
        event_in(state_after(state_after(t, first), between).0, first) is Some,
{
}

} // verus!
