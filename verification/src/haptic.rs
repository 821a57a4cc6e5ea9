//! DRV2605 haptic motor driver: the register traffic of its two operations.

use vstd::prelude::*;

verus! {

/// I2C address of the driver.
pub const DRV2605_ADDR: u8 = 0x5A;

// Registers
pub const REG_STATUS: u8 = 0x00;

pub const REG_MODE: u8 = 0x01;

pub const REG_LIBRARY: u8 = 0x03;

/// Waveform sequencer slot 1.
pub const REG_WAVEFORM: u8 = 0x04;

pub const REG_GO: u8 = 0x0C;

pub const REG_RATED_VOLTAGE: u8 = 0x16;

pub const REG_OD_CLAMP: u8 = 0x17;

pub const REG_FEEDBACK: u8 = 0x1A;

pub const REG_CONTROL3: u8 = 0x1D;

/// Built-in ROM effects (ERM library).
/// Full list in DRV2605 datasheet Table 11.2.
#[derive(Debug, Clone, Copy, PartialEq, Eq, Structural)]
pub enum Effect {
    StrongClick,
    SharpClick,
    SoftBump,
    ShortBuzz,
    MediumClick,
    Tick,
}

/// The ROM number of an effect.
pub open spec fn effect_id(effect: Effect) -> u8 {
    match effect {
        Effect::StrongClick => 1,
        Effect::SharpClick => 4,
        Effect::SoftBump => 7,
        Effect::ShortBuzz => 47,
        Effect::MediumClick => 10,
        Effect::Tick => 27,
    }
}

impl Effect {
    /// The ROM number of the effect.
    pub fn id(self) -> (id: u8)
        ensures
            id == effect_id(self),
    {
        match self {
            Effect::StrongClick => 1,
            Effect::SharpClick => 4,
            Effect::SoftBump => 7,
            Effect::ShortBuzz => 47,
            Effect::MediumClick => 10,
            Effect::Tick => 27,
        }
    }
}

/// One access to the driver's registers. A failed access is passed over.
#[derive(Debug, Clone, Copy, PartialEq, Eq, Structural)]
pub enum Access {
    /// Read a register to see that the device is present.
    Probe(u8),
    /// Write a value to a register.
    Write(u8, u8),
    /// Read a register and, where that worked, write back `keep & value | set`.
    Modify { reg: u8, keep: u8, set: u8 },
}

/// The value that `Access::Modify` writes back.
pub fn modified(value: u8, keep: u8, set: u8) -> (r: u8)
    ensures
        r == (value & keep) | set,
{
    (value & keep) | set
}

/// The accesses that fire an effect.
pub open spec fn playing(effect: Effect) -> Seq<Access> {
    seq![
        Access::Write(REG_WAVEFORM, effect_id(effect)),
        Access::Write((REG_WAVEFORM + 1) as u8, 0x00),
        Access::Write(REG_GO, 0x01),
    ]
}

/// Stateless DRV2605 haptic driver.
pub struct Drv2605;

impl Drv2605 {
    /// The accesses that initialize the driver: internal trigger, ERM library,
    /// full drive strength, open loop for wider motor compatibility.
    pub fn init() -> (accesses: Vec<Access>)
        ensures
            accesses@ == seq![
                Access::Probe(REG_STATUS),
                Access::Write(REG_MODE, 0x00),
                Access::Write(REG_LIBRARY, 0x01),
                Access::Modify { reg: REG_FEEDBACK, keep: 0x7F, set: 0x00 },
                Access::Write(REG_RATED_VOLTAGE, 0xFF),
                Access::Write(REG_OD_CLAMP, 0xFF),
                Access::Modify { reg: REG_CONTROL3, keep: 0xFF, set: 0x20 },
            ],
    {
        vec![
            Access::Probe(REG_STATUS),
            Access::Write(REG_MODE, 0x00),
            Access::Write(REG_LIBRARY, 0x01),
            Access::Modify { reg: REG_FEEDBACK, keep: 0x7F, set: 0x00 },
            Access::Write(REG_RATED_VOLTAGE, 0xFF),
            Access::Write(REG_OD_CLAMP, 0xFF),
            Access::Modify { reg: REG_CONTROL3, keep: 0xFF, set: 0x20 },
        ]
    }

    /// The accesses that fire a ROM effect: waveform slot 1 holds the effect,
    /// slot 2 ends the sequence, and the GO bit starts it. The motor runs
    /// autonomously, so there is no need to wait.
    pub fn play(effect: Effect) -> (accesses: Vec<Access>)
        ensures
            accesses@ == playing(effect),
    {
        vec![
            Access::Write(REG_WAVEFORM, effect.id()),
            Access::Write(REG_WAVEFORM + 1, 0x00),
            Access::Write(REG_GO, 0x01),
        ]
    }
}

/// Initialization clears exactly the mode bit of the feedback register, and
/// sets exactly the open-loop bit of the third control register.
pub proof fn law_init_changes_one_bit(value: u8)
    ensures
        (value & 0x7F) | 0x00 == value % 128,
        ((value & 0xFF) | 0x20) == value || ((value & 0xFF) | 0x20) == value + 0x20,
{
    assert((value & 0x7F) | 0x00 == value % 128) by (bit_vector);
    assert(((value & 0xFF) | 0x20) == value || ((value & 0xFF) | 0x20) == value + 0x20) by (
    bit_vector);
}

/// No two effects are the same one in ROM, and each has a number there.
pub proof fn law_effects_differ(a: Effect, b: Effect)
    ensures
        effect_id(a) == effect_id(b) ==> a == b,
        1 <= effect_id(a) <= 123,
        effect_id(Effect::StrongClick) == 1,
        effect_id(Effect::SharpClick) == 4,
        effect_id(Effect::SoftBump) == 7,
        effect_id(Effect::MediumClick) == 10,
        effect_id(Effect::Tick) == 27,
        effect_id(Effect::ShortBuzz) == 47,
{
}

/// Firing an effect puts its number, and no other, into the first slot, ends the
/// sequence in the next one, and starts it last.
pub proof fn law_effect_is_fired(effect: Effect)
    ensures
        playing(effect).len() == 3,
        playing(effect)[0] == Access::Write(4, effect_id(effect)),
        playing(effect)[1] == Access::Write(5, 0),
        playing(effect)[2] == Access::Write(12, 1),
{
}

} // verus!
