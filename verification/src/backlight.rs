//! Backlight brightness with idle auto-dim and auto-off.
//!
//! State machine driven from the main loop's tick count:
//!
//! ```text
//!     activity                activity
//!  +----------+            +----------+
//!  v          |            v          |
//! Active --- dim_after --> Dim ----- off_after --> Off
//!                                                   |
//!                                             wake (encoder
//!                                             or first touch)
//!                                                   |
//!                                                   v
//!                                                Active
//! ```
//!
//! Each step returns the duty cycle that has to be written to the PWM channel,
//! if one has.

use vstd::prelude::*;

verus! {

#[derive(Debug, Clone, Copy, PartialEq, Eq, Structural)]
pub enum State {
    Active,
    Dim,
    Off,
}

/// Default config, tuned for a desktop knob. 30 s to dim, then 90 s to fully
/// off (so 2 minutes total of idleness before the screen blanks).
pub const DEFAULT_ACTIVE_PCT: u8 = 100;

pub const DEFAULT_DIM_AFTER_SECS: u16 = 30;

pub const DEFAULT_OFF_AFTER_SECS: u16 = 90;

/// Main loop runs at ~3 ms/tick; convert seconds to ticks for comparisons.
pub const TICKS_PER_SEC: u32 = 333;

/// Idle-driven backlight controller.
pub struct Backlight {
    state: State,
    /// Tick when the most recent activity (encoder turn, touch, or host-driven
    /// volume/mute change) was observed.
    last_activity_tick: u32,
    /// Brightness when Active. Dim is `active_pct / 4` (min 5).
    active_pct: u8,
    /// Ticks of idle before Active becomes Dim; `None` never dims.
    dim_after_ticks: Option<u32>,
    /// Further ticks of idle before Dim becomes Off; `None` never goes off.
    off_after_ticks: Option<u32>,
}

/// What a [`Backlight`] is at.
pub struct BacklightModel {
    pub state: State,
    pub last_activity: u32,
    pub active_pct: u8,
    pub dim_after: Option<int>,
    pub off_after: Option<int>,
}

/// The brightness that goes with a state.
pub open spec fn duty_of(state: State, active_pct: u8) -> u8 {
    match state {
        State::Active => active_pct,
        State::Dim => if active_pct / 4 > 5 {
            active_pct / 4
        } else {
            5
        },
        State::Off => 0,
    }
}

/// A timeout in ticks; none for zero seconds.
pub open spec fn timeout_of(secs: u16) -> Option<int> {
    if secs == 0 {
        None
    } else {
        Some(secs * TICKS_PER_SEC)
    }
}

/// Ticks from `since` to `now` on a counter that wraps.
pub open spec fn ticks_between(since: u32, now: u32) -> int {
    if now >= since {
        now - since
    } else {
        now - since + 0x1_0000_0000
    }
}

impl BacklightModel {
    /// The state that idling up to `now` leads to from here.
    pub open spec fn idled(self, now: u32) -> State {
        let idle = ticks_between(self.last_activity, now);
        match (self.state, self.dim_after, self.off_after) {
            (State::Active, Some(dim), _) if idle >= dim => State::Dim,
            (State::Dim, Some(dim), Some(off)) if idle >= dim + off => State::Off,
            _ => self.state,
        }
    }

    /// After activity at `now`.
    pub open spec fn awake(self, now: u32) -> BacklightModel {
        BacklightModel { state: State::Active, last_activity: now, ..self }
    }

    /// The duty that activity has to write.
    pub open spec fn wake_duty(self) -> Option<u8> {
        if self.state == State::Active {
            None
        } else {
            Some(self.active_pct)
        }
    }

    /// After idling up to `now`.
    pub open spec fn ticked(self, now: u32) -> BacklightModel {
        BacklightModel { state: self.idled(now), ..self }
    }

    /// The duty that idling up to `now` has to write.
    pub open spec fn tick_duty(self, now: u32) -> Option<u8> {
        if self.idled(now) == self.state {
            None
        } else {
            Some(duty_of(self.idled(now), self.active_pct))
        }
    }

    /// With another brightness, held within 1 to 100.
    pub open spec fn with_pct(self, pct: u8) -> BacklightModel {
        BacklightModel {
            active_pct: if pct < 1 {
                1
            } else if pct > 100 {
                100
            } else {
                pct
            },
            ..self
        }
    }

    /// The duty that a new brightness has to write.
    pub open spec fn pct_duty(self, pct: u8) -> Option<u8> {
        if self.state == State::Active {
            Some(self.with_pct(pct).active_pct)
        } else {
            None
        }
    }

    /// With other timeouts.
    pub open spec fn with_timeouts(self, dim_secs: u16, off_secs: u16) -> BacklightModel {
        BacklightModel { dim_after: timeout_of(dim_secs), off_after: timeout_of(off_secs), ..self }
    }
}

/// Seconds as ticks.
pub fn secs_to_ticks(secs: u16) -> (ticks: u32)
    ensures
        ticks == secs * TICKS_PER_SEC,
{
    secs as u32 * TICKS_PER_SEC
}

fn timeout(secs: u16) -> (ticks: Option<u32>)
    ensures
        (match ticks {
            Some(t) => Some(t as int),
            None => None::<int>,
        }) == timeout_of(secs),
{
    if secs == 0 {
        None
    } else {
        Some(secs_to_ticks(secs))
    }
}

impl View for Backlight {
    type V = BacklightModel;

    closed spec fn view(&self) -> BacklightModel {
        BacklightModel {
            state: self.state,
            last_activity: self.last_activity_tick,
            active_pct: self.active_pct,
            dim_after: match self.dim_after_ticks {
                Some(t) => Some(t as int),
                None => None,
            },
            off_after: match self.off_after_ticks {
                Some(t) => Some(t as int),
                None => None,
            },
        }
    }
}

impl Backlight {
    /// Both timeouts are a whole number of seconds, at least one.
    pub open spec fn wf(&self) -> bool {
        &&& 1 <= self@.active_pct <= 100
        &&& self@.dim_after is Some ==> TICKS_PER_SEC <= self@.dim_after->0 <= 0xffff
            * TICKS_PER_SEC
        &&& self@.off_after is Some ==> TICKS_PER_SEC <= self@.off_after->0 <= 0xffff
            * TICKS_PER_SEC
    }

    /// An active backlight with the default settings. The channel starts at
    /// `DEFAULT_ACTIVE_PCT`.
    pub fn new() -> (b: Self)
        ensures
            b.wf(),
            b@ == (BacklightModel {
                state: State::Active,
                last_activity: 0,
                active_pct: DEFAULT_ACTIVE_PCT,
                dim_after: timeout_of(DEFAULT_DIM_AFTER_SECS),
                off_after: timeout_of(DEFAULT_OFF_AFTER_SECS),
            }),
    {
        Backlight {
            state: State::Active,
            last_activity_tick: 0,
            active_pct: DEFAULT_ACTIVE_PCT,
            dim_after_ticks: timeout(DEFAULT_DIM_AFTER_SECS),
            off_after_ticks: timeout(DEFAULT_OFF_AFTER_SECS),
        }
    }

    /// The current state.
    pub fn state(&self) -> (s: State)
        ensures
            s == self@.state,
    {
        self.state
    }

    /// Reset the idle timer and restore full brightness if dimmed/off.
    /// Call on any user-driven activity that should keep the screen alive.
    pub fn notify_activity(&mut self, now_tick: u32) -> (duty: Option<u8>)
        requires
            old(self).wf(),
        ensures
            final(self).wf(),
            final(self)@ == old(self)@.awake(now_tick),
            duty == old(self)@.wake_duty(),
    {
        self.last_activity_tick = now_tick;
        if self.state != State::Active {
            Some(self.set_state(State::Active))
        } else {
            None
        }
    }

    /// If currently Off, transition to Active and return `true` so the caller
    /// can suppress the wake event (e.g. a tap that should not also toggle
    /// mute). Returns `false` when in Active or Dim: those gestures still
    /// fire normally because the screen was readable.
    pub fn wake_from_off(&mut self, now_tick: u32) -> (r: (bool, Option<u8>))
        requires
            old(self).wf(),
        ensures
            final(self).wf(),
            final(self)@ == old(self)@.awake(now_tick),
            r.0 == (old(self)@.state == State::Off),
            r.1 == old(self)@.wake_duty(),
    {
        let was_off = self.state == State::Off;
        let duty = self.notify_activity(now_tick);
        (was_off, duty)
    }

    /// Run the idle state machine. Cheap: call every main-loop iteration.
    pub fn tick(&mut self, now_tick: u32) -> (duty: Option<u8>)
        requires
            old(self).wf(),
        ensures
            final(self).wf(),
            final(self)@ == old(self)@.ticked(now_tick),
            duty == old(self)@.tick_duty(now_tick),
    {
        let idle: u32 = now_tick.wrapping_sub(self.last_activity_tick);
        let next = match (self.state, self.dim_after_ticks, self.off_after_ticks) {
            (State::Active, Some(dim), _) => if idle >= dim {
                State::Dim
            } else {
                State::Active
            },
            (State::Dim, Some(dim), Some(off)) => if idle.saturating_sub(dim) >= off {
                State::Off
            } else {
                State::Dim
            },
            (other, _, _) => other,
        };
        if next != self.state {
            Some(self.set_state(next))
        } else {
            None
        }
    }

    /// Update the Active brightness (1-100). Takes effect immediately if
    /// currently Active; otherwise applied on the next wake.
    pub fn set_active_pct(&mut self, pct: u8) -> (duty: Option<u8>)
        requires
            old(self).wf(),
        ensures
            final(self).wf(),
            final(self)@ == old(self)@.with_pct(pct),
            duty == old(self)@.pct_duty(pct),
    {
        self.active_pct = if pct < 1 {
            1
        } else if pct > 100 {
            100
        } else {
            pct
        };
        if self.state == State::Active {
            Some(self.active_pct)
        } else {
            None
        }
    }

    /// Update the dim/off timeouts. `0` disables that transition.
    pub fn set_timeouts(&mut self, dim_after_secs: u16, off_after_secs: u16)
        requires
            old(self).wf(),
        ensures
            final(self).wf(),
            final(self)@ == old(self)@.with_timeouts(dim_after_secs, off_after_secs),
    {
        self.dim_after_ticks = timeout(dim_after_secs);
        self.off_after_ticks = timeout(off_after_secs);
    }

    /// Enter `state` and return its brightness.
    fn set_state(&mut self, state: State) -> (duty: u8)
        requires
            old(self).wf(),
        ensures
            final(self).wf(),
            final(self)@ == (BacklightModel { state, ..old(self)@ }),
            duty == duty_of(state, old(self)@.active_pct),
    {
        self.state = state;
        match state {
            State::Active => self.active_pct,
            State::Dim => if self.active_pct / 4 > 5 {
                self.active_pct / 4
            } else {
                5
            },
            State::Off => 0,
        }
    }
}

/// Idling dims before it switches off, and never brightens.
pub proof fn law_dims_before_off(b: BacklightModel, now: u32)
    ensures
        b.state == State::Active ==> b.idled(now) != State::Off,
        b.state == State::Dim ==> b.idled(now) != State::Active,
        b.state == State::Off ==> b.idled(now) == State::Off,
{
}

/// A timeout of zero seconds disables its transition, however long the idling.
pub proof fn law_zero_disables(b: BacklightModel, now: u32)
    ensures
        b.dim_after == timeout_of(0) && b.state == State::Active ==> b.idled(now) == State::Active,
        b.off_after == timeout_of(0) && b.state == State::Dim ==> b.idled(now) == State::Dim,
{
}

/// With both timeouts set, the screen stays readable for the first timeout
/// after activity, and is off no sooner than the second timeout later.
pub proof fn law_idle_schedule(b: BacklightModel, dim_secs: u16, off_secs: u16, now: u32)
    requires
        dim_secs > 0,
        off_secs > 0,
        b.dim_after == timeout_of(dim_secs),
        b.off_after == timeout_of(off_secs),
    ensures
        b.state == State::Active ==> (b.idled(now) == State::Dim <==> ticks_between(
            b.last_activity,
            now,
        ) >= dim_secs * TICKS_PER_SEC),
        b.state == State::Dim ==> (b.idled(now) == State::Off <==> ticks_between(
            b.last_activity,
            now,
        ) >= (dim_secs + off_secs) * TICKS_PER_SEC),
{
}

/// Activity lights the screen with the full brightness, where it is not lit
/// already, and restarts the idle time: from then on the first timeout has to
/// pass in full before the screen dims.
pub proof fn law_activity_restarts(b: BacklightModel, at: u32, now: u32)
    ensures
        b.awake(at).state == State::Active,
        b.awake(at).idled(at) == State::Active || b.dim_after == Some(0int) || (b.dim_after is Some
            && b.dim_after->0 < 0),
        b.dim_after is Some ==> (b.awake(at).idled(now) == State::Dim <==> ticks_between(at, now)
            >= b.dim_after->0),
        b.state != State::Active ==> b.wake_duty() == Some(b.active_pct),
        b.state == State::Active ==> b.wake_duty() is None,
        b.awake(at).active_pct == b.active_pct,
        b.awake(at).dim_after == b.dim_after,
        b.awake(at).off_after == b.off_after,
{
}

/// The brightness that idling writes: a quarter of the active one, but at least
/// 5, when it dims, nothing when it switches off; and none where the state stays.
pub proof fn law_idle_brightness(b: BacklightModel, now: u32)
    ensures
        b.ticked(now).state == b.state ==> b.tick_duty(now) is None,
        b.ticked(now).state != b.state ==> match b.ticked(now).state {
            State::Active => false,
            State::Dim => {
                let duty = b.tick_duty(now)->0;
                &&& b.tick_duty(now) is Some
                &&& duty >= 5
                &&& b.active_pct >= 24 ==> 4 * duty <= b.active_pct < 4 * duty + 4
                &&& b.active_pct < 24 ==> duty == 5
            },
            State::Off => b.tick_duty(now) == Some(0u8),
        },
        b.ticked(now).active_pct == b.active_pct,
        b.ticked(now).last_activity == b.last_activity,
        b.ticked(now).dim_after == b.dim_after,
        b.ticked(now).off_after == b.off_after,
{
}

/// Seconds are turned into ticks of about 3 ms, of which none is lost.
pub proof fn law_timeouts_in_ticks(secs: u16)
    ensures
        secs == 0 <==> timeout_of(secs) is None,
        secs > 0 ==> {
            let ticks = timeout_of(secs)->0;
            &&& 3 * ticks <= 1000 * secs < 3 * (ticks + secs)
            &&& ticks % (secs as int) == 0
        },
{
    if secs > 0 {
        assert((secs * 333) % (secs as int) == 0) by (nonlinear_arith)
            requires
                secs > 0,
        ;
    }
}

/// A new brightness is held within 1 and 100, shows at once on a lit screen and
/// on the next activity otherwise, and leaves the timeouts alone; new timeouts
/// leave the brightness alone, and neither changes the state or the idle time.
pub proof fn law_settings(b: BacklightModel, pct: u8, dim_secs: u16, off_secs: u16, now: u32)
    ensures
        1 <= b.with_pct(pct).active_pct <= 100,
        1 <= pct <= 100 ==> b.with_pct(pct).active_pct == pct,
        pct > 100 ==> b.with_pct(pct).active_pct == 100,
        b.state == State::Active ==> b.pct_duty(pct) == Some(b.with_pct(pct).active_pct),
        b.state != State::Active ==> b.pct_duty(pct) is None && b.with_pct(pct).wake_duty() == Some(
            b.with_pct(pct).active_pct,
        ),
        b.with_pct(pct) == (BacklightModel { active_pct: b.with_pct(pct).active_pct, ..b }),
        b.with_timeouts(dim_secs, off_secs) == (BacklightModel {
            dim_after: b.with_timeouts(dim_secs, off_secs).dim_after,
            off_after: b.with_timeouts(dim_secs, off_secs).off_after,
            ..b
        }),
        b.state == State::Active && dim_secs > 0 ==> (b.with_timeouts(dim_secs, off_secs).idled(
            now,
        ) == State::Dim <==> ticks_between(b.last_activity, now) >= dim_secs * 333),
        b.state == State::Dim && dim_secs > 0 && off_secs > 0 ==> (b.with_timeouts(
            dim_secs,
            off_secs,
        ).idled(now) == State::Off <==> ticks_between(b.last_activity, now) >= (dim_secs
            + off_secs) * 333),
{
}

/// The tick count wraps, and the idle time is counted across that: it grows by
/// one with each tick.
pub proof fn law_idle_time_grows(since: u32, now: u32)
    ensures
        0 <= ticks_between(since, now) < 0x1_0000_0000,
        (since + ticks_between(since, now) - now) % 0x1_0000_0000 == 0,
        ticks_between(since, since) == 0,
{
}

} // verus!
