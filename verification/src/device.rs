//! The device's main loop: what it does for each turn of the knob, touch,
//! message from the host and tick.
//!
//! One iteration calls [`Device::turn`], [`Device::hold`], [`Device::gesture`],
//! then [`Device::host`] for each message that has come in, then
//! [`Device::settle`]. Each call returns actions, which are carried out in order
//! before the next call.

use vstd::prelude::*;

use crate::backlight;
use crate::backlight::{Backlight, BacklightModel, State};
use crate::haptic::Effect;
use crate::messages;
use crate::messages::{
    App, AppInfo, DeviceMessage, DeviceToHost, GestureKind, HostMessage, HostToDevice,
    PROTOCOL_VERSION,
};
use crate::screen::ICON_BYTES;
use crate::text;
use crate::touch;
use crate::touch::{Gesture, TouchEvent};

verus! {

/// Ticks of silence from the host after which it counts as gone: about 9 s at
/// 3 ms/tick. The companion sends heartbeats more often than that.
pub const SILENCE_TICKS: u32 = 3_000;

/// Ticks that a finger is held down to toggle the debug overlay: about 4 s.
pub const HOLD_TICKS: u32 = 1_334;

/// With the debug overlay shown, ticks between two refreshes of it.
pub const OVERLAY_TICKS: u32 = 200;

/// The value that the bar shows at first, with no companion connected.
pub const STANDALONE_START: u8 = 50;

/// A status label in the centre band.
#[derive(Debug, Clone, Copy, PartialEq, Eq, Structural)]
pub enum Label {
    /// Erases any previous status.
    Blank,
    Muted,
    LongPress,
}

/// The text of a label.
pub open spec fn label_text(label: Label) -> Seq<char> {
    match label {
        Label::Blank => ""@,
        Label::Muted => "MUTED"@,
        Label::LongPress => "LONG PRESS"@,
    }
}

impl Label {
    /// The text of the label.
    pub fn text(self) -> (t: &'static str)
        ensures
            t@ == label_text(self),
    {
        match self {
            Label::Blank => "",
            Label::Muted => "MUTED",
            Label::LongPress => "LONG PRESS",
        }
    }
}

/// The label that shows a mute state.
pub open spec fn mute_label(muted: bool) -> Label {
    if muted {
        Label::Muted
    } else {
        Label::Blank
    }
}

/// Something for the hardware to do.
#[derive(Debug, PartialEq)]
pub enum Action {
    /// Send a message to the host. A failure is passed over.
    Send(DeviceToHost),
    /// Write this duty (percent) to the backlight's PWM channel.
    SetDuty(u8),
    /// Fire a haptic effect.
    Haptic(Effect),
    /// Paint the whole screen black.
    ClearScreen,
    /// Paint the full-screen "NOT DETECTED" state.
    DrawNotConnected,
    /// Draw the volume bar.
    DrawVolume(u8),
    /// Draw the volume bar at `new` and flush the rows that differ from `prev`.
    DrawVolumeDelta { prev: u8, new: u8 },
    /// Clear the icon region and paint [`Device::icon`] there.
    DrawIcon,
    /// Clear the name region and paint [`Device::app_name`] there.
    DrawName,
    /// Clear the centre band and paint a label there.
    DrawLabel(Label),
    /// Draw the link statistics, with this tick count.
    DrawStats(u32),
    /// Flush the whole framebuffer to the display.
    Flush,
    /// Store the network that the device joins.
    StoreWifi { ssid: heapless::String<32>, password: heapless::String<64> },
}

/// What an [`Action`] says.
pub enum Step {
    Send(DeviceMessage),
    SetDuty(u8),
    Haptic(Effect),
    ClearScreen,
    DrawNotConnected,
    DrawVolume(u8),
    DrawVolumeDelta { prev: u8, new: u8 },
    DrawIcon,
    DrawName,
    DrawLabel(Label),
    DrawStats(u32),
    Flush,
    StoreWifi { ssid: Seq<char>, password: Seq<char> },
}

impl View for Action {
    type V = Step;

    open spec fn view(&self) -> Step {
        match *self {
            Action::Send(m) => Step::Send(m@),
            Action::SetDuty(pct) => Step::SetDuty(pct),
            Action::Haptic(effect) => Step::Haptic(effect),
            Action::ClearScreen => Step::ClearScreen,
            Action::DrawNotConnected => Step::DrawNotConnected,
            Action::DrawVolume(v) => Step::DrawVolume(v),
            Action::DrawVolumeDelta { prev, new } => Step::DrawVolumeDelta { prev, new },
            Action::DrawIcon => Step::DrawIcon,
            Action::DrawName => Step::DrawName,
            Action::DrawLabel(label) => Step::DrawLabel(label),
            Action::DrawStats(tick) => Step::DrawStats(tick),
            Action::Flush => Step::Flush,
            Action::StoreWifi { ssid, password } => Step::StoreWifi {
                ssid: text::text32(ssid),
                password: text::text64(password),
            },
        }
    }
}

/// What a list of actions says.
pub open spec fn steps_of(actions: Seq<Action>) -> Seq<Step> {
    actions.map_values(|a: Action| a@)
}

fn emit(actions: &mut Vec<Action>, action: Action)
    ensures
        steps_of(final(actions)@) == steps_of(old(actions)@).push(action@),
{
    actions.push(action);
    assert(steps_of(actions@) =~= steps_of(old(actions)@).push(action@));
}

/// The step that a change of brightness takes, if there is one.
pub open spec fn duty_steps(duty: Option<u8>) -> Seq<Step> {
    match duty {
        Some(pct) => seq![Step::SetDuty(pct)],
        None => Seq::empty(),
    }
}

fn emit_duty(actions: &mut Vec<Action>, duty: Option<u8>)
    ensures
        steps_of(final(actions)@) == steps_of(old(actions)@) + duty_steps(duty),
{
    match duty {
        Some(pct) => emit(actions, Action::SetDuty(pct)),
        None => {},
    }
    assert(steps_of(actions@) =~= steps_of(old(actions)@) + duty_steps(duty));
}

/// The steps that paint an app, its volume and its mute state.
pub open spec fn app_steps(volume: u8, muted: bool) -> Seq<Step> {
    seq![
        Step::DrawIcon,
        Step::DrawName,
        Step::DrawVolume(volume),
        Step::DrawLabel(mute_label(muted)),
    ]
}

fn emit_app(actions: &mut Vec<Action>, volume: u8, muted: bool)
    ensures
        steps_of(final(actions)@) == steps_of(old(actions)@) + app_steps(volume, muted),
{
    emit(actions, Action::DrawIcon);
    emit(actions, Action::DrawName);
    emit(actions, Action::DrawVolume(volume));
    emit(
        actions,
        Action::DrawLabel(
            if muted {
                Label::Muted
            } else {
                Label::Blank
            },
        ),
    );
    assert(steps_of(actions@) =~= steps_of(old(actions)@) + app_steps(volume, muted));
}

/// The device's state.
pub struct Device {
    backlight: Backlight,
    /// Encoder count that has been dealt with.
    last_count: i32,
    needs_flush: bool,
    /// Pushed by the host via `SetAppList`.
    apps: Vec<AppInfo>,
    selected_app: Option<u32>,
    /// Index into `apps` for carousel navigation.
    selected_idx: usize,
    /// Icon for the currently-selected app (RGB565). Dropped on app switch;
    /// repopulated when the companion pushes `SetAppIcon` in response to
    /// `AppSelected`.
    current_icon: Vec<u8>,
    current_volume: u8,
    current_muted: bool,
    loop_tick: u32,
    /// Value shown by the encoder when no companion is connected (0-100).
    standalone_value: u8,
    /// Tick at which the last host message arrived.
    last_host_msg_tick: u32,
    /// Debug overlay (link statistics).
    debug_visible: bool,
    /// Consecutive ticks with a finger down.
    touch_held_ticks: u32,
    /// The finger that is down, or was until now, came down on a dark screen.
    waking: bool,
    /// `Ready` is sent with the reply to the first host message, so that it
    /// is not transmitted before the host's driver is there.
    ready_sent: bool,
}

/// What a [`Device`] is at.
#[verifier::ext_equal]
pub struct DeviceModel {
    pub backlight: BacklightModel,
    pub last_count: i32,
    pub needs_flush: bool,
    pub apps: Seq<App>,
    pub selected: Option<u32>,
    pub idx: int,
    pub icon: Seq<u8>,
    pub volume: u8,
    pub muted: bool,
    pub tick: u32,
    pub standalone: u8,
    pub last_host: u32,
    pub debug: bool,
    pub held: u32,
    pub waking: bool,
    pub ready_sent: bool,
}

impl View for Device {
    type V = DeviceModel;

    closed spec fn view(&self) -> DeviceModel {
        DeviceModel {
            backlight: self.backlight@,
            last_count: self.last_count,
            needs_flush: self.needs_flush,
            apps: messages::apps_view(self.apps@),
            selected: self.selected_app,
            idx: self.selected_idx as int,
            icon: self.current_icon@,
            volume: self.current_volume,
            muted: self.current_muted,
            tick: self.loop_tick,
            standalone: self.standalone_value,
            last_host: self.last_host_msg_tick,
            debug: self.debug_visible,
            held: self.touch_held_ticks,
            waking: self.waking,
            ready_sent: self.ready_sent,
        }
    }
}

/// Index of the first app with the given id, at or after `from`.
pub open spec fn position_from(apps: Seq<App>, id: u32, from: int) -> Option<int>
    decreases apps.len() - from,
{
    if from < 0 || from >= apps.len() {
        None
    } else if apps[from].id == id {
        Some(from)
    } else {
        position_from(apps, id, from + 1)
    }
}

/// Index of the first app with the given id.
pub open spec fn position(apps: Seq<App>, id: u32) -> Option<int> {
    position_from(apps, id, 0)
}

proof fn lemma_position_from(apps: Seq<App>, id: u32, from: int)
    requires
        0 <= from,
    ensures
        match position_from(apps, id, from) {
            Some(i) => {
                &&& from <= i < apps.len()
                &&& apps[i].id == id
                &&& forall|j: int| from <= j < i ==> (#[trigger] apps[j]).id != id
            },
            None => forall|j: int| from <= j < apps.len() ==> (#[trigger] apps[j]).id != id,
        },
    decreases apps.len() - from,
{
    if from < apps.len() && apps[from].id != id {
        lemma_position_from(apps, id, from + 1);
    }
}

fn find(apps: &Vec<AppInfo>, id: u32) -> (r: Option<usize>)
    ensures
        match r {
            Some(i) => position(messages::apps_view(apps@), id) == Some(i as int) && i
                < apps@.len(),
            None => position(messages::apps_view(apps@), id) is None,
        },
{
    let ghost view = messages::apps_view(apps@);
    let mut i: usize = 0;
    while i < apps.len()
        invariant
            i <= apps@.len(),
            view == messages::apps_view(apps@),
            position(view, id) == position_from(view, id, i as int),
        decreases apps@.len() - i,
    {
        assert(view[i as int] == apps@[i as int]@);
        if apps[i].id == id {
            return Some(i);
        }
        i = i + 1;
    }
    None
}

/// Steps from count `from` to count `to` on a counter that wraps.
pub open spec fn turned_by(from: i32, to: i32) -> int {
    let d = to - from;
    if d > i32::MAX {
        d - 0x1_0000_0000
    } else if d < i32::MIN {
        d + 0x1_0000_0000
    } else {
        d
    }
}

/// `n`, held within `lo` and `hi`.
pub open spec fn clamped(n: int, lo: int, hi: int) -> int {
    if n < lo {
        lo
    } else if n > hi {
        hi
    } else {
        n
    }
}

impl DeviceModel {
    /// The standalone value and the carousel's index are in range.
    pub open spec fn wf(self) -> bool {
        &&& self.standalone <= 100
        &&& self.apps.len() > 0 ==> 0 <= self.idx < self.apps.len()
    }

    /// The name to show for the selected app.
    pub open spec fn name(self) -> Seq<char> {
        match self.selected {
            Some(id) => match position(self.apps, id) {
                Some(i) => self.apps[i].name,
                None => "(no app)"@,
            },
            None => "(no app)"@,
        }
    }

    /// The relative movement that going to `count` reports.
    pub open spec fn delta(self, count: i32) -> i16 {
        clamped(turned_by(self.last_count, count), i16::MIN as int, i16::MAX as int) as i16
    }

    /// The standalone value after the knob went to `count`.
    pub open spec fn turned_value(self, count: i32) -> u8 {
        clamped(self.standalone + self.delta(count), 0, 100) as u8
    }

    /// At the start of the next iteration.
    pub open spec fn next_tick(self) -> DeviceModel {
        DeviceModel {
            tick: if self.tick == u32::MAX {
                0
            } else {
                (self.tick + 1) as u32
            },
            ..self
        }
    }

    /// After activity in this iteration.
    pub open spec fn active(self) -> DeviceModel {
        DeviceModel { backlight: self.backlight.awake(self.tick), ..self }
    }

    /// After [`Device::turn`].
    pub open spec fn turned(self, count: i32) -> DeviceModel {
        let next = self.next_tick();
        if count == self.last_count {
            next
        } else {
            DeviceModel {
                last_count: count,
                standalone: if self.selected is Some {
                    self.standalone
                } else {
                    self.turned_value(count)
                },
                ..next.active()
            }
        }
    }

    /// What [`Device::turn`] has done.
    pub open spec fn turn_steps(self, count: i32) -> Seq<Step> {
        if count == self.last_count {
            Seq::empty()
        } else {
            duty_steps(self.backlight.wake_duty()) + seq![
                match self.selected {
                    Some(app_id) => Step::Send(
                        DeviceMessage::VolumeDelta { app_id, delta: self.delta(count) },
                    ),
                    None => Step::DrawVolumeDelta {
                        prev: self.standalone,
                        new: self.turned_value(count),
                    },
                },
            ]
        }
    }

    /// The steps that paint the whole screen anew.
    pub open spec fn repaint(self) -> Seq<Step> {
        if self.apps.len() == 0 {
            seq![Step::DrawNotConnected, Step::DrawVolume(self.standalone)]
        } else {
            seq![Step::ClearScreen] + app_steps(self.volume, self.muted)
        }
    }

    /// This iteration completes a hold that toggles the debug overlay.
    pub open spec fn toggles(self) -> bool {
        self.held + 1 == HOLD_TICKS
    }

    /// After [`Device::hold`].
    pub open spec fn holding(self, finger_down: bool) -> DeviceModel {
        if finger_down {
            DeviceModel {
                held: if self.held == u32::MAX {
                    self.held
                } else {
                    (self.held + 1) as u32
                },
                waking: self.waking || self.backlight.state == State::Off,
                debug: self.debug != self.toggles(),
                needs_flush: self.needs_flush || self.toggles(),
                ..self.active()
            }
        } else {
            DeviceModel { held: 0, ..self }
        }
    }

    /// What [`Device::hold`] has done.
    pub open spec fn hold_steps(self, finger_down: bool) -> Seq<Step> {
        if finger_down {
            duty_steps(self.backlight.wake_duty()) + if self.toggles() {
                self.repaint()
            } else {
                Seq::empty()
            }
        } else {
            Seq::empty()
        }
    }

    /// The carousel's next or previous index; it wraps round.
    pub open spec fn neighbour(self, forward: bool) -> int {
        if forward {
            if self.idx + 1 == self.apps.len() {
                0
            } else {
                self.idx + 1
            }
        } else {
            if self.idx == 0 {
                self.apps.len() - 1
            } else {
                self.idx - 1
            }
        }
    }

    /// After a swipe through a list that is not empty.
    pub open spec fn swiped(self, forward: bool) -> DeviceModel {
        let app = self.apps[self.neighbour(forward)];
        DeviceModel {
            idx: self.neighbour(forward),
            selected: Some(app.id),
            volume: app.volume,
            muted: app.muted,
            icon: Seq::empty(),
            needs_flush: true,
            ..self
        }
    }

    /// What a swipe through a list that is not empty has done.
    pub open spec fn swipe_steps(self, forward: bool) -> Seq<Step> {
        let app = self.apps[self.neighbour(forward)];
        seq![Step::Haptic(Effect::SharpClick)] + app_steps(app.volume, app.muted) + seq![
            Step::Send(DeviceMessage::AppSelected(app.id)),
        ]
    }

    /// After a gesture on a lit screen.
    pub open spec fn gestured(self, gesture: Gesture) -> DeviceModel {
        match gesture {
            Gesture::LongPress => DeviceModel { needs_flush: true, ..self },
            Gesture::SwipeLeft if self.apps.len() > 0 => self.swiped(false),
            Gesture::SwipeRight if self.apps.len() > 0 => self.swiped(true),
            _ => self,
        }
    }

    /// What a gesture on a lit screen has done, but for its report.
    pub open spec fn gestured_steps(self, gesture: Gesture) -> Seq<Step> {
        match gesture {
            Gesture::SingleTap => match self.selected {
                Some(app_id) => seq![
                    Step::Haptic(Effect::SharpClick),
                    Step::Send(DeviceMessage::MuteToggle { app_id }),
                ],
                None => Seq::empty(),
            },
            Gesture::LongPress => seq![
                Step::Haptic(Effect::StrongClick),
                Step::DrawLabel(Label::LongPress),
            ],
            Gesture::SwipeLeft if self.apps.len() > 0 => self.swipe_steps(false),
            Gesture::SwipeRight if self.apps.len() > 0 => self.swipe_steps(true),
            _ => Seq::empty(),
        }
    }

    /// A touch now only wakes the screen.
    pub open spec fn dark(self) -> bool {
        self.waking || self.backlight.state == State::Off
    }

    /// After [`Device::gesture`].
    pub open spec fn touched(self, gesture: Option<Gesture>, finger_down: bool) -> DeviceModel {
        let now = DeviceModel { waking: self.waking && finger_down, ..self };
        match gesture {
            None => now,
            Some(g) => if self.dark() {
                now.active()
            } else {
                now.active().gestured(g)
            },
        }
    }

    /// What [`Device::gesture`] has done.
    pub open spec fn touch_steps(self, gesture: Option<Gesture>) -> Seq<Step> {
        match gesture {
            None => Seq::empty(),
            Some(g) => duty_steps(self.backlight.wake_duty()) + if self.dark() {
                Seq::empty()
            } else {
                self.gestured_steps(g) + report_steps(g)
            },
        }
    }

    /// Showing the volume and mute state of the app `id`, where it is listed.
    pub open spec fn showing(self, id: u32) -> DeviceModel {
        match position(self.apps, id) {
            Some(i) => DeviceModel {
                volume: self.apps[i].volume,
                muted: self.apps[i].muted,
                ..self
            },
            None => self,
        }
    }

    /// With `idx` at the app `id`, or at the start where it is not listed.
    pub open spec fn at(self, id: u32) -> DeviceModel {
        DeviceModel {
            idx: match position(self.apps, id) {
                Some(i) => i,
                None => 0,
            },
            ..self
        }
    }

    /// With the app list replaced. The selection stays; without one, the first
    /// app gets selected.
    pub open spec fn listing(self, apps: Seq<App>) -> DeviceModel {
        let listed = DeviceModel { apps, ..self };
        match self.selected {
            Some(id) => listed.at(id).showing(id),
            None => if apps.len() > 0 {
                DeviceModel { selected: Some(apps[0].id), idx: 0, ..listed }.showing(apps[0].id)
            } else {
                DeviceModel { idx: 0, ..listed }
            },
        }
    }

    /// With the app `app_id` selected.
    pub open spec fn selecting(self, app_id: u32) -> DeviceModel {
        DeviceModel { selected: Some(app_id), icon: Seq::empty(), ..self }.at(app_id).showing(
            app_id,
        )
    }

    /// With the listed volume of the app `app_id` replaced.
    pub open spec fn with_volume(self, app_id: u32, level: u8) -> DeviceModel {
        match position(self.apps, app_id) {
            Some(i) => DeviceModel {
                apps: self.apps.update(i, App { volume: level, ..self.apps[i] }),
                ..self
            },
            None => self,
        }
    }

    /// With the listed mute state of the app `app_id` replaced.
    pub open spec fn with_mute(self, app_id: u32, muted: bool) -> DeviceModel {
        match position(self.apps, app_id) {
            Some(i) => DeviceModel {
                apps: self.apps.update(i, App { muted, ..self.apps[i] }),
                ..self
            },
            None => self,
        }
    }

    /// After a host message, before the screen is flushed for it.
    pub open spec fn received(self, msg: HostMessage) -> DeviceModel {
        match msg {
            HostMessage::Ping => self,
            HostMessage::Echo(_) => self,
            HostMessage::SetWifiConfig { .. } => self,
            HostMessage::SetBacklight { active_pct, dim_after_secs, off_after_secs } => DeviceModel {
                backlight: self.backlight.with_pct(active_pct).with_timeouts(
                    dim_after_secs,
                    off_after_secs,
                ),
                ..self
            },
            HostMessage::SetAppList(apps) => DeviceModel {
                needs_flush: true,
                ..self.active().listing(apps)
            },
            HostMessage::SetAppIcon { app_id, pixels } => if self.selected == Some(app_id) {
                DeviceModel { icon: pixels, needs_flush: true, ..self }
            } else {
                self
            },
            HostMessage::SetSelectedApp(app_id) => DeviceModel {
                needs_flush: true,
                ..self.active().selecting(app_id)
            },
            HostMessage::SetVolume { app_id, level } => if self.selected == Some(app_id) {
                DeviceModel {
                    volume: level,
                    needs_flush: false,
                    ..self.active().with_volume(app_id, level)
                }
            } else {
                self.active().with_volume(app_id, level)
            },
            HostMessage::SetMute { app_id, muted } => if self.selected == Some(app_id) {
                DeviceModel {
                    muted,
                    needs_flush: true,
                    ..self.active().with_mute(app_id, muted)
                }
            } else {
                self.active().with_mute(app_id, muted)
            },
        }
    }

    /// What a host message itself asks for.
    pub open spec fn received_steps(self, msg: HostMessage) -> Seq<Step> {
        let woken = duty_steps(self.backlight.wake_duty());
        let then = self.received(msg);
        match msg {
            HostMessage::Ping => seq![Step::Send(DeviceMessage::Pong)],
            HostMessage::Echo(data) => seq![Step::Send(DeviceMessage::Echo(data))],
            HostMessage::SetWifiConfig { ssid, password } => seq![
                Step::StoreWifi { ssid, password },
            ],
            HostMessage::SetBacklight { active_pct, .. } => duty_steps(
                self.backlight.pct_duty(active_pct),
            ),
            HostMessage::SetAppList(_) => woken + app_steps(then.volume, then.muted),
            HostMessage::SetAppIcon { app_id, .. } => if self.selected == Some(app_id) {
                seq![Step::DrawIcon]
            } else {
                Seq::empty()
            },
            HostMessage::SetSelectedApp(_) => woken + app_steps(then.volume, then.muted),
            HostMessage::SetVolume { app_id, level } => woken + if self.selected == Some(app_id) {
                seq![Step::DrawVolumeDelta { prev: self.volume, new: level }]
            } else {
                Seq::empty()
            },
            HostMessage::SetMute { app_id, muted } => woken + if self.selected == Some(app_id) {
                seq![Step::Haptic(Effect::SharpClick), Step::DrawLabel(mute_label(muted))]
            } else {
                Seq::empty()
            },
        }
    }

    /// After [`Device::host`].
    pub open spec fn heard(self, msg: HostMessage) -> DeviceModel {
        DeviceModel {
            last_host: self.tick,
            ready_sent: true,
            needs_flush: false,
            ..self.received(msg)
        }
    }

    /// What [`Device::host`] has done.
    pub open spec fn heard_steps(self, msg: HostMessage) -> Seq<Step> {
        (if self.ready_sent {
            Seq::empty()
        } else {
            seq![Step::Send(DeviceMessage::Ready { version: PROTOCOL_VERSION })]
        }) + self.received_steps(msg) + (if self.received(msg).needs_flush {
            seq![Step::Flush]
        } else {
            Seq::empty()
        }) + (if acked(msg) {
            seq![Step::Send(DeviceMessage::Ack)]
        } else {
            Seq::empty()
        })
    }

    /// The host has an app list loaded here and has gone silent.
    pub open spec fn lost(self) -> bool {
        self.apps.len() > 0 && backlight::ticks_between(self.last_host, self.tick) > SILENCE_TICKS
    }

    /// This iteration ends with a flush of the screen.
    pub open spec fn flushes(self) -> bool {
        self.needs_flush || self.lost() || (self.debug && self.tick % OVERLAY_TICKS == 0)
    }

    /// After [`Device::settle`].
    pub open spec fn settled(self) -> DeviceModel {
        let kept = if self.lost() {
            DeviceModel { apps: Seq::empty(), selected: None, icon: Seq::empty(), ..self }
        } else {
            self
        };
        DeviceModel { needs_flush: false, backlight: self.backlight.ticked(self.tick), ..kept }
    }

    /// What [`Device::settle`] has done.
    pub open spec fn settle_steps(self) -> Seq<Step> {
        (if self.lost() {
            seq![Step::DrawNotConnected, Step::DrawVolume(self.standalone)]
        } else {
            Seq::empty()
        }) + (if self.flushes() {
            (if self.debug {
                seq![Step::DrawStats(self.tick)]
            } else {
                Seq::empty()
            }) + seq![Step::Flush]
        } else {
            Seq::empty()
        }) + duty_steps(self.backlight.tick_duty(self.tick))
    }
}

/// The report of a gesture to the host; those without a wire form have none.
pub open spec fn report_steps(gesture: Gesture) -> Seq<Step> {
    match touch::wire_gesture_of(gesture) {
        Some(kind) => seq![Step::Send(DeviceMessage::Gesture(kind))],
        None => Seq::empty(),
    }
}

/// The message is replied to with `Ack`. `Pong` and `Echo` replace the ack.
pub open spec fn acked(msg: HostMessage) -> bool {
    !(msg is Ping) && !(msg is Echo)
}

/// A device that has just started: lit, without a companion.
pub open spec fn booted() -> DeviceModel {
    DeviceModel {
        backlight: BacklightModel {
            state: State::Active,
            last_activity: 0,
            active_pct: backlight::DEFAULT_ACTIVE_PCT,
            dim_after: backlight::timeout_of(backlight::DEFAULT_DIM_AFTER_SECS),
            off_after: backlight::timeout_of(backlight::DEFAULT_OFF_AFTER_SECS),
        },
        last_count: 0,
        needs_flush: false,
        apps: Seq::empty(),
        selected: None,
        idx: 0,
        icon: Seq::empty(),
        volume: 0,
        muted: false,
        tick: 0,
        standalone: STANDALONE_START,
        last_host: 0,
        debug: false,
        held: 0,
        waking: false,
        ready_sent: false,
    }
}

impl Device {
    /// The state is in range.
    pub closed spec fn wf(&self) -> bool {
        self@.wf() && self.backlight.wf()
    }

    /// A device that has just started, and what it shows: not connected.
    pub fn boot() -> (r: (Self, Vec<Action>))
        ensures
            r.0.wf(),
            r.0@ == booted(),
            steps_of(r.1@) == seq![
                Step::DrawNotConnected,
                Step::DrawVolume(STANDALONE_START),
                Step::Flush,
            ],
    {
        let device = Device {
            backlight: Backlight::new(),
            last_count: 0,
            needs_flush: false,
            apps: Vec::new(),
            selected_app: None,
            selected_idx: 0,
            current_icon: Vec::new(),
            current_volume: 0,
            current_muted: false,
            loop_tick: 0,
            standalone_value: STANDALONE_START,
            last_host_msg_tick: 0,
            debug_visible: false,
            touch_held_ticks: 0,
            waking: false,
            ready_sent: false,
        };
        assert(device@.apps =~= Seq::<App>::empty());
        let mut actions: Vec<Action> = Vec::new();
        assert(steps_of(actions@) =~= Seq::<Step>::empty());
        emit(&mut actions, Action::DrawNotConnected);
        emit(&mut actions, Action::DrawVolume(STANDALONE_START));
        emit(&mut actions, Action::Flush);
        (device, actions)
    }

    /// The icon to paint: `None` where a placeholder stands for it, because
    /// there is none or it is not a complete picture.
    pub fn icon(&self) -> (pixels: Option<&Vec<u8>>)
        ensures
            match pixels {
                Some(p) => p@ == self@.icon && p@.len() == ICON_BYTES,
                None => self@.icon.len() != ICON_BYTES,
            },
    {
        if self.current_icon.len() == ICON_BYTES {
            Some(&self.current_icon)
        } else {
            None
        }
    }

    /// The name to paint.
    pub fn app_name(&self) -> (name: &str)
        ensures
            name@ == self@.name(),
    {
        match self.selected_app {
            Some(id) => match find(&self.apps, id) {
                Some(i) => self.apps[i].name.as_str(),
                None => "(no app)",
            },
            None => "(no app)",
        }
    }

    /// Start an iteration, with the encoder at `count`.
    ///
    /// A turn goes to the host as a relative movement of the selected app's
    /// volume. Without a selected app it moves the standalone value.
    pub fn turn(&mut self, count: i32) -> (actions: Vec<Action>)
        requires
            old(self).wf(),
        ensures
            final(self).wf(),
            final(self)@ == old(self)@.turned(count),
            steps_of(actions@) == old(self)@.turn_steps(count),
    {
        let mut actions: Vec<Action> = Vec::new();
        assert(steps_of(actions@) =~= Seq::<Step>::empty());
        self.loop_tick = self.loop_tick.wrapping_add(1);
        if count != self.last_count {
            let raw_delta: i32 = count.wrapping_sub(self.last_count);
            let delta: i16 = if raw_delta < -32768 {
                -32768
            } else if raw_delta > 32767 {
                32767
            } else {
                raw_delta as i16
            };
            emit_duty(&mut actions, self.backlight.notify_activity(self.loop_tick));
            match self.selected_app {
                Some(app_id) => {
                    emit(&mut actions, Action::Send(DeviceToHost::VolumeDelta { app_id, delta }));
                },
                None => {
                    let prev: u8 = self.standalone_value;
                    let moved: i32 = prev as i32 + delta as i32;
                    self.standalone_value = if moved < 0 {
                        0
                    } else if moved > 100 {
                        100
                    } else {
                        moved as u8
                    };
                    emit(
                        &mut actions,
                        Action::DrawVolumeDelta { prev, new: self.standalone_value },
                    );
                },
            }
            self.last_count = count;
        }
        assert(steps_of(actions@) =~= old(self)@.turn_steps(count));
        actions
    }

    /// A finger is down, or not.
    ///
    /// Sustained contact is activity, so that a long press doesn't dim. A
    /// 4-second hold toggles the debug overlay, with a full redraw so that the
    /// statistics band is cleanly removed or shown.
    pub fn hold(&mut self, finger_down: bool) -> (actions: Vec<Action>)
        requires
            old(self).wf(),
        ensures
            final(self).wf(),
            final(self)@ == old(self)@.holding(finger_down),
            steps_of(actions@) == old(self)@.hold_steps(finger_down),
    {
        let mut actions: Vec<Action> = Vec::new();
        assert(steps_of(actions@) =~= Seq::<Step>::empty());
        if finger_down {
            if self.backlight.state() == State::Off {
                self.waking = true;
            }
            emit_duty(&mut actions, self.backlight.notify_activity(self.loop_tick));
            self.touch_held_ticks = self.touch_held_ticks.saturating_add(1);
            if self.touch_held_ticks == HOLD_TICKS {
                self.debug_visible = !self.debug_visible;
                if self.apps.len() == 0 {
                    emit(&mut actions, Action::DrawNotConnected);
                    emit(&mut actions, Action::DrawVolume(self.standalone_value));
                } else {
                    emit(&mut actions, Action::ClearScreen);
                    emit_app(&mut actions, self.current_volume, self.current_muted);
                }
                self.needs_flush = true;
            }
        } else {
            self.touch_held_ticks = 0;
        }
        assert(steps_of(actions@) =~= old(self)@.hold_steps(finger_down));
        actions
    }

    /// Evaluate the touch event of this iteration, if there is one.
    ///
    /// If the screen was fully off when the finger came down, the touch only
    /// wakes it and the gesture does not fire (otherwise a wake-tap would also
    /// toggle mute on whatever app happened to be selected). The second part of
    /// the result is true then: the iteration ends at once, without
    /// [`Device::host`] and [`Device::settle`].
    pub fn gesture(&mut self, event: Option<TouchEvent>, finger_down: bool) -> (r: (
        Vec<Action>,
        bool,
    ))
        requires
            old(self).wf(),
        ensures
            final(self).wf(),
            final(self)@ == old(self)@.touched(gesture_in(event), finger_down),
            steps_of(r.0@) == old(self)@.touch_steps(gesture_in(event)),
            r.1 == (event is Some && old(self)@.dark()),
    {
        let mut actions: Vec<Action> = Vec::new();
        assert(steps_of(actions@) =~= Seq::<Step>::empty());
        let waking = self.waking;
        self.waking = waking && finger_down;
        let event = match event {
            Some(event) => event,
            None => return (actions, false),
        };
        let (was_off, duty) = self.backlight.wake_from_off(self.loop_tick);
        emit_duty(&mut actions, duty);
        if waking || was_off {
            assert(steps_of(actions@) =~= old(self)@.touch_steps(Some(event.gesture)));
            return (actions, true);
        }
        match event.gesture {
            Gesture::SingleTap => {
                if let Some(app_id) = self.selected_app {
                    emit(&mut actions, Action::Haptic(Effect::SharpClick));
                    emit(&mut actions, Action::Send(DeviceToHost::MuteToggle { app_id }));
                }
            },
            Gesture::LongPress => {
                emit(&mut actions, Action::Haptic(Effect::StrongClick));
                emit(&mut actions, Action::DrawLabel(Label::LongPress));
                self.needs_flush = true;
            },
            Gesture::SwipeLeft => {
                if self.apps.len() > 0 {
                    self.swipe(false, &mut actions);
                }
            },
            Gesture::SwipeRight => {
                if self.apps.len() > 0 {
                    self.swipe(true, &mut actions);
                }
            },
            _ => {},
        }
        if let Some(kind) = touch::to_wire_gesture(event.gesture) {
            emit(&mut actions, Action::Send(DeviceToHost::Gesture(kind)));
        }
        assert(steps_of(actions@) =~= old(self)@.touch_steps(Some(event.gesture)));
        (actions, false)
    }

    /// Move through the carousel. The old icon's memory is dropped: the next
    /// `SetAppIcon` needs the headroom.
    fn swipe(&mut self, forward: bool, actions: &mut Vec<Action>)
        requires
            old(self).wf(),
            old(self)@.apps.len() > 0,
        ensures
            final(self).wf(),
            final(self)@ == old(self)@.swiped(forward),
            steps_of(final(actions)@) == steps_of(old(actions)@) + old(self)@.swipe_steps(forward),
    {
        let ghost view = self@.apps;
        let n: usize = self.apps.len();
        let i: usize = if forward {
            if self.selected_idx + 1 == n {
                0
            } else {
                self.selected_idx + 1
            }
        } else {
            if self.selected_idx == 0 {
                n - 1
            } else {
                self.selected_idx - 1
            }
        };
        assert(view[i as int] == self.apps@[i as int]@);
        let app_id: u32 = self.apps[i].id;
        self.selected_idx = i;
        self.selected_app = Some(app_id);
        self.current_volume = self.apps[i].volume;
        self.current_muted = self.apps[i].muted;
        self.current_icon = Vec::new();
        self.needs_flush = true;
        emit(actions, Action::Haptic(Effect::SharpClick));
        emit_app(actions, self.current_volume, self.current_muted);
        emit(actions, Action::Send(DeviceToHost::AppSelected(app_id)));
        assert(steps_of(actions@) =~= steps_of(old(actions)@) + old(self)@.swipe_steps(forward));
    }

    /// Show the volume and mute state of the app `id`, where it is listed.
    fn show(&mut self, id: u32)
        requires
            old(self).wf(),
        ensures
            final(self).wf(),
            final(self)@ == old(self)@.showing(id),
    {
        if let Some(i) = find(&self.apps, id) {
            assert(self@.apps[i as int] == self.apps@[i as int]@);
            self.current_volume = self.apps[i].volume;
            self.current_muted = self.apps[i].muted;
        }
    }

    /// Handle a message from the host.
    ///
    /// Each message gets an `Ack` reply so that the companion can flow-control
    /// large writes (icon pushes). The screen is flushed first, so the host
    /// sees the `Ack` only after the display work for the message is done.
    pub fn host(&mut self, msg: HostToDevice) -> (actions: Vec<Action>)
        requires
            old(self).wf(),
        ensures
            final(self).wf(),
            final(self)@ == old(self)@.heard(msg@),
            steps_of(actions@) == old(self)@.heard_steps(msg@),
    {
        let ghost before = self@;
        let mut actions: Vec<Action> = Vec::new();
        assert(steps_of(actions@) =~= Seq::<Step>::empty());
        if !self.ready_sent {
            emit(&mut actions, Action::Send(DeviceToHost::Ready { version: PROTOCOL_VERSION }));
        }
        let ghost greeted = steps_of(actions@);
        let ack = match &msg {
            HostToDevice::Ping => false,
            HostToDevice::Echo(_) => false,
            _ => true,
        };
        self.receive(msg, &mut actions);
        self.reply(ack, &mut actions);
        self.last_host_msg_tick = self.loop_tick;
        self.ready_sent = true;
        assert(greeted =~= (if before.ready_sent {
            Seq::empty()
        } else {
            seq![Step::Send(DeviceMessage::Ready { version: PROTOCOL_VERSION })]
        }));
        actions
    }

    /// Flush the screen where that is due, then acknowledge where that is due.
    fn reply(&mut self, ack: bool, actions: &mut Vec<Action>)
        requires
            old(self).wf(),
        ensures
            final(self).wf(),
            final(self)@ == (DeviceModel { needs_flush: false, ..old(self)@ }),
            steps_of(final(actions)@) == steps_of(old(actions)@) + (if old(self)@.needs_flush {
                seq![Step::Flush]
            } else {
                Seq::empty()
            }) + (if ack {
                seq![Step::Send(DeviceMessage::Ack)]
            } else {
                Seq::empty()
            }),
    {
        if self.needs_flush {
            emit(actions, Action::Flush);
            self.needs_flush = false;
        }
        if ack {
            emit(actions, Action::Send(DeviceToHost::Ack));
        }
        assert(steps_of(actions@) =~= steps_of(old(actions)@) + (if old(self)@.needs_flush {
            seq![Step::Flush]
        } else {
            Seq::empty()
        }) + (if ack {
            seq![Step::Send(DeviceMessage::Ack)]
        } else {
            Seq::empty()
        }));
    }

    /// The part of [`Device::host`] that depends on the message.
    fn receive(&mut self, msg: HostToDevice, actions: &mut Vec<Action>)
        requires
            old(self).wf(),
        ensures
            final(self).wf(),
            final(self)@ == old(self)@.received(msg@),
            steps_of(final(actions)@) == steps_of(old(actions)@) + old(self)@.received_steps(msg@),
    {
        match msg {
            HostToDevice::Ping => {
                emit(actions, Action::Send(DeviceToHost::Pong));
            },
            HostToDevice::Echo(data) => {
                emit(actions, Action::Send(DeviceToHost::Echo(data)));
            },
            HostToDevice::SetWifiConfig { ssid, password } => {
                emit(actions, Action::StoreWifi { ssid, password });
            },
            HostToDevice::SetBacklight { active_pct, dim_after_secs, off_after_secs } => {
                emit_duty(actions, self.backlight.set_active_pct(active_pct));
                self.backlight.set_timeouts(dim_after_secs, off_after_secs);
            },
            HostToDevice::SetAppList(list) => self.set_app_list(list, actions),
            HostToDevice::SetAppIcon { app_id, pixels } => {
                if self.selected_app == Some(app_id) {
                    self.current_icon = pixels;
                    emit(actions, Action::DrawIcon);
                    self.needs_flush = true;
                }
            },
            HostToDevice::SetSelectedApp(id) => self.set_selected_app(id, actions),
            HostToDevice::SetVolume { app_id, level } => self.set_volume(app_id, level, actions),
            HostToDevice::SetMute { app_id, muted } => self.set_mute(app_id, muted, actions),
        }
        assert(steps_of(actions@) =~= steps_of(old(actions)@) + old(self)@.received_steps(msg@));
    }

    fn set_app_list(&mut self, list: Vec<AppInfo>, actions: &mut Vec<Action>)
        requires
            old(self).wf(),
        ensures
            final(self).wf(),
            ({
                let msg = HostMessage::SetAppList(messages::apps_view(list@));
                &&& final(self)@ == old(self)@.received(msg)
                &&& steps_of(final(actions)@) == steps_of(old(actions)@)
                    + old(self)@.received_steps(msg)
            }),
    {
        emit_duty(actions, self.backlight.notify_activity(self.loop_tick));
        assert(self@ == old(self)@.active());
        self.list(list);
        emit_app(actions, self.current_volume, self.current_muted);
        self.needs_flush = true;
        assert(steps_of(actions@) =~= steps_of(old(actions)@) + old(self)@.received_steps(
            HostMessage::SetAppList(messages::apps_view(list@)),
        ));
    }

    fn set_selected_app(&mut self, id: u32, actions: &mut Vec<Action>)
        requires
            old(self).wf(),
        ensures
            final(self).wf(),
            final(self)@ == old(self)@.received(HostMessage::SetSelectedApp(id)),
            steps_of(final(actions)@) == steps_of(old(actions)@) + old(self)@.received_steps(
                HostMessage::SetSelectedApp(id),
            ),
    {
        emit_duty(actions, self.backlight.notify_activity(self.loop_tick));
        assert(self@ == old(self)@.active());
        self.select(id);
        emit_app(actions, self.current_volume, self.current_muted);
        self.needs_flush = true;
        assert(steps_of(actions@) =~= steps_of(old(actions)@) + old(self)@.received_steps(
            HostMessage::SetSelectedApp(id),
        ));
    }

    fn set_volume(&mut self, app_id: u32, level: u8, actions: &mut Vec<Action>)
        requires
            old(self).wf(),
        ensures
            final(self).wf(),
            final(self)@ == old(self)@.received(HostMessage::SetVolume { app_id, level }),
            steps_of(final(actions)@) == steps_of(old(actions)@) + old(self)@.received_steps(
                HostMessage::SetVolume { app_id, level },
            ),
    {
        // OS-mixer or other-app volume change is user activity too.
        emit_duty(actions, self.backlight.notify_activity(self.loop_tick));
        assert(self@ == old(self)@.active());
        // Update the list so stale volumes aren't shown after a swipe.
        self.note_volume(app_id, level);
        if self.selected_app == Some(app_id) {
            let prev: u8 = self.current_volume;
            self.current_volume = level;
            emit(actions, Action::DrawVolumeDelta { prev, new: level });
            self.needs_flush = false;
        }
        assert(steps_of(actions@) =~= steps_of(old(actions)@) + old(self)@.received_steps(
            HostMessage::SetVolume { app_id, level },
        ));
    }

    fn set_mute(&mut self, app_id: u32, muted: bool, actions: &mut Vec<Action>)
        requires
            old(self).wf(),
        ensures
            final(self).wf(),
            final(self)@ == old(self)@.received(HostMessage::SetMute { app_id, muted }),
            steps_of(final(actions)@) == steps_of(old(actions)@) + old(self)@.received_steps(
                HostMessage::SetMute { app_id, muted },
            ),
    {
        emit_duty(actions, self.backlight.notify_activity(self.loop_tick));
        assert(self@ == old(self)@.active());
        self.note_mute(app_id, muted);
        if self.selected_app == Some(app_id) {
            self.current_muted = muted;
            emit(actions, Action::Haptic(Effect::SharpClick));
            emit(
                actions,
                Action::DrawLabel(
                    if muted {
                        Label::Muted
                    } else {
                        Label::Blank
                    },
                ),
            );
            self.needs_flush = true;
        }
        assert(steps_of(actions@) =~= steps_of(old(actions)@) + old(self)@.received_steps(
            HostMessage::SetMute { app_id, muted },
        ));
    }

    /// Select an app, listed or not.
    fn select(&mut self, id: u32)
        requires
            old(self).wf(),
        ensures
            final(self).wf(),
            final(self)@ == old(self)@.selecting(id),
    {
        self.selected_app = Some(id);
        self.selected_idx = match find(&self.apps, id) {
            Some(i) => i,
            None => 0,
        };
        self.current_icon = Vec::new();
        self.show(id);
    }

    /// Replace the listed volume of an app.
    fn note_volume(&mut self, app_id: u32, level: u8)
        requires
            old(self).wf(),
        ensures
            final(self).wf(),
            final(self)@ == old(self)@.with_volume(app_id, level),
    {
        if let Some(i) = find(&self.apps, app_id) {
            self.apps[i].volume = level;
            assert(self@.apps =~= old(self)@.with_volume(app_id, level).apps);
        }
    }

    /// Replace the listed mute state of an app.
    fn note_mute(&mut self, app_id: u32, muted: bool)
        requires
            old(self).wf(),
        ensures
            final(self).wf(),
            final(self)@ == old(self)@.with_mute(app_id, muted),
    {
        if let Some(i) = find(&self.apps, app_id) {
            self.apps[i].muted = muted;
            assert(self@.apps =~= old(self)@.with_mute(app_id, muted).apps);
        }
    }

    /// Replace the app list.
    fn list(&mut self, list: Vec<AppInfo>)
        requires
            old(self).wf(),
        ensures
            final(self).wf(),
            final(self)@ == old(self)@.listing(messages::apps_view(list@)),
    {
        let ghost view = messages::apps_view(list@);
        self.apps = list;
        match self.selected_app {
            None => {
                self.selected_idx = 0;
                if self.apps.len() > 0 {
                    assert(view[0] == self.apps@[0]@);
                    self.selected_app = Some(self.apps[0].id);
                    self.show(self.apps[0].id);
                }
            },
            Some(id) => {
                self.selected_idx = match find(&self.apps, id) {
                    Some(i) => i,
                    None => 0,
                };
                self.show(id);
            },
        }
    }

    /// End an iteration: notice that the companion has gone away, bring the
    /// screen up to date, and let the backlight idle.
    pub fn settle(&mut self) -> (actions: Vec<Action>)
        requires
            old(self).wf(),
        ensures
            final(self).wf(),
            final(self)@ == old(self)@.settled(),
            steps_of(actions@) == old(self)@.settle_steps(),
    {
        let mut actions: Vec<Action> = Vec::new();
        assert(steps_of(actions@) =~= Seq::<Step>::empty());
        if self.apps.len() > 0 && self.loop_tick.wrapping_sub(self.last_host_msg_tick)
            > SILENCE_TICKS {
            self.apps = Vec::new();
            self.selected_app = None;
            self.current_icon.clear();
            emit(&mut actions, Action::DrawNotConnected);
            emit(&mut actions, Action::DrawVolume(self.standalone_value));
            self.needs_flush = true;
            assert(self@.apps =~= Seq::<App>::empty());
        }
        // Refresh the statistics every ~600 ms.
        if self.debug_visible && self.loop_tick % OVERLAY_TICKS == 0 {
            self.needs_flush = true;
        }
        if self.needs_flush {
            if self.debug_visible {
                emit(&mut actions, Action::DrawStats(self.loop_tick));
            }
            emit(&mut actions, Action::Flush);
            self.needs_flush = false;
        }
        emit_duty(&mut actions, self.backlight.tick(self.loop_tick));
        assert(steps_of(actions@) =~= old(self)@.settle_steps());
        actions
    }
}

/// The gesture of an event, if there is an event.
pub open spec fn gesture_in(event: Option<TouchEvent>) -> Option<Gesture> {
    match event {
        Some(e) => Some(e.gesture),
        None => None,
    }
}

/// Where an id is listed more than once, its first entry counts.
pub proof fn law_first_entry_counts(apps: Seq<App>, id: u32)
    ensures
        match position(apps, id) {
            Some(i) => {
                &&& 0 <= i < apps.len()
                &&& apps[i].id == id
                &&& forall|j: int| 0 <= j < i ==> (#[trigger] apps[j]).id != id
            },
            None => forall|j: int| 0 <= j < apps.len() ==> (#[trigger] apps[j]).id != id,
        },
{
    lemma_position_from(apps, id, 0);
}

/// The step answers a host message.
pub open spec fn is_reply(step: Step) -> bool {
    match step {
        Step::Send(DeviceMessage::Pong) => true,
        Step::Send(DeviceMessage::Echo(_)) => true,
        Step::Send(DeviceMessage::Ack) => true,
        _ => false,
    }
}

/// Every host message gets exactly one reply: `Pong` for `Ping`, `Echo` with the
/// same payload for `Echo`, and `Ack` for every other message.
pub proof fn law_one_reply(m: DeviceModel, msg: HostMessage)
    ensures
        ({
            let steps = m.heard_steps(msg);
            let at = if acked(msg) {
                steps.len() - 1
            } else if m.ready_sent {
                0
            } else {
                1
            };
            &&& 0 <= at < steps.len()
            &&& steps[at] == Step::Send(
                match msg {
                    HostMessage::Ping => DeviceMessage::Pong,
                    HostMessage::Echo(data) => DeviceMessage::Echo(data),
                    _ => DeviceMessage::Ack,
                },
            )
            &&& forall|i: int| 0 <= i < steps.len() && i != at ==> !is_reply(#[trigger] steps[i])
        }),
{
}

/// The host sees `Ack` only after the display work for its message is done: the
/// flush that the message needs stands just before it.
pub proof fn law_ack_after_flush(m: DeviceModel, msg: HostMessage)
    requires
        acked(msg),
        m.received(msg).needs_flush,
    ensures
        m.heard_steps(msg).len() >= 2,
        m.heard_steps(msg)[m.heard_steps(msg).len() - 2] == Step::Flush,
        m.heard_steps(msg).last() == Step::Send(DeviceMessage::Ack),
{
}

/// The step tells the host that the device is ready.
pub open spec fn is_ready(step: Step) -> bool {
    step matches Step::Send(DeviceMessage::Ready { .. })
}

proof fn lemma_no_ready(m: DeviceModel, msg: HostMessage)
    ensures
        forall|i: int|
            0 <= i < m.received_steps(msg).len() ==> !is_ready(#[trigger] m.received_steps(msg)[i]),
{
}

/// `Ready` goes out before anything else on the first message, and never again.
pub proof fn law_ready_once(m: DeviceModel, msg: HostMessage)
    ensures
        m.heard(msg).ready_sent,
        !m.ready_sent ==> m.heard_steps(msg)[0] == Step::Send(
            DeviceMessage::Ready { version: PROTOCOL_VERSION },
        ),
        forall|i: int|
            0 <= i < m.heard_steps(msg).len() && (m.ready_sent || i > 0) ==> !is_ready(
                #[trigger] m.heard_steps(msg)[i],
            ),
{
    lemma_no_ready(m, msg);
    let steps = m.heard_steps(msg);
    let body = m.received_steps(msg);
    let start: int = if m.ready_sent {
        0
    } else {
        1
    };
    assert forall|i: int| 0 <= i < steps.len() && (m.ready_sent || i > 0) implies !is_ready(
        #[trigger] steps[i],
    ) by {
        if i < start + body.len() {
            assert(steps[i] == body[i - start]);
        }
    }
}

/// A swipe the other way undoes a swipe: it comes back to the same entry.
pub proof fn law_swipes_cancel(m: DeviceModel, forward: bool)
    requires
        m.wf(),
        m.apps.len() > 0,
    ensures
        m.swiped(forward).swiped(!forward).idx == m.idx,
        m.swiped(forward).swiped(!forward).apps == m.apps,
        m.swiped(forward).swiped(!forward).selected == Some(m.apps[m.idx].id),
{
}

/// After `n` swipes forward.
pub open spec fn swiped_times(m: DeviceModel, n: nat) -> DeviceModel
    decreases n,
{
    if n == 0 {
        m
    } else {
        swiped_times(m, (n - 1) as nat).swiped(true)
    }
}

proof fn lemma_swiped_times(m: DeviceModel, n: nat)
    requires
        m.wf(),
        m.apps.len() > 0,
        n <= m.apps.len(),
    ensures
        swiped_times(m, n).apps == m.apps,
        swiped_times(m, n).idx == if m.idx + n < m.apps.len() {
            m.idx + n
        } else {
            m.idx + n - m.apps.len()
        },
    decreases n,
{
    if n > 0 {
        lemma_swiped_times(m, (n - 1) as nat);
    }
}

/// The carousel is a circle: every entry is reached by swiping on, and as many
/// swipes as there are entries come back to the start.
pub proof fn law_carousel(m: DeviceModel, target: int)
    requires
        m.wf(),
        0 <= target < m.apps.len(),
    ensures
        swiped_times(m, m.apps.len()).idx == m.idx,
        exists|n: nat| n < m.apps.len() && (#[trigger] swiped_times(m, n)).idx == target,
{
    lemma_swiped_times(m, m.apps.len());
    let n: nat = if target >= m.idx {
        (target - m.idx) as nat
    } else {
        (target - m.idx + m.apps.len()) as nat
    };
    lemma_swiped_times(m, n);
    assert(swiped_times(m, n).idx == target);
}

/// A swipe shows the entry that it comes to, where no id is listed twice.
pub proof fn law_swipe_shows_entry(m: DeviceModel, forward: bool)
    requires
        m.wf(),
        m.apps.len() > 0,
        forall|i: int, j: int|
            0 <= i < j < m.apps.len() ==> (#[trigger] m.apps[i]).id != (#[trigger] m.apps[j]).id,
    ensures
        ({
            let then = m.swiped(forward);
            let app = m.apps[then.idx];
            &&& then.selected == Some(app.id)
            &&& then.name() == app.name
            &&& then.volume == app.volume
            &&& then.muted == app.muted
        }),
{
    let then = m.swiped(forward);
    lemma_position_from(m.apps, m.apps[then.idx].id, 0);
}

/// The step sends something to the host.
pub open spec fn is_send(step: Step) -> bool {
    step is Send
}

/// A touch on a dark screen only wakes it: whatever the gesture, nothing is
/// sent, and neither the selection nor what is known of the apps changes.
pub proof fn law_dark_touch_only_wakes(m: DeviceModel, gesture: Gesture, finger_down: bool)
    requires
        m.dark(),
    ensures
        forall|i: int|
            0 <= i < m.touch_steps(Some(gesture)).len() ==> !is_send(
                #[trigger] m.touch_steps(Some(gesture))[i],
            ),
        m.touched(Some(gesture), finger_down) == (DeviceModel {
            waking: m.waking && finger_down,
            ..m.active()
        }),
{
}

/// A finger that comes down on a dark screen stays without effect until it has
/// been lifted, and no longer.
pub proof fn law_dark_until_lifted(
    m: DeviceModel,
    finger_down: bool,
    gesture: Option<Gesture>,
    count: i32,
    msg: HostMessage,
)
    ensures
        m.backlight.state == State::Off ==> m.holding(true).dark(),
        m.waking ==> {
            &&& m.turned(count).waking
            &&& m.holding(finger_down).waking
            &&& m.touched(gesture, true).waking
            &&& !m.touched(gesture, false).waking
            &&& m.heard(msg).waking
            &&& m.settled().waking
        },
{
}

/// A companion that has gone silent is forgotten; one that has been heard from
/// in time is not.
pub proof fn law_silence(m: DeviceModel)
    ensures
        m.apps.len() > 0 && backlight::ticks_between(m.last_host, m.tick) > SILENCE_TICKS ==> {
            &&& m.settled().apps.len() == 0
            &&& m.settled().selected is None
            &&& m.settled().icon.len() == 0
            &&& m.settle_steps()[0] == Step::DrawNotConnected
        },
        backlight::ticks_between(m.last_host, m.tick) <= SILENCE_TICKS ==> {
            &&& m.settled().apps == m.apps
            &&& m.settled().selected == m.selected
            &&& m.settled().icon == m.icon
        },
{
}

/// A volume that the host sets is not forgotten on a swipe: the app's entry has
/// it, and every other entry is as before.
pub proof fn law_volume_is_kept(m: DeviceModel, app_id: u32, level: u8)
    ensures
        ({
            let then = m.heard(HostMessage::SetVolume { app_id, level });
            &&& then.apps.len() == m.apps.len()
            &&& position(m.apps, app_id) matches Some(i) ==> then.apps[i] == (App {
                volume: level,
                ..m.apps[i]
            })
            &&& forall|j: int|
                0 <= j < m.apps.len() && position(m.apps, app_id) != Some(j)
                    ==> #[trigger] then.apps[j] == m.apps[j]
            &&& m.selected == Some(app_id) ==> then.volume == level
            &&& m.selected != Some(app_id) ==> then.volume == m.volume
        }),
{
    lemma_position_from(m.apps, app_id, 0);
}

/// As for the volume, so for the mute state.
pub proof fn law_mute_is_kept(m: DeviceModel, app_id: u32, muted: bool)
    ensures
        ({
            let then = m.heard(HostMessage::SetMute { app_id, muted });
            &&& then.apps.len() == m.apps.len()
            &&& position(m.apps, app_id) matches Some(i) ==> then.apps[i] == (App {
                muted,
                ..m.apps[i]
            })
            &&& forall|j: int|
                0 <= j < m.apps.len() && position(m.apps, app_id) != Some(j)
                    ==> #[trigger] then.apps[j] == m.apps[j]
            &&& m.selected == Some(app_id) ==> then.muted == muted
            &&& m.selected != Some(app_id) ==> then.muted == m.muted
        }),
{
    lemma_position_from(m.apps, app_id, 0);
}

/// Icons of apps that are not selected are passed over, but acknowledged.
pub proof fn law_other_icons_passed_over(m: DeviceModel, app_id: u32, pixels: Seq<u8>)
    requires
        m.selected != Some(app_id),
    ensures
        m.received(HostMessage::SetAppIcon { app_id, pixels }) == m,
        m.heard_steps(HostMessage::SetAppIcon { app_id, pixels }).last() == Step::Send(
            DeviceMessage::Ack,
        ),
{
}

/// With an app selected, a turn goes to the host and leaves the standalone
/// value alone; without one, nothing is sent.
pub proof fn law_turn_goes_one_way(m: DeviceModel, count: i32)
    ensures
        m.selected is Some ==> m.turned(count).standalone == m.standalone,
        m.selected is None ==> forall|i: int|
            0 <= i < m.turn_steps(count).len() ==> !is_send(#[trigger] m.turn_steps(count)[i]),
        m.selected matches Some(app_id) ==> count != m.last_count ==> m.turn_steps(count).last()
            == Step::Send(DeviceMessage::VolumeDelta { app_id, delta: m.delta(count) }),
{
}

/// After `n` iterations with a finger down.
pub open spec fn held_for(m: DeviceModel, n: nat) -> DeviceModel
    decreases n,
{
    if n == 0 {
        m
    } else {
        held_for(m, (n - 1) as nat).holding(true)
    }
}

/// A finger that is held down toggles the debug overlay once, when it has been
/// down long enough, however much longer it stays. Lifting it starts the count
/// anew.
pub proof fn law_hold_toggles_once(m: DeviceModel, n: nat)
    requires
        m.held == 0,
    ensures
        held_for(m, n).debug == (m.debug != (n >= HOLD_TICKS)),
        held_for(m, n).held == if n < u32::MAX {
            n as u32
        } else {
            u32::MAX
        },
        held_for(m, n).holding(false).held == 0,
    decreases n,
{
    if n > 0 {
        law_hold_toggles_once(m, (n - 1) as nat);
    }
}

/// The carousel stands at the selected app, where that is listed.
pub open spec fn in_sync(m: DeviceModel) -> bool {
    m.selected is Some && position(m.apps, m.selected->0) is Some ==> 0 <= m.idx < m.apps.len()
        && m.apps[m.idx].id == m.selected->0
}

proof fn lemma_same_ids(a: Seq<App>, b: Seq<App>, id: u32, from: int)
    requires
        a.len() == b.len(),
        0 <= from,
        forall|i: int| 0 <= i < a.len() ==> (#[trigger] a[i]).id == (#[trigger] b[i]).id,
    ensures
        position_from(a, id, from) == position_from(b, id, from),
    decreases a.len() - from,
{
    if from < a.len() && a[from].id != id {
        lemma_same_ids(a, b, id, from + 1);
    }
}

/// Whatever happens, the carousel keeps standing at the selected app, where that
/// is listed.
pub proof fn law_carousel_in_sync(
    m: DeviceModel,
    count: i32,
    finger_down: bool,
    gesture: Option<Gesture>,
    msg: HostMessage,
)
    requires
        m.wf(),
        in_sync(m),
    ensures
        in_sync(m.turned(count)),
        in_sync(m.holding(finger_down)),
        in_sync(m.touched(gesture, finger_down)),
        in_sync(m.heard(msg)),
        in_sync(m.settled()),
{
    match msg {
        HostMessage::SetVolume { app_id, level } => {
            lemma_position_from(m.apps, app_id, 0);
            if m.selected is Some {
                lemma_same_ids(m.apps, m.heard(msg).apps, m.selected->0, 0);
            }
        },
        HostMessage::SetMute { app_id, muted } => {
            lemma_position_from(m.apps, app_id, 0);
            if m.selected is Some {
                lemma_same_ids(m.apps, m.heard(msg).apps, m.selected->0, 0);
            }
        },
        HostMessage::SetAppList(apps) => {
            if m.selected is Some {
                lemma_position_from(apps, m.selected->0, 0);
            }
        },
        HostMessage::SetSelectedApp(id) => {
            lemma_position_from(m.apps, id, 0);
        },
        _ => {},
    }
}

/// The knob, at a count that wraps, has gone from `from` to `to` in `steps` steps.
pub open spec fn went(from: i32, to: i32, steps: int) -> bool {
    ||| to == from + steps
    ||| to == from + steps + 0x1_0000_0000
    ||| to == from + steps - 0x1_0000_0000
}

/// A turn is reported in full: the host gets exactly the steps that the knob has
/// made since the last turn, or, without a selected app, the standalone value
/// moves by exactly those, as far as 0 and 100 let it. Where there are more
/// steps than the message can carry, it carries as many as it can.
pub proof fn law_turn_is_reported_in_full(m: DeviceModel, count: i32, steps: int)
    requires
        went(m.last_count, count, steps),
        i32::MIN <= steps <= i32::MAX,
        steps != 0,
    ensures
        ({
            let then = m.turned(count);
            let told = m.turn_steps(count).last();
            let room = i16::MIN <= steps <= i16::MAX;
            &&& m.turn_steps(count).len() > 0
            &&& then.last_count == count
            &&& m.selected matches Some(app) ==> {
                &&& told matches Step::Send(DeviceMessage::VolumeDelta { app_id, delta })
                &&& app_id == app
                &&& room ==> delta == steps
                &&& steps > i16::MAX ==> delta == i16::MAX
                &&& steps < i16::MIN ==> delta == i16::MIN
                &&& then.standalone == m.standalone
            }
            &&& m.selected is None && m.standalone <= 100 ==> {
                &&& told == (Step::DrawVolumeDelta { prev: m.standalone, new: then.standalone })
                &&& 0 <= m.standalone + steps <= 100 ==> then.standalone == m.standalone + steps
                &&& m.standalone + steps < 0 ==> then.standalone == 0
                &&& m.standalone + steps > 100 ==> then.standalone == 100
            }
        }),
{
    assert(turned_by(m.last_count, count) == steps);
}

/// Nothing is reported, moved or woken where the knob has not been turned.
pub proof fn law_no_turn_no_report(m: DeviceModel)
    ensures
        m.turn_steps(m.last_count).len() == 0,
        m.turned(m.last_count) == (DeviceModel { tick: m.turned(m.last_count).tick, ..m }),
{
}

/// Small turns add up to a large one: without a selected app two turns move the
/// standalone value as far as one to the same place, where they go the same way
/// or stay within the bar's range.
pub proof fn law_turns_add_up(m: DeviceModel, first: i32, second: i32)
    requires
        m.wf(),
        m.selected is None,
        0 <= m.standalone + (first - m.last_count) <= 100,
        i16::MIN <= first - m.last_count <= i16::MAX,
        i16::MIN <= second - first <= i16::MAX,
        i16::MIN <= second - m.last_count <= i16::MAX,
    ensures
        m.turned(first).turned(second).standalone == m.turned(second).standalone,
        m.turned(first).turned(second).last_count == second,
{
}

/// Every iteration counts one tick, and the count wraps round.
pub proof fn law_turn_counts_ticks(m: DeviceModel, count: i32)
    ensures
        backlight::ticks_between(m.tick, m.turned(count).tick) == 1,
{
}

/// Turning the knob is activity: it restarts the idle time, and lights a screen
/// that is not fully lit before anything else is done.
pub proof fn law_turn_lights(m: DeviceModel, count: i32)
    requires
        count != m.last_count,
    ensures
        ({
            let then = m.turned(count);
            &&& then.backlight.state == State::Active
            &&& then.backlight.last_activity == then.tick
            &&& then.backlight.active_pct == m.backlight.active_pct
            &&& m.backlight.state != State::Active ==> m.turn_steps(count)[0] == Step::SetDuty(
                m.backlight.active_pct,
            )
            &&& m.backlight.state == State::Active ==> m.turn_steps(count).len() == 1
        }),
{
}

/// On a lit screen a swipe to the right goes one entry on in the circle of apps,
/// and a swipe to the left one entry back: that entry is selected and shown, and
/// the host is told of it and of no other.
pub proof fn law_swipe_directions(m: DeviceModel, right: bool, finger_down: bool)
    requires
        m.wf(),
        !m.dark(),
        m.apps.len() > 0,
    ensures
        ({
            let gesture = if right {
                Gesture::SwipeRight
            } else {
                Gesture::SwipeLeft
            };
            let n = m.apps.len() as int;
            let at = if right {
                (m.idx + 1) % n
            } else {
                (m.idx + n - 1) % n
            };
            let then = m.touched(Some(gesture), finger_down);
            let steps = m.touch_steps(Some(gesture));
            &&& 0 <= at < n
            &&& then.idx == at
            &&& then.selected == Some(m.apps[at].id)
            &&& then.volume == m.apps[at].volume
            &&& then.muted == m.apps[at].muted
            &&& then.icon.len() == 0
            &&& then.apps == m.apps
            &&& then.needs_flush
            &&& steps.contains(Step::Haptic(Effect::SharpClick))
            &&& steps.contains(Step::DrawIcon)
            &&& steps.contains(Step::DrawName)
            &&& steps.contains(Step::DrawVolume(m.apps[at].volume))
            &&& steps.contains(
                Step::DrawLabel(
                    if m.apps[at].muted {
                        Label::Muted
                    } else {
                        Label::Blank
                    },
                ),
            )
            &&& steps.contains(Step::Send(DeviceMessage::AppSelected(m.apps[at].id)))
            &&& forall|i: int|
                0 <= i < steps.len() ==> match #[trigger] steps[i] {
                    Step::Send(DeviceMessage::AppSelected(id)) => id == m.apps[at].id,
                    Step::Send(DeviceMessage::Gesture(kind)) => kind == if right {
                        GestureKind::SwipeRight
                    } else {
                        GestureKind::SwipeLeft
                    },
                    Step::Send(_) => false,
                    _ => true,
                }
        }),
{
    let n = m.apps.len() as int;
    assert((m.idx + 1) % n == if m.idx + 1 == n {
        0
    } else {
        m.idx + 1
    }) by (nonlinear_arith)
        requires
            0 <= m.idx < n,
    ;
    assert((m.idx + n - 1) % n == if m.idx == 0 {
        n - 1
    } else {
        m.idx - 1
    }) by (nonlinear_arith)
        requires
            0 <= m.idx < n,
    ;
    let gesture = if right {
        Gesture::SwipeRight
    } else {
        Gesture::SwipeLeft
    };
    let steps = m.touch_steps(Some(gesture));
    let d: int = if m.backlight.state == State::Active {
        0
    } else {
        1
    };
    let app = m.apps[m.neighbour(right)];
    assert(steps[d] == Step::Haptic(Effect::SharpClick));
    assert(steps[d + 1] == Step::DrawIcon);
    assert(steps[d + 2] == Step::DrawName);
    assert(steps[d + 3] == Step::DrawVolume(app.volume));
    assert(steps[d + 4] == Step::DrawLabel(mute_label(app.muted)));
    assert(steps[d + 5] == Step::Send(DeviceMessage::AppSelected(app.id)));
}

/// A swipe to the left after one to the right comes back to the same app, and
/// the other way round.
pub proof fn law_swipe_back(m: DeviceModel, right_first: bool)
    requires
        m.wf(),
        !m.dark(),
        m.apps.len() > 0,
    ensures
        ({
            let (one, other) = if right_first {
                (Gesture::SwipeRight, Gesture::SwipeLeft)
            } else {
                (Gesture::SwipeLeft, Gesture::SwipeRight)
            };
            let there = m.touched(Some(one), false);
            let back = there.touched(Some(other), false);
            &&& m.apps.len() > 1 ==> there.idx != m.idx
            &&& m.apps.len() > 2 ==> there.idx != m.touched(Some(other), false).idx
            &&& back.idx == m.idx
            &&& back.selected == Some(m.apps[m.idx].id)
            &&& back.volume == m.apps[m.idx].volume
            &&& back.muted == m.apps[m.idx].muted
        }),
{
}

/// On a lit screen a tap asks for muting the selected app, and for nothing else;
/// a long press shows its label; only swipes to the sides go through the apps.
pub proof fn law_other_gestures(m: DeviceModel, gesture: Gesture, finger_down: bool)
    requires
        !m.dark(),
        m.apps.len() == 0 || !(gesture is SwipeLeft || gesture is SwipeRight),
    ensures
        ({
            let then = m.touched(Some(gesture), finger_down);
            let steps = m.touch_steps(Some(gesture));
            &&& then.apps == m.apps
            &&& then.selected == m.selected
            &&& then.idx == m.idx
            &&& then.volume == m.volume
            &&& then.muted == m.muted
            &&& then.icon == m.icon
            &&& then.standalone == m.standalone
            &&& then.needs_flush == (m.needs_flush || gesture is LongPress)
            &&& gesture is LongPress ==> steps.contains(Step::DrawLabel(Label::LongPress))
                && steps.contains(Step::Haptic(Effect::StrongClick))
            &&& gesture is SingleTap && m.selected is Some ==> steps.contains(
                Step::Send(DeviceMessage::MuteToggle { app_id: m.selected->0 }),
            ) && steps.contains(Step::Haptic(Effect::SharpClick))
            &&& forall|i: int|
                0 <= i < steps.len() ==> match #[trigger] steps[i] {
                    Step::Send(DeviceMessage::MuteToggle { app_id }) => gesture is SingleTap
                        && m.selected == Some(app_id),
                    Step::Send(DeviceMessage::Gesture(_)) => true,
                    Step::Send(_) => false,
                    Step::Haptic(_) => gesture is LongPress || (gesture is SingleTap
                        && m.selected is Some),
                    Step::DrawLabel(_) => gesture is LongPress,
                    Step::SetDuty(pct) => m.backlight.state != State::Active && pct
                        == m.backlight.active_pct,
                    _ => false,
                }
        }),
{
    let steps = m.touch_steps(Some(gesture));
    let d: int = if m.backlight.state == State::Active {
        0
    } else {
        1
    };
    if gesture is LongPress {
        assert(steps[d] == Step::Haptic(Effect::StrongClick));
        assert(steps[d + 1] == Step::DrawLabel(Label::LongPress));
    } else if gesture is SingleTap && m.selected is Some {
        assert(steps[d] == Step::Haptic(Effect::SharpClick));
        assert(steps[d + 1] == Step::Send(DeviceMessage::MuteToggle { app_id: m.selected->0 }));
    }
}

/// On a lit screen every gesture that has a name on the wire is reported to the
/// host under that name, last of all; the others are not reported.
pub proof fn law_gestures_are_reported(m: DeviceModel, gesture: Gesture)
    requires
        !m.dark(),
    ensures
        ({
            let steps = m.touch_steps(Some(gesture));
            let reported = |kind: GestureKind|
                steps.len() > 0 && steps.last() == Step::Send(DeviceMessage::Gesture(kind));
            &&& gesture is SingleTap ==> reported(GestureKind::SingleTap)
            &&& gesture is LongPress ==> reported(GestureKind::LongPress)
            &&& gesture is SwipeUp ==> reported(GestureKind::SwipeUp)
            &&& gesture is SwipeDown ==> reported(GestureKind::SwipeDown)
            &&& gesture is SwipeLeft ==> reported(GestureKind::SwipeLeft)
            &&& gesture is SwipeRight ==> reported(GestureKind::SwipeRight)
            &&& gesture is DoubleTap || gesture is NoGesture ==> forall|i: int|
                0 <= i < steps.len() ==> !((#[trigger] steps[i]) is Send)
        }),
{
}

/// Any touch is activity: it restarts the idle time and lights the screen, and a
/// finger that stays down keeps doing so.
pub proof fn law_touch_lights(m: DeviceModel, gesture: Gesture, finger_down: bool)
    ensures
        ({
            let then = m.touched(Some(gesture), finger_down);
            let held = m.holding(true);
            &&& then.backlight == (BacklightModel {
                state: State::Active,
                last_activity: m.tick,
                ..m.backlight
            })
            &&& held.backlight == (BacklightModel {
                state: State::Active,
                last_activity: m.tick,
                ..m.backlight
            })
            &&& m.backlight.state != State::Active ==> {
                &&& m.touch_steps(Some(gesture))[0] == Step::SetDuty(m.backlight.active_pct)
                &&& m.hold_steps(true)[0] == Step::SetDuty(m.backlight.active_pct)
            }
            &&& m.touched(None, finger_down).backlight == m.backlight
            &&& m.touch_steps(None).len() == 0
            &&& m.holding(false).backlight == m.backlight
            &&& m.hold_steps(false).len() == 0
        }),
{
}

/// The hold that toggles the debug overlay paints the whole screen anew: what is
/// known of the selected app, or that there is no companion.
pub proof fn law_hold_repaints(m: DeviceModel)
    requires
        m.backlight.state == State::Active,
    ensures
        ({
            let then = m.holding(true);
            let steps = m.hold_steps(true);
            &&& (then.debug != m.debug) == (m.held == 1333)
            &&& m.held != 1333 ==> steps.len() == 0 && then.needs_flush == m.needs_flush
            &&& m.held == 1333 ==> {
                &&& then.needs_flush
                &&& m.apps.len() == 0 ==> steps == seq![
                    Step::DrawNotConnected,
                    Step::DrawVolume(m.standalone),
                ]
                &&& m.apps.len() > 0 ==> steps == seq![
                    Step::ClearScreen,
                    Step::DrawIcon,
                    Step::DrawName,
                    Step::DrawVolume(m.volume),
                    Step::DrawLabel(
                        if m.muted {
                            Label::Muted
                        } else {
                            Label::Blank
                        },
                    ),
                ]
            }
            &&& then.apps == m.apps
            &&& then.selected == m.selected
            &&& then.standalone == m.standalone
        }),
{
    if m.held == 1333 {
        if m.apps.len() == 0 {
            assert(m.hold_steps(true) =~= seq![
                Step::DrawNotConnected,
                Step::DrawVolume(m.standalone),
            ]);
        } else {
            assert(m.hold_steps(true) =~= seq![
                Step::ClearScreen,
                Step::DrawIcon,
                Step::DrawName,
                Step::DrawVolume(m.volume),
                Step::DrawLabel(mute_label(m.muted)),
            ]);
        }
    }
}

/// The settings that the host pushes are the ones in force: the brightness, held
/// within 1 and 100, at once on a lit screen; then the first timeout counts from
/// the last activity to dimming, the second from there to switching off, and a
/// timeout of zero never comes.
pub proof fn law_backlight_settings_take_effect(
    m: DeviceModel,
    active_pct: u8,
    dim_after_secs: u16,
    off_after_secs: u16,
    later: u32,
)
    ensures
        ({
            let msg = HostMessage::SetBacklight { active_pct, dim_after_secs, off_after_secs };
            let then = m.heard(msg);
            let at = DeviceModel { tick: later, ..then }.settled().backlight.state;
            let idle = backlight::ticks_between(m.backlight.last_activity, later);
            &&& then.backlight.state == m.backlight.state
            &&& then.backlight.last_activity == m.backlight.last_activity
            &&& 1 <= active_pct <= 100 ==> then.backlight.active_pct == active_pct
            &&& active_pct == 0 ==> then.backlight.active_pct == 1
            &&& active_pct > 100 ==> then.backlight.active_pct == 100
            &&& m.backlight.state == State::Active ==> m.heard_steps(msg).contains(
                Step::SetDuty(then.backlight.active_pct),
            )
            &&& m.backlight.state == State::Active ==> at == (if dim_after_secs > 0 && idle
                >= dim_after_secs * 333 {
                State::Dim
            } else {
                State::Active
            })
            &&& m.backlight.state == State::Dim ==> at == (if dim_after_secs > 0 && off_after_secs
                > 0 && idle >= dim_after_secs * 333 + off_after_secs * 333 {
                State::Off
            } else {
                State::Dim
            })
            &&& m.backlight.state == State::Off ==> at == State::Off
        }),
{
    let msg = HostMessage::SetBacklight { active_pct, dim_after_secs, off_after_secs };
    if m.backlight.state == State::Active {
        let i: int = if m.ready_sent {
            0
        } else {
            1
        };
        assert(m.heard_steps(msg)[i] == Step::SetDuty(m.heard(msg).backlight.active_pct));
    }
}

/// Which messages of the host count as activity: news of the apps do, and light
/// the screen; liveness checks, icons and settings do not.
pub proof fn law_host_activity(m: DeviceModel, msg: HostMessage)
    ensures
        ({
            let then = m.heard(msg).backlight;
            let news = msg is SetAppList || msg is SetSelectedApp || msg is SetVolume
                || msg is SetMute;
            &&& news ==> then == (BacklightModel {
                state: State::Active,
                last_activity: m.tick,
                ..m.backlight
            })
            &&& news && m.backlight.state != State::Active ==> m.heard_steps(msg).contains(
                Step::SetDuty(m.backlight.active_pct),
            )
            &&& !news ==> then.state == m.backlight.state && then.last_activity
                == m.backlight.last_activity
            &&& !news && !(msg is SetBacklight) ==> then == m.backlight
        }),
{
    let i: int = if m.ready_sent {
        0
    } else {
        1
    };
    if (msg is SetAppList || msg is SetSelectedApp || msg is SetVolume || msg is SetMute)
        && m.backlight.state != State::Active {
        assert(m.heard_steps(msg)[i] == Step::SetDuty(m.backlight.active_pct));
    }
}

/// What no message of the host touches, and that every one is taken note of.
pub proof fn law_host_is_heard(m: DeviceModel, msg: HostMessage)
    ensures
        ({
            let then = m.heard(msg);
            &&& then.last_host == m.tick
            &&& then.tick == m.tick
            &&& then.last_count == m.last_count
            &&& then.standalone == m.standalone
            &&& then.debug == m.debug
            &&& then.held == m.held
            &&& !then.needs_flush
            &&& !(msg is SetAppList || msg is SetVolume || msg is SetMute) ==> then.apps == m.apps
            &&& !(msg is SetAppList || msg is SetSelectedApp) ==> then.selected == m.selected
                && then.idx == m.idx
            &&& !(msg is SetAppList || msg is SetSelectedApp || msg is SetVolume) ==> then.volume
                == m.volume
            &&& !(msg is SetAppList || msg is SetSelectedApp || msg is SetMute) ==> then.muted
                == m.muted
            &&& !(msg is SetSelectedApp || msg is SetAppIcon) ==> then.icon == m.icon
        }),
{
}

/// The app with the given id stands at `i`, and nowhere before.
pub open spec fn first_at(apps: Seq<App>, id: u32, i: int) -> bool {
    &&& 0 <= i < apps.len()
    &&& apps[i].id == id
    &&& forall|j: int| 0 <= j < i ==> (#[trigger] apps[j]).id != id
}

proof fn lemma_first_at(apps: Seq<App>, id: u32, i: int)
    requires
        first_at(apps, id, i),
    ensures
        position(apps, id) == Some(i),
{
    lemma_position_from(apps, id, 0);
    let k = position(apps, id);
    if k is None {
        assert(apps[i].id != id);
    } else if k->0 < i {
        assert(apps[k->0].id != id);
    } else if k->0 > i {
        assert(apps[i].id != id);
    }
}

/// A new list takes the place of the old one, and the selected app stays
/// selected: where it is listed, it is shown as the list has it. Without a
/// selected app the first one gets selected.
pub proof fn law_list_is_taken_over(m: DeviceModel, apps: Seq<App>, i: int)
    ensures
        ({
            let msg = HostMessage::SetAppList(apps);
            let then = m.heard(msg);
            &&& then.apps == apps
            &&& m.selected matches Some(id) ==> {
                &&& then.selected == Some(id)
                &&& first_at(apps, id, i) ==> then.idx == i && then.volume == apps[i].volume
                    && then.muted == apps[i].muted
                &&& (forall|j: int| 0 <= j < apps.len() ==> (#[trigger] apps[j]).id != id) ==> {
                    &&& then.idx == 0
                    &&& then.volume == m.volume
                    &&& then.muted == m.muted
                }
            }
            &&& m.selected is None && apps.len() > 0 ==> {
                &&& then.selected == Some(apps[0].id)
                &&& then.idx == 0
                &&& then.volume == apps[0].volume
                &&& then.muted == apps[0].muted
            }
            &&& m.selected is None && apps.len() == 0 ==> then.selected is None
            &&& painted(m.heard_steps(msg), then)
        }),
{
    let msg = HostMessage::SetAppList(apps);
    if m.selected is Some {
        let id = m.selected->0;
        lemma_position_from(apps, id, 0);
        if first_at(apps, id, i) {
            lemma_first_at(apps, id, i);
        }
    } else if apps.len() > 0 {
        assert(first_at(apps, apps[0].id, 0));
        lemma_first_at(apps, apps[0].id, 0);
    }
    lemma_painted(m, msg);
}

/// The steps paint the selected app's icon, name, volume and mute state as the
/// device has them, and bring them to the display.
pub open spec fn painted(steps: Seq<Step>, then: DeviceModel) -> bool {
    &&& steps.contains(Step::DrawIcon)
    &&& steps.contains(Step::DrawName)
    &&& steps.contains(Step::DrawVolume(then.volume))
    &&& steps.contains(
        Step::DrawLabel(
            if then.muted {
                Label::Muted
            } else {
                Label::Blank
            },
        ),
    )
    &&& steps.contains(Step::Flush)
}

proof fn lemma_painted(m: DeviceModel, msg: HostMessage)
    requires
        msg is SetAppList || msg is SetSelectedApp,
    ensures
        painted(m.heard_steps(msg), m.heard(msg)),
{
    let steps = m.heard_steps(msg);
    let then = m.heard(msg);
    let r: int = if m.ready_sent {
        0
    } else {
        1
    };
    let d: int = if m.backlight.state == State::Active {
        r
    } else {
        r + 1
    };
    assert(steps[d] == Step::DrawIcon);
    assert(steps[d + 1] == Step::DrawName);
    assert(steps[d + 2] == Step::DrawVolume(then.volume));
    assert(steps[d + 3] == Step::DrawLabel(mute_label(then.muted)));
    assert(steps[d + 4] == Step::Flush);
}

/// An app that the host selects is selected and, where it is listed, shown as
/// the list has it, without the icon of the app before.
pub proof fn law_selection_is_taken_over(m: DeviceModel, id: u32, i: int)
    ensures
        ({
            let msg = HostMessage::SetSelectedApp(id);
            let then = m.heard(msg);
            &&& then.selected == Some(id)
            &&& then.icon.len() == 0
            &&& first_at(m.apps, id, i) ==> then.idx == i && then.volume == m.apps[i].volume
                && then.muted == m.apps[i].muted
            &&& (forall|j: int| 0 <= j < m.apps.len() ==> (#[trigger] m.apps[j]).id != id) ==> {
                &&& then.idx == 0
                &&& then.volume == m.volume
                &&& then.muted == m.muted
            }
            &&& painted(m.heard_steps(msg), then)
        }),
{
    lemma_position_from(m.apps, id, 0);
    if first_at(m.apps, id, i) {
        lemma_first_at(m.apps, id, i);
    }
    lemma_painted(m, HostMessage::SetSelectedApp(id));
}

/// The name shown is that of the first listed app with the selected id.
pub proof fn law_name_of_selected(m: DeviceModel, i: int)
    requires
        m.selected is Some,
        first_at(m.apps, m.selected->0, i),
    ensures
        m.name() == m.apps[i].name,
{
    lemma_first_at(m.apps, m.selected->0, i);
}

/// Without a selected app that is listed, the name says that there is none.
pub proof fn law_name_of_none(m: DeviceModel)
    requires
        m.selected is None || forall|i: int|
            0 <= i < m.apps.len() ==> (#[trigger] m.apps[i]).id != m.selected->0,
    ensures
        m.name() == "(no app)"@,
{
    if m.selected is Some {
        lemma_position_from(m.apps, m.selected->0, 0);
    }
}

/// The icon of the selected app is kept as it comes and painted; those of other
/// apps are neither.
pub proof fn law_icon_is_shown(m: DeviceModel, app_id: u32, pixels: Seq<u8>)
    ensures
        ({
            let msg = HostMessage::SetAppIcon { app_id, pixels };
            let steps = m.heard_steps(msg);
            &&& m.selected == Some(app_id) ==> {
                &&& m.heard(msg).icon == pixels
                &&& steps.contains(Step::DrawIcon)
                &&& steps.contains(Step::Flush)
            }
            &&& m.selected != Some(app_id) ==> {
                &&& m.heard(msg).icon == m.icon
                &&& !steps.contains(Step::DrawIcon)
            }
        }),
{
    let msg = HostMessage::SetAppIcon { app_id, pixels };
    let r: int = if m.ready_sent {
        0
    } else {
        1
    };
    if m.selected == Some(app_id) {
        assert(m.heard_steps(msg)[r] == Step::DrawIcon);
        assert(m.heard_steps(msg)[r + 1] == Step::Flush);
    }
}

/// A volume or a mute state that the host sets for the selected app is painted;
/// for any other app the screen stays as it is. A volume needs no more of the
/// screen than the rows that its painting brings to the display.
pub proof fn law_changes_are_shown(m: DeviceModel, app_id: u32, level: u8, muted: bool)
    ensures
        ({
            let louder = m.heard_steps(HostMessage::SetVolume { app_id, level });
            let muting = m.heard_steps(HostMessage::SetMute { app_id, muted });
            let label = if muted {
                Label::Muted
            } else {
                Label::Blank
            };
            &&& m.selected == Some(app_id) ==> {
                &&& louder.contains(Step::DrawVolumeDelta { prev: m.volume, new: level })
                &&& !louder.contains(Step::Flush)
                &&& muting.contains(Step::DrawLabel(label))
                &&& muting.contains(Step::Haptic(Effect::SharpClick))
                &&& muting.contains(Step::Flush)
            }
            &&& m.selected != Some(app_id) && !m.needs_flush ==> {
                &&& forall|i: int|
                    0 <= i < louder.len() ==> (#[trigger] louder[i] is Send || louder[i] is SetDuty)
                &&& forall|i: int|
                    0 <= i < muting.len() ==> (#[trigger] muting[i] is Send || muting[i] is SetDuty)
            }
        }),
{
    let r: int = if m.ready_sent {
        0
    } else {
        1
    };
    let d: int = if m.backlight.state == State::Active {
        r
    } else {
        r + 1
    };
    if m.selected == Some(app_id) {
        let louder = m.heard_steps(HostMessage::SetVolume { app_id, level });
        let muting = m.heard_steps(HostMessage::SetMute { app_id, muted });
        assert(louder[d] == Step::DrawVolumeDelta { prev: m.volume, new: level });
        assert(muting[d] == Step::Haptic(Effect::SharpClick));
        assert(muting[d + 1] == Step::DrawLabel(mute_label(muted)));
        assert(muting[d + 2] == Step::Flush);
    }
}

/// A network that the host names is stored under exactly that name and password.
pub proof fn law_network_is_stored(m: DeviceModel, ssid: Seq<char>, password: Seq<char>)
    ensures
        m.heard_steps(HostMessage::SetWifiConfig { ssid, password }).contains(
            Step::StoreWifi { ssid, password },
        ),
{
    let i: int = if m.ready_sent {
        0
    } else {
        1
    };
    assert(m.heard_steps(HostMessage::SetWifiConfig { ssid, password })[i]
        == Step::StoreWifi { ssid, password });
}

/// An iteration ends with the screen up to date: what still has to be flushed
/// is flushed, once and after all drawing, with the statistics on top where they
/// are shown. Idling dims or switches off last.
pub proof fn law_settling_flushes(m: DeviceModel)
    ensures
        ({
            let steps = m.settle_steps();
            let then = m.settled();
            let gone = m.apps.len() > 0 && backlight::ticks_between(m.last_host, m.tick) > 3000;
            let due = m.needs_flush || gone || (m.debug && m.tick % 200 == 0);
            &&& !then.needs_flush
            &&& then.tick == m.tick
            &&& then.standalone == m.standalone
            &&& then.debug == m.debug
            &&& then.held == m.held
            &&& then.last_count == m.last_count
            &&& steps.contains(Step::Flush) == due
            &&& steps.contains(Step::DrawStats(m.tick)) == (due && m.debug)
            &&& steps.contains(Step::DrawNotConnected) == gone
            &&& gone ==> steps.contains(Step::DrawVolume(m.standalone))
            &&& forall|i: int, j: int|
                0 <= i < j < steps.len() && (#[trigger] steps[i]) is Flush ==> (
                #[trigger] steps[j]) is SetDuty
            &&& then.backlight.state != m.backlight.state ==> steps.last() == Step::SetDuty(
                match then.backlight.state {
                    State::Active => m.backlight.active_pct,
                    State::Dim => if m.backlight.active_pct >= 24 {
                        m.backlight.active_pct / 4
                    } else {
                        5
                    },
                    State::Off => 0,
                },
            )
            &&& then.backlight.state == m.backlight.state ==> forall|i: int|
                0 <= i < steps.len() ==> !((#[trigger] steps[i]) is SetDuty)
        }),
{
    let steps = m.settle_steps();
    let l: int = if m.lost() {
        2
    } else {
        0
    };
    if m.lost() {
        assert(steps[0] == Step::DrawNotConnected);
        assert(steps[1] == Step::DrawVolume(m.standalone));
    }
    if m.flushes() {
        if m.debug {
            assert(steps[l] == Step::DrawStats(m.tick));
            assert(steps[l + 1] == Step::Flush);
        } else {
            assert(steps[l] == Step::Flush);
        }
    }
}

/// A device starts lit, at half the bar, with neither a companion nor anything of
/// one, and stays lit for half a minute; its first message makes it say that it
/// is ready.
pub proof fn law_boot(later: u32, msg: HostMessage)
    ensures
        booted().apps.len() == 0,
        booted().selected is None,
        booted().icon.len() == 0,
        booted().standalone == 50,
        !booted().debug,
        !booted().dark(),
        booted().held == 0,
        booted().last_count == 0,
        booted().backlight.active_pct == 100,
        (DeviceModel { tick: later, ..booted() }).settled().backlight.state == (if later >= 30
            * 333 {
            State::Dim
        } else {
            State::Active
        }),
        booted().heard_steps(msg).len() > 0,
        is_ready(booted().heard_steps(msg)[0]),
{
}

/// A label says what it stands for: a muted app is labelled so, and one that is
/// not muted has no text.
pub proof fn law_labels(muted: bool)
    ensures
        muted ==> label_text(mute_label(muted)) == "MUTED"@,
        !muted ==> label_text(mute_label(muted)).len() == 0,
        label_text(Label::LongPress) == "LONG PRESS"@,
{
    reveal_strlit("");
}

/// What each part of an iteration leaves alone, whatever happens in it.
pub proof fn law_what_stays(
    m: DeviceModel,
    count: i32,
    gesture: Option<Gesture>,
    finger_down: bool,
    msg: HostMessage,
)
    ensures
        ({
            let t = m.turned(count);
            t == (DeviceModel {
                tick: t.tick,
                last_count: count,
                standalone: t.standalone,
                backlight: t.backlight,
                ..m
            })
        }),
        ({
            let h = m.holding(true);
            &&& h == (DeviceModel {
                held: h.held,
                debug: h.debug,
                needs_flush: h.needs_flush,
                waking: m.waking || m.backlight.state == State::Off,
                backlight: h.backlight,
                ..m
            })
            &&& m.holding(false) == (DeviceModel { held: 0, ..m })
        }),
        ({
            let g = m.touched(gesture, finger_down);
            &&& g == (DeviceModel {
                backlight: g.backlight,
                waking: m.waking && finger_down,
                idx: g.idx,
                selected: g.selected,
                volume: g.volume,
                muted: g.muted,
                icon: g.icon,
                needs_flush: g.needs_flush,
                ..m
            })
            &&& gesture is None ==> g == (DeviceModel { waking: m.waking && finger_down, ..m })
        }),
        ({
            let r = m.heard(msg);
            r == (DeviceModel {
                backlight: r.backlight,
                apps: r.apps,
                selected: r.selected,
                idx: r.idx,
                icon: r.icon,
                volume: r.volume,
                muted: r.muted,
                last_host: m.tick,
                ready_sent: true,
                needs_flush: false,
                ..m
            })
        }),
        ({
            let s = m.settled();
            s == (DeviceModel {
                apps: s.apps,
                selected: s.selected,
                icon: s.icon,
                needs_flush: false,
                backlight: s.backlight,
                ..m
            })
        }),
{
}

/// What a message of the host may lead to: the motor answers a change of the mute
/// state alone, only a network's name is stored, and no message clears the
/// screen or paints what is not about the apps.
pub proof fn law_host_steps_are_about_it(m: DeviceModel, msg: HostMessage, i: int)
    requires
        0 <= i < m.heard_steps(msg).len(),
    ensures
        match m.heard_steps(msg)[i] {
            Step::Haptic(effect) => msg is SetMute && effect == Effect::SharpClick,
            Step::StoreWifi { .. } => msg is SetWifiConfig,
            Step::DrawIcon => msg is SetAppList || msg is SetSelectedApp || msg is SetAppIcon,
            Step::DrawName => msg is SetAppList || msg is SetSelectedApp,
            Step::DrawVolume(v) => (msg is SetAppList || msg is SetSelectedApp) && v == m.heard(
                msg,
            ).volume,
            Step::DrawVolumeDelta { prev, new } => msg is SetVolume && prev == m.volume && new
                == m.heard(msg).volume,
            Step::DrawLabel(label) => (msg is SetAppList || msg is SetSelectedApp || msg is SetMute)
                && label == (if m.heard(msg).muted {
                Label::Muted
            } else {
                Label::Blank
            }),
            Step::SetDuty(pct) => pct == m.heard(msg).backlight.active_pct,
            Step::Flush => true,
            Step::Send(_) => true,
            Step::ClearScreen | Step::DrawNotConnected | Step::DrawStats(_) => false,
        },
{
}

/// What still had to be flushed is flushed for the next message, but for a change
/// of the shown volume, which brings its rows to the display itself; a message
/// that paints nothing flushes nothing by itself.
pub proof fn law_host_flushes(m: DeviceModel, msg: HostMessage)
    ensures
        m.needs_flush && !(msg is SetVolume) ==> m.heard_steps(msg).contains(Step::Flush),
        !m.needs_flush && (msg is Ping || msg is Echo || msg is SetWifiConfig || msg is SetBacklight)
            ==> !m.heard_steps(msg).contains(Step::Flush),
{
    let steps = m.heard_steps(msg);
    if m.needs_flush && !(msg is SetVolume) {
        let at: int = if acked(msg) {
            steps.len() - 2
        } else {
            steps.len() - 1
        };
        assert(steps[at] == Step::Flush);
    }
}

} // verus!
