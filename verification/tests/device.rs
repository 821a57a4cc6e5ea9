//! The device's main loop and its parts.

use rusty_esp_knob::backlight::{secs_to_ticks, Backlight, State};
use rusty_esp_knob::device::{Action, Device, Label, HOLD_TICKS};
use rusty_esp_knob::encoder::Encoder;
use rusty_esp_knob::haptic::{modified, Access, Drv2605, Effect};
use rusty_esp_knob::messages::{AppInfo, DeviceToHost, GestureKind, HostToDevice};
use rusty_esp_knob::touch::{to_wire_gesture, Cst816, Gesture, TouchEvent};

fn app(id: u32, name: &str, volume: u8, muted: bool) -> AppInfo {
    AppInfo { id, name: name.to_string(), volume, muted }
}

fn two_apps() -> Vec<AppInfo> {
    vec![app(10, "one.exe", 40, false), app(20, "two.exe", 80, true)]
}

fn event(gesture: Gesture) -> Option<TouchEvent> {
    Some(TouchEvent { x: 1, y: 2, gesture })
}

fn connected() -> Device {
    let (mut d, _) = Device::boot();
    d.turn(0);
    d.host(HostToDevice::SetAppList(two_apps()));
    d
}

#[test]
fn boots_not_connected() {
    let (d, actions) = Device::boot();
    assert_eq!(
        actions,
        vec![Action::DrawNotConnected, Action::DrawVolume(50), Action::Flush]
    );
    assert_eq!(d.app_name(), "(no app)");
    assert!(d.icon().is_none());
}

#[test]
fn ready_once_then_pong() {
    let (mut d, _) = Device::boot();
    assert_eq!(
        d.host(HostToDevice::Ping),
        vec![
            Action::Send(DeviceToHost::Ready { version: 1 }),
            Action::Send(DeviceToHost::Pong),
        ]
    );
    assert_eq!(d.host(HostToDevice::Ping), vec![Action::Send(DeviceToHost::Pong)]);
}

#[test]
fn echo_gives_the_payload_back() {
    let (mut d, _) = Device::boot();
    d.host(HostToDevice::Ping);
    assert_eq!(
        d.host(HostToDevice::Echo(vec![1, 0, 2])),
        vec![Action::Send(DeviceToHost::Echo(vec![1, 0, 2]))]
    );
}

#[test]
fn list_is_shown_then_acknowledged() {
    let (mut d, _) = Device::boot();
    d.host(HostToDevice::Ping);
    assert_eq!(
        d.host(HostToDevice::SetAppList(two_apps())),
        vec![
            Action::DrawIcon,
            Action::DrawName,
            Action::DrawVolume(40),
            Action::DrawLabel(Label::Blank),
            Action::Flush,
            Action::Send(DeviceToHost::Ack),
        ]
    );
    assert_eq!(d.app_name(), "one.exe");
}

#[test]
fn turning_without_an_app_moves_the_bar() {
    let (mut d, _) = Device::boot();
    assert_eq!(d.turn(0), vec![]);
    assert_eq!(d.turn(3), vec![Action::DrawVolumeDelta { prev: 50, new: 53 }]);
    assert_eq!(d.turn(-1000), vec![Action::DrawVolumeDelta { prev: 53, new: 0 }]);
    assert_eq!(d.turn(1_000_000), vec![Action::DrawVolumeDelta { prev: 0, new: 100 }]);
}

#[test]
fn turning_with_an_app_goes_to_the_host() {
    let mut d = connected();
    assert_eq!(
        d.turn(-2),
        vec![Action::Send(DeviceToHost::VolumeDelta { app_id: 10, delta: -2 })]
    );
    // Large movements are cut to what the message can hold.
    assert_eq!(
        d.turn(100_000),
        vec![Action::Send(DeviceToHost::VolumeDelta { app_id: 10, delta: 32767 })]
    );
    assert_eq!(
        d.turn(-100_000),
        vec![Action::Send(DeviceToHost::VolumeDelta { app_id: 10, delta: -32768 })]
    );
}

#[test]
fn turning_over_the_end_of_the_counter() {
    let mut d = connected();
    d.turn(i32::MAX);
    assert_eq!(
        d.turn(i32::MIN + 1),
        vec![Action::Send(DeviceToHost::VolumeDelta { app_id: 10, delta: 2 })]
    );
}

#[test]
fn tap_toggles_mute_and_is_reported() {
    let mut d = connected();
    let (actions, skip) = d.gesture(event(Gesture::SingleTap), false);
    assert!(!skip);
    assert_eq!(
        actions,
        vec![
            Action::Haptic(Effect::SharpClick),
            Action::Send(DeviceToHost::MuteToggle { app_id: 10 }),
            Action::Send(DeviceToHost::Gesture(GestureKind::SingleTap)),
        ]
    );
}

#[test]
fn tap_without_an_app_is_only_reported() {
    let (mut d, _) = Device::boot();
    let (actions, _) = d.gesture(event(Gesture::SingleTap), false);
    assert_eq!(actions, vec![Action::Send(DeviceToHost::Gesture(GestureKind::SingleTap))]);
}

#[test]
fn long_press_shows_a_label() {
    let mut d = connected();
    let (actions, _) = d.gesture(event(Gesture::LongPress), false);
    assert_eq!(
        actions,
        vec![
            Action::Haptic(Effect::StrongClick),
            Action::DrawLabel(Label::LongPress),
            Action::Send(DeviceToHost::Gesture(GestureKind::LongPress)),
        ]
    );
    assert_eq!(d.settle(), vec![Action::Flush]);
    assert_eq!(Label::LongPress.text(), "LONG PRESS");
    assert_eq!(Label::Muted.text(), "MUTED");
    assert_eq!(Label::Blank.text(), "");
}

#[test]
fn swipes_go_round_and_back() {
    let mut d = connected();
    let (actions, _) = d.gesture(event(Gesture::SwipeRight), false);
    assert_eq!(
        actions,
        vec![
            Action::Haptic(Effect::SharpClick),
            Action::DrawIcon,
            Action::DrawName,
            Action::DrawVolume(80),
            Action::DrawLabel(Label::Muted),
            Action::Send(DeviceToHost::AppSelected(20)),
            Action::Send(DeviceToHost::Gesture(GestureKind::SwipeRight)),
        ]
    );
    assert_eq!(d.app_name(), "two.exe");
    d.gesture(event(Gesture::SwipeRight), false);
    assert_eq!(d.app_name(), "one.exe");
    d.gesture(event(Gesture::SwipeLeft), false);
    assert_eq!(d.app_name(), "two.exe");
    d.gesture(event(Gesture::SwipeLeft), false);
    assert_eq!(d.app_name(), "one.exe");
}

#[test]
fn swipe_without_apps_is_only_reported() {
    let (mut d, _) = Device::boot();
    let (actions, _) = d.gesture(event(Gesture::SwipeLeft), false);
    assert_eq!(actions, vec![Action::Send(DeviceToHost::Gesture(GestureKind::SwipeLeft))]);
}

#[test]
fn double_tap_has_no_wire_form() {
    let mut d = connected();
    let (actions, _) = d.gesture(event(Gesture::DoubleTap), false);
    assert_eq!(actions, vec![]);
    assert_eq!(to_wire_gesture(Gesture::NoGesture), None);
}

#[test]
fn volume_of_the_selected_app_is_flushed_in_rows() {
    let mut d = connected();
    assert_eq!(
        d.host(HostToDevice::SetVolume { app_id: 10, level: 70 }),
        vec![
            Action::DrawVolumeDelta { prev: 40, new: 70 },
            Action::Send(DeviceToHost::Ack),
        ]
    );
}

#[test]
fn volume_of_another_app_is_kept_for_later() {
    let mut d = connected();
    assert_eq!(
        d.host(HostToDevice::SetVolume { app_id: 20, level: 5 }),
        vec![Action::Send(DeviceToHost::Ack)]
    );
    let (actions, _) = d.gesture(event(Gesture::SwipeRight), false);
    assert!(actions.contains(&Action::DrawVolume(5)));
}

#[test]
fn mute_is_shown_with_a_click() {
    let mut d = connected();
    assert_eq!(
        d.host(HostToDevice::SetMute { app_id: 10, muted: true }),
        vec![
            Action::Haptic(Effect::SharpClick),
            Action::DrawLabel(Label::Muted),
            Action::Flush,
            Action::Send(DeviceToHost::Ack),
        ]
    );
    assert_eq!(
        d.host(HostToDevice::SetMute { app_id: 20, muted: false }),
        vec![Action::Send(DeviceToHost::Ack)]
    );
}

#[test]
fn icon_is_taken_for_the_selected_app_only() {
    let mut d = connected();
    assert_eq!(
        d.host(HostToDevice::SetAppIcon { app_id: 20, pixels: vec![1; 8192] }),
        vec![Action::Send(DeviceToHost::Ack)]
    );
    assert!(d.icon().is_none());
    assert_eq!(
        d.host(HostToDevice::SetAppIcon { app_id: 10, pixels: vec![2; 8192] }),
        vec![Action::DrawIcon, Action::Flush, Action::Send(DeviceToHost::Ack)]
    );
    assert_eq!(d.icon(), Some(&vec![2u8; 8192]));
    // An incomplete picture is not shown.
    d.host(HostToDevice::SetAppIcon { app_id: 10, pixels: vec![2; 100] });
    assert!(d.icon().is_none());
}

#[test]
fn selecting_an_unlisted_app() {
    let mut d = connected();
    d.host(HostToDevice::SetSelectedApp(99));
    assert_eq!(d.app_name(), "(no app)");
    // The carousel then starts at the front.
    d.gesture(event(Gesture::SwipeRight), false);
    assert_eq!(d.app_name(), "two.exe");
}

#[test]
fn selection_survives_a_new_list() {
    let mut d = connected();
    d.host(HostToDevice::SetSelectedApp(20));
    let mut list = two_apps();
    list.insert(0, app(5, "zero.exe", 1, false));
    d.host(HostToDevice::SetAppList(list));
    assert_eq!(d.app_name(), "two.exe");
    d.gesture(event(Gesture::SwipeRight), false);
    assert_eq!(d.app_name(), "zero.exe");
}

#[test]
fn silence_disconnects() {
    let mut d = connected();
    for _ in 0..3000 {
        d.turn(0);
        assert_eq!(d.settle(), vec![]);
    }
    d.turn(0);
    assert_eq!(
        d.settle(),
        vec![Action::DrawNotConnected, Action::DrawVolume(50), Action::Flush]
    );
    assert_eq!(d.app_name(), "(no app)");
    d.turn(0);
    assert_eq!(d.settle(), vec![]);
}

#[test]
fn pings_keep_the_connection() {
    let mut d = connected();
    for i in 0..7000 {
        d.turn(0);
        if i % 666 == 0 {
            d.host(HostToDevice::Ping);
        }
        d.settle();
    }
    assert_eq!(d.app_name(), "one.exe");
}

#[test]
fn holding_toggles_the_overlay() {
    let mut d = connected();
    for _ in 0..HOLD_TICKS - 1 {
        assert_eq!(d.hold(true), vec![]);
    }
    assert_eq!(
        d.hold(true),
        vec![
            Action::ClearScreen,
            Action::DrawIcon,
            Action::DrawName,
            Action::DrawVolume(40),
            Action::DrawLabel(Label::Blank),
        ]
    );
    assert_eq!(d.settle(), vec![Action::DrawStats(1), Action::Flush]);
    // The hold has to be released before it counts again.
    assert_eq!(d.hold(true), vec![]);
    assert_eq!(d.hold(false), vec![]);
    for _ in 2..200 {
        d.turn(0);
        assert_eq!(d.settle(), vec![]);
    }
    d.turn(0);
    assert_eq!(d.settle(), vec![Action::DrawStats(200), Action::Flush]);
}

#[test]
fn dark_screen_is_only_woken() {
    let mut d = connected();
    // Dark after 120 idle seconds; pings keep the connection.
    let mut dark = false;
    for _ in 0..200 {
        for _ in 0..333 {
            d.turn(0);
            if d.settle().contains(&Action::SetDuty(0)) {
                dark = true;
            }
        }
        d.host(HostToDevice::Ping);
        if dark {
            break;
        }
    }
    assert!(dark);
    d.turn(0);
    assert_eq!(d.hold(true), vec![Action::SetDuty(100)]);
    let (actions, skip) = d.gesture(None, true);
    assert_eq!((actions, skip), (vec![], false));
    // The tap that woke the screen comes when the finger is lifted.
    d.turn(0);
    assert_eq!(d.hold(false), vec![]);
    let (actions, skip) = d.gesture(event(Gesture::SingleTap), false);
    assert_eq!((actions, skip), (vec![], true));
    // The next one counts.
    let (actions, skip) = d.gesture(event(Gesture::SingleTap), false);
    assert!(!skip);
    assert!(actions.contains(&Action::Send(DeviceToHost::MuteToggle { app_id: 10 })));
}

#[test]
fn backlight_settings_come_from_the_host() {
    let mut d = connected();
    assert_eq!(
        d.host(HostToDevice::SetBacklight {
            active_pct: 40,
            dim_after_secs: 10,
            off_after_secs: 0
        }),
        vec![Action::SetDuty(40), Action::Send(DeviceToHost::Ack)]
    );
}

#[test]
fn wifi_settings_are_stored() {
    let mut d = connected();
    let ssid = heapless::String::<32>::try_from("home").unwrap();
    let password = heapless::String::<64>::try_from("SECRET-REDACTED").unwrap();
    assert_eq!(
        d.host(HostToDevice::SetWifiConfig { ssid: ssid.clone(), password: password.clone() }),
        vec![
            Action::StoreWifi { ssid, password },
            Action::Send(DeviceToHost::Ack),
        ]
    );
}

#[test]
fn backlight_dims_then_goes_off() {
    let mut b = Backlight::new();
    assert_eq!(secs_to_ticks(30), 9990);
    assert_eq!(b.tick(9989), None);
    assert_eq!(b.tick(9990), Some(25));
    assert_eq!(b.state(), State::Dim);
    assert_eq!(b.tick(9990 + 29969), None);
    assert_eq!(b.tick(9990 + 29970), Some(0));
    assert_eq!(b.state(), State::Off);
    assert_eq!(b.wake_from_off(40_000), (true, Some(100)));
    assert_eq!(b.wake_from_off(40_001), (false, None));
}

#[test]
fn backlight_zero_disables() {
    let mut b = Backlight::new();
    b.set_timeouts(0, 0);
    assert_eq!(b.tick(u32::MAX), None);
    assert_eq!(b.state(), State::Active);
    b.set_timeouts(1, 0);
    assert_eq!(b.tick(333), Some(25));
    assert_eq!(b.tick(u32::MAX), None);
    assert_eq!(b.state(), State::Dim);
}

#[test]
fn backlight_brightness_is_held_in_range() {
    let mut b = Backlight::new();
    assert_eq!(b.set_active_pct(0), Some(1));
    assert_eq!(b.set_active_pct(200), Some(100));
    assert_eq!(b.set_active_pct(8), Some(8));
    // Dim is a quarter, but no less than five.
    assert_eq!(b.tick(9990), Some(5));
    assert_eq!(b.set_active_pct(60), None);
    assert_eq!(b.notify_activity(10_000), Some(60));
}

#[test]
fn backlight_idles_over_the_end_of_the_counter() {
    let mut b = Backlight::new();
    b.notify_activity(u32::MAX - 100);
    assert_eq!(b.tick(9888), None);
    assert_eq!(b.tick(9889), Some(25));
}

#[test]
fn encoder_counts_and_guards() {
    let mut e = Encoder::new();
    e.poll();
    e.on_interrupt(7_999, true, false);
    assert_eq!(e.get(), 0);
    e.on_interrupt(8_000, true, false);
    assert_eq!(e.get(), 1);
    // Bounce on the same channel, and a pulse on the other one.
    e.on_interrupt(9_000, true, false);
    e.on_interrupt(15_999, false, true);
    assert_eq!(e.get(), 1);
    e.on_interrupt(16_000, false, true);
    assert_eq!(e.get(), 0);
    // Both at once: one counts.
    e.on_interrupt(30_000, true, true);
    assert_eq!(e.get(), 1);
    e.on_interrupt(40_000, false, false);
    assert_eq!(e.get(), 1);
}

#[test]
fn encoder_guard_over_the_end_of_the_timer() {
    let mut e = Encoder::new();
    e.on_interrupt(u32::MAX - 999, true, false);
    e.on_interrupt(6_999, true, false);
    assert_eq!(e.get(), 1);
    e.on_interrupt(7_000, true, false);
    assert_eq!(e.get(), 2);
}

#[test]
fn touch_registers() {
    let mut t = Cst816::new();
    assert!(!t.needs_read(false));
    assert!(t.needs_read(true));
    assert!(t.read(None).is_none());
    // A finger, no gesture yet.
    assert!(t.read(Some([0, 1, 0, 0, 0, 0])).is_none());
    assert!(t.is_finger_down());
    assert!(t.needs_read(false));
    let e = t.read(Some([0x05, 0, 0x81, 0x2C, 0x40, 0x64])).unwrap();
    assert_eq!((e.x, e.y, e.gesture), (300, 100, Gesture::SingleTap));
    assert!(!t.is_finger_down());
    // Reported once.
    assert!(t.read(Some([0x05, 0, 0x81, 0x2C, 0x40, 0x64])).is_none());
    // Busy: nothing is learnt.
    assert!(t.read(Some([0x01, 0xFF, 0, 0, 0, 0])).is_none());
    assert!(t.read(Some([0x05, 0, 0, 0, 0, 0])).is_none());
    // Idle, then again.
    assert!(t.read(Some([0, 0, 0, 0, 0, 0])).is_none());
    assert!(t.read(Some([0x05, 0, 0, 0, 0, 0])).is_some());
}

#[test]
fn gesture_numbers() {
    let all = [
        (0x00, Gesture::NoGesture),
        (0x01, Gesture::SwipeUp),
        (0x02, Gesture::SwipeDown),
        (0x03, Gesture::SwipeLeft),
        (0x04, Gesture::SwipeRight),
        (0x05, Gesture::SingleTap),
        (0x0B, Gesture::DoubleTap),
        (0x0C, Gesture::LongPress),
        (0x77, Gesture::NoGesture),
    ];
    for (id, gesture) in all {
        assert_eq!(Gesture::from_id(id), gesture);
    }
}

#[test]
fn haptic_traffic() {
    assert_eq!(
        Drv2605::play(Effect::Tick),
        vec![Access::Write(0x04, 27), Access::Write(0x05, 0), Access::Write(0x0C, 1)]
    );
    let ids: Vec<u8> = [
        Effect::StrongClick,
        Effect::SharpClick,
        Effect::SoftBump,
        Effect::ShortBuzz,
        Effect::MediumClick,
        Effect::Tick,
    ]
    .iter()
    .map(|e| e.id())
    .collect();
    assert_eq!(ids, vec![1, 4, 7, 47, 10, 27]);
    let init = Drv2605::init();
    assert_eq!(init.len(), 7);
    assert_eq!(init[0], Access::Probe(0x00));
    assert_eq!(init[3], Access::Modify { reg: 0x1A, keep: 0x7F, set: 0x00 });
    assert_eq!(modified(0xB6, 0x7F, 0x00), 0x36);
    assert_eq!(modified(0x80, 0xFF, 0x20), 0xA0);
}
