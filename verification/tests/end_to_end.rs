//! A device and a companion that talk to each other.

use rusty_esp_knob::audio::{AudioSession, Volume};
use rusty_esp_knob::device::{Action, Device, Label};
use rusty_esp_knob::messages::{DeviceToHost, HostToDevice};
use rusty_esp_knob::touch::{Gesture, TouchEvent};
use rusty_esp_knob::worker::{opening_messages, prepare, Request, Session};

fn session(pid: u32, name: &str, level: u8, muted: bool) -> AudioSession {
    AudioSession {
        pid,
        process_name: name.to_string(),
        exe_path: String::new(),
        volume: Volume { bits: (level as f32 / 100.0).to_bits(), level },
        muted,
    }
}

fn sent(actions: &[Action]) -> Vec<&DeviceToHost> {
    actions
        .iter()
        .filter_map(|a| match a {
            Action::Send(m) => Some(m),
            _ => None,
        })
        .collect()
}

/// A device that has been told of two apps, and the companion's session.
fn connected() -> (Device, Session) {
    let list = vec![session(3, "music.exe", 30, false), session(4, "game.exe", 60, true)];
    let mut p = prepare(&list).unwrap_or_else(|_| panic!("sessions"));
    p.icons.insert(3, vec![3; 8192]);
    p.icons.insert(4, vec![4; 8192]);
    let (mut d, _) = Device::boot();
    d.turn(0);
    d.host(HostToDevice::Ping);
    for msg in opening_messages(&p.apps, &p.icons) {
        let actions = d.host(msg);
        assert_eq!(sent(&actions), vec![&DeviceToHost::Ack]);
    }
    (d, Session::start(p, 0))
}

#[test]
fn opening_shows_the_first_app() {
    let (d, _) = connected();
    assert_eq!(d.app_name(), "music.exe");
    assert_eq!(d.icon(), Some(&vec![3u8; 8192]));
}

#[test]
fn knob_changes_the_volume_on_both_sides() {
    let (mut d, mut s) = connected();
    let actions = d.turn(5);
    let msgs = sent(&actions);
    assert_eq!(msgs, vec![&DeviceToHost::VolumeDelta { app_id: 3, delta: 5 }]);
    let Request::ChangeVolume { app_id, delta, from } = s.message(msgs[0]) else {
        panic!("no change of volume")
    };
    assert_eq!((app_id, delta, from.level), (3, 5, 30));
    let to = Volume { bits: 0.4f32.to_bits(), level: 40 };
    let msg = s.volume_changed(app_id, to);
    assert_eq!(
        d.host(msg),
        vec![
            Action::DrawVolumeDelta { prev: 30, new: 40 },
            Action::Send(DeviceToHost::Ack),
        ]
    );
}

#[test]
fn tap_mutes_on_both_sides() {
    let (mut d, mut s) = connected();
    let tap = TouchEvent { x: 0, y: 0, gesture: Gesture::SingleTap };
    let (actions, _) = d.gesture(Some(tap), false);
    let msgs = sent(&actions);
    assert_eq!(msgs[0], &DeviceToHost::MuteToggle { app_id: 3 });
    assert_eq!(s.message(msgs[0]), Request::ChangeMute { app_id: 3, muted: true });
    let msg = s.mute_changed(3, true);
    assert!(d.host(msg).contains(&Action::DrawLabel(Label::Muted)));
}

#[test]
fn swipe_brings_the_next_app_with_its_icon() {
    let (mut d, mut s) = connected();
    let swipe = TouchEvent { x: 0, y: 0, gesture: Gesture::SwipeRight };
    let (actions, _) = d.gesture(Some(swipe), false);
    let msgs = sent(&actions);
    assert_eq!(msgs[0], &DeviceToHost::AppSelected(4));
    assert!(d.icon().is_none());
    let Request::Push(answer) = s.message(msgs[0]) else { panic!("no answer") };
    for msg in answer {
        d.host(msg);
    }
    assert_eq!(d.app_name(), "game.exe");
    assert_eq!(d.icon(), Some(&vec![4u8; 8192]));
}
