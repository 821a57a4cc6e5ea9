//! The companion: sessions, settings, icons and tray.

use std::collections::HashMap;

use rusty_esp_knob::audio::{
    file_name, find_session, process_name, AudioSession, Volume, HALF_BITS,
};
use rusty_esp_knob::config::{
    default_backlight_pct, default_dim_after_secs, default_off_after_secs, default_sensitivity,
    find_device_port, load, remember_port, resolve_port, Config, PortInfo,
};
use rusty_esp_knob::icons::{
    bgra_to_rgb565_be, extract_rgb565, path_buffer, ppm, ppm_name,
};
use rusty_esp_knob::messages::{AppInfo, DeviceToHost, HostToDevice};
use rusty_esp_knob::tray_app::{
    act, autostart_command, build_menu, make_icon, registry_bytes, tooltip, Choice, Click, Effect,
    Entry, MenuIds,
};
use rusty_esp_knob::worker::{
    ack_next, address, drain_next, icon_sources, link_step, opening_messages, opening_steps,
    prepare, provision_command, provision_next, provision_steps, provision_timeout, pushed_apps,
    ready_next, serve_next, wait_on, Awaited, BacklightShared, Frame, Link, LinkEvent, LinkStep,
    Next, Provisioning, Request, Session, Turn, WorkerCommand, WorkerStatus,
};

fn volume(v: f32) -> Volume {
    Volume { bits: v.to_bits(), level: (v * 100.0).round().clamp(0.0, 100.0) as u8 }
}

fn session(pid: u32, name: &str, path: &str, v: f32, muted: bool) -> AudioSession {
    AudioSession {
        pid,
        process_name: name.to_string(),
        exe_path: path.to_string(),
        volume: volume(v),
        muted,
    }
}

fn sessions() -> Vec<AudioSession> {
    vec![
        session(0, "", "", 1.0, false),
        session(7, "a.exe", "C:\\a.exe", 0.25, false),
        session(9, "b.exe", "", 0.8, true),
        session(7, "a.exe", "C:\\a.exe", 0.5, true),
    ]
}

fn app(id: u32, name: &str, volume: u8, muted: bool) -> AppInfo {
    AppInfo { id, name: name.to_string(), volume, muted }
}

fn ip(s: &str) -> heapless::String<16> {
    heapless::String::try_from(s).unwrap()
}

fn started() -> Session {
    let mut p = prepare(&sessions()).unwrap_or_else(|_| panic!("sessions"));
    p.icons.insert(7, vec![1, 2, 3]);
    Session::start(p, 1_000)
}

#[test]
fn first_session_of_each_process_is_listed() {
    let p = prepare(&sessions()).unwrap_or_else(|_| panic!("sessions"));
    assert_eq!(p.apps, vec![app(7, "a.exe", 25, false), app(9, "b.exe", 80, true)]);
    assert_eq!(p.volumes[&7], volume(0.25));
    assert!(p.mutes[&9]);
    assert!(p.icons.is_empty());
    let again = p.clone();
    assert_eq!(again.apps, p.apps);
    assert_eq!(again.volumes, p.volumes);
}

#[test]
fn nothing_to_serve() {
    let system = vec![session(0, "", "", 1.0, false)];
    for list in [vec![], system] {
        assert!(matches!(
            prepare(&list),
            Err(WorkerStatus::Error(e)) if e == "no audio sessions"
        ));
    }
}

#[test]
fn icons_come_from_known_executables() {
    assert_eq!(icon_sources(&sessions()), vec![(7, "C:\\a.exe".to_string())]);
}

#[test]
fn pushing_once_lists_every_executable() {
    assert_eq!(
        pushed_apps(&sessions()),
        vec![app(7, "a.exe", 25, false), app(7, "a.exe", 50, true)]
    );
}

#[test]
fn opening_tells_list_selection_and_icons() {
    let mut p = prepare(&sessions()).unwrap_or_else(|_| panic!("sessions"));
    p.icons.insert(9, vec![4]);
    p.icons.insert(7, vec![5]);
    p.icons.insert(1234, vec![6]);
    assert_eq!(
        opening_messages(&p.apps, &p.icons),
        vec![
            HostToDevice::SetAppList(p.apps.clone()),
            HostToDevice::SetSelectedApp(7),
            HostToDevice::SetAppIcon { app_id: 7, pixels: vec![5] },
            HostToDevice::SetAppIcon { app_id: 9, pixels: vec![4] },
        ]
    );
}

#[test]
fn volume_delta_starts_from_what_is_known() {
    let mut s = started();
    assert_eq!(
        s.message(&DeviceToHost::VolumeDelta { app_id: 7, delta: -3 }),
        Request::ChangeVolume { app_id: 7, delta: -3, from: volume(0.25) }
    );
    assert_eq!(
        s.volume_changed(7, volume(0.19)),
        HostToDevice::SetVolume { app_id: 7, level: 19 }
    );
    assert_eq!(
        s.message(&DeviceToHost::VolumeDelta { app_id: 7, delta: 1 }),
        Request::ChangeVolume { app_id: 7, delta: 1, from: volume(0.19) }
    );
    // An app that nothing is known of stands at half.
    assert_eq!(f32::from_bits(HALF_BITS), 0.5);
    assert_eq!(
        s.message(&DeviceToHost::VolumeDelta { app_id: 99, delta: 1 }),
        Request::ChangeVolume { app_id: 99, delta: 1, from: volume(0.5) }
    );
}

#[test]
fn mute_toggles() {
    let mut s = started();
    assert_eq!(
        s.message(&DeviceToHost::MuteToggle { app_id: 9 }),
        Request::ChangeMute { app_id: 9, muted: false }
    );
    assert_eq!(s.mute_changed(9, false), HostToDevice::SetMute { app_id: 9, muted: false });
    assert_eq!(
        s.message(&DeviceToHost::MuteToggle { app_id: 9 }),
        Request::ChangeMute { app_id: 9, muted: true }
    );
    assert_eq!(
        s.message(&DeviceToHost::MuteToggle { app_id: 99 }),
        Request::ChangeMute { app_id: 99, muted: true }
    );
}

#[test]
fn selection_is_answered_with_volume_and_icon() {
    let mut s = started();
    assert_eq!(
        s.message(&DeviceToHost::AppSelected(7)),
        Request::Push(vec![
            HostToDevice::SetVolume { app_id: 7, level: 25 },
            HostToDevice::SetAppIcon { app_id: 7, pixels: vec![1, 2, 3] },
        ])
    );
    assert_eq!(
        s.message(&DeviceToHost::AppSelected(9)),
        Request::Push(vec![HostToDevice::SetVolume { app_id: 9, level: 80 }])
    );
    assert_eq!(s.message(&DeviceToHost::AppSelected(99)), Request::Push(vec![]));
}

#[test]
fn other_messages_ask_for_nothing() {
    let mut s = started();
    for msg in [DeviceToHost::Ack, DeviceToHost::Pong, DeviceToHost::EncoderDelta(3)] {
        assert_eq!(s.message(&msg), Request::Nothing);
    }
}

#[test]
fn heartbeat_every_two_seconds() {
    let mut s = started();
    assert_eq!(s.heartbeat(2_999), None);
    assert_eq!(s.heartbeat(3_000), Some(HostToDevice::Ping));
    assert_eq!(s.heartbeat(4_999), None);
    assert_eq!(s.heartbeat(5_500), Some(HostToDevice::Ping));
}

fn join() -> WorkerCommand {
    provision_command("home", "SECRET-REDACTED").unwrap()
}

#[test]
fn provisioning_in_a_session() {
    let mut s = started();
    let report = |connected, text| DeviceToHost::WifiStatus { connected, ip: ip(text) };
    // Nobody asked.
    assert_eq!(s.message(&report(true, "10.0.0.7")), Request::Nothing);
    let WorkerCommand::ProvisionWifi { ssid, password } = join();
    assert_eq!(
        s.provision(5_000, join()),
        HostToDevice::SetWifiConfig { ssid, password }
    );
    assert_eq!(
        s.message(&report(true, "10.0.0.7")),
        Request::Provisioned(Ok("10.0.0.7".to_string()))
    );
    assert_eq!(s.message(&report(true, "10.0.0.7")), Request::Nothing);
    assert_eq!(s.expire(100_000), None);

    s.provision(5_000, join());
    assert_eq!(
        s.message(&report(false, "REBOOT")),
        Request::Provisioned(Err(
            "device requires reboot to apply new WiFi credentials".to_string()
        ))
    );
    s.provision(5_000, join());
    assert_eq!(
        s.message(&report(false, "")),
        Request::Provisioned(Err("WiFi connection failed".to_string()))
    );
}

#[test]
fn provisioning_expires() {
    let mut s = started();
    s.provision(5_000, join());
    assert_eq!(s.expire(35_000), None);
    assert_eq!(
        s.expire(35_001),
        Some("timed out waiting for WiFi connection".to_string())
    );
    assert_eq!(s.expire(35_002), None);
}

#[test]
fn refresh_is_due_every_five_seconds() {
    let mut s = started();
    assert!(!s.refresh_due(5_999));
    assert!(s.refresh_due(6_000));
    assert!(!s.refresh_due(6_001));
}

#[test]
fn same_processes_are_no_news() {
    let mut s = started();
    let mut list = sessions();
    list.reverse();
    assert!(s.refresh(&list).is_none());
}

#[test]
fn new_process_is_news() {
    let mut s = started();
    let mut list = sessions();
    list.push(session(11, "c.exe", "C:\\c.exe", 0.1, false));
    list.push(session(0, "", "C:\\x", 0.1, false));
    let (msg, sources) = s.refresh(&list).unwrap();
    assert_eq!(
        msg,
        HostToDevice::SetAppList(vec![
            app(7, "a.exe", 25, false),
            app(9, "b.exe", 80, true),
            app(11, "c.exe", 10, false),
        ])
    );
    assert_eq!(sources, vec![(11, "C:\\c.exe".to_string())]);
    assert!(!s.has_icon(11));
    s.add_icon(11, vec![9]);
    assert!(s.has_icon(11));
    // Of several sessions the last one's volume is known now.
    assert_eq!(
        s.message(&DeviceToHost::VolumeDelta { app_id: 7, delta: 1 }),
        Request::ChangeVolume { app_id: 7, delta: 1, from: volume(0.5) }
    );
    assert_eq!(
        s.message(&DeviceToHost::AppSelected(11)),
        Request::Push(vec![
            HostToDevice::SetVolume { app_id: 11, level: 10 },
            HostToDevice::SetAppIcon { app_id: 11, pixels: vec![9] },
        ])
    );
}

#[test]
fn no_process_left_is_news() {
    let mut s = started();
    let (msg, sources) = s.refresh(&vec![]).unwrap();
    assert_eq!(msg, HostToDevice::SetAppList(vec![]));
    assert!(sources.is_empty());
}

#[test]
fn frames_while_waiting() {
    let ready = Frame::Message(DeviceToHost::Ready { version: 1 });
    let pong = Frame::Message(DeviceToHost::Pong);
    let ack = Frame::Message(DeviceToHost::Ack);
    assert_eq!(ready_next(&ready), Next::Done);
    assert_eq!(ready_next(&pong), Next::Done);
    assert_eq!(ready_next(&ack), Next::Frame);
    assert_eq!(ready_next(&Frame::Nothing), Next::Read);
    assert_eq!(ready_next(&Frame::Bad), Next::Reset { clear_input: false });
    assert_eq!(ack_next(&ack), Next::Done);
    assert_eq!(ack_next(&pong), Next::Frame);
    assert_eq!(ack_next(&Frame::Nothing), Next::Read);
    assert_eq!(ack_next(&Frame::Bad), Next::Reset { clear_input: true });
    assert_eq!(drain_next(&ack), Next::Frame);
    assert_eq!(drain_next(&Frame::Bad), Next::Read);
    assert_eq!(drain_next(&Frame::Nothing), Next::Read);
    assert_eq!(serve_next(&ack), Next::Frame);
    assert_eq!(serve_next(&Frame::Nothing), Next::Read);
    assert_eq!(serve_next(&Frame::Bad), Next::Reset { clear_input: true });
}

#[test]
fn provisioning_over_usb() {
    let report = |connected, text| {
        Frame::Message(DeviceToHost::WifiStatus { connected, ip: ip(text) })
    };
    assert_eq!(
        provision_next(&report(true, "10.0.0.7")),
        Provisioning::Finished(Ok("10.0.0.7".to_string()))
    );
    assert_eq!(
        provision_next(&report(false, "REBOOT")),
        Provisioning::Finished(Err("device requires reboot to apply new credentials".to_string()))
    );
    assert_eq!(provision_next(&report(false, "x")), Provisioning::Wait(Next::Frame));
    assert_eq!(
        provision_next(&Frame::Message(DeviceToHost::Ack)),
        Provisioning::Wait(Next::Frame)
    );
    assert_eq!(provision_next(&Frame::Nothing), Provisioning::Wait(Next::Read));
    assert_eq!(
        provision_next(&Frame::Bad),
        Provisioning::Wait(Next::Reset { clear_input: false })
    );
    assert_eq!(provision_timeout(), "timed out waiting for WiFi connection");
}

#[test]
fn report_behind_an_ack_ends_provisioning() {
    let frames = [
        Frame::Message(DeviceToHost::Ack),
        Frame::Message(DeviceToHost::WifiStatus { connected: true, ip: ip("10.0.0.5") }),
    ];
    assert_eq!(provision_next(&frames[0]), Provisioning::Wait(Next::Frame));
    assert_eq!(
        provision_next(&frames[1]),
        Provisioning::Finished(Ok("10.0.0.5".to_string()))
    );
}

#[test]
fn patience_has_its_limits() {
    for (awaited, limit) in
        [(Awaited::Ready, 3_000), (Awaited::Ack, 5_000), (Awaited::WifiStatus, 30_000)]
    {
        assert!(wait_on(awaited, 100, 100));
        assert!(wait_on(awaited, 100, 100 + limit - 1));
        assert!(!wait_on(awaited, 100, 100 + limit));
    }
}

#[test]
fn steps_of_opening() {
    let apps = vec![app(7, "a.exe", 25, false)];
    let steps = opening_steps(&apps, &HashMap::from([(7, vec![1, 2])]));
    let ack = LinkStep::Await(Awaited::Ack);
    assert_eq!(steps.len(), 10);
    assert_eq!(steps[0], LinkStep::Drain { ms: 100 });
    assert_eq!(steps[1], LinkStep::Clear);
    assert_eq!(steps[2], LinkStep::Send(HostToDevice::Ping));
    assert_eq!(steps[3], LinkStep::Await(Awaited::Ready));
    assert_eq!(steps[4], LinkStep::Send(HostToDevice::SetAppList(apps)));
    assert_eq!(steps[5], ack);
    assert_eq!(steps[6], LinkStep::Send(HostToDevice::SetSelectedApp(7)));
    assert_eq!(steps[7], ack);
    let icon = HostToDevice::SetAppIcon { app_id: 7, pixels: vec![1, 2] };
    assert_eq!(steps[8], LinkStep::Send(icon));
    assert_eq!(steps[9], ack);
}

#[test]
fn steps_of_provisioning() {
    let WorkerCommand::ProvisionWifi { ssid, password } = join();
    let steps = provision_steps(join());
    assert_eq!(steps.len(), 6);
    assert_eq!(steps[2], LinkStep::Send(HostToDevice::Ping));
    assert_eq!(steps[4], LinkStep::Send(HostToDevice::SetWifiConfig { ssid, password }));
    assert_eq!(steps[5], LinkStep::Await(Awaited::WifiStatus));
}

#[test]
fn order_of_a_turn() {
    let mut s = started();
    let settings =
        || HostToDevice::SetBacklight { active_pct: 70, dim_after_secs: 30, off_after_secs: 90 };
    let quiet = s.turn(1_500, None, None);
    assert_eq!(quiet, Turn { messages: vec![], expired: None, refresh: false });
    let WorkerCommand::ProvisionWifi { ssid, password } = join();
    let busy = s.turn(6_000, Some(settings()), Some(join()));
    assert_eq!(
        busy.messages,
        vec![HostToDevice::Ping, settings(), HostToDevice::SetWifiConfig { ssid, password }]
    );
    assert_eq!(busy.expired, None);
    assert!(busy.refresh);
    assert_eq!(s.turn(36_000, None, None).expired, None);
    assert_eq!(
        s.turn(36_001, None, None).expired,
        Some("timed out waiting for WiFi connection".to_string())
    );
    assert_eq!(s.turn(36_002, None, None).expired, None);
}

#[test]
fn credentials_have_to_fit() {
    let WorkerCommand::ProvisionWifi { ssid, password } =
        provision_command(&"s".repeat(32), &"p".repeat(64)).unwrap();
    assert_eq!(ssid.as_str(), "s".repeat(32));
    assert_eq!(password.as_str(), "p".repeat(64));
    assert_eq!(
        provision_command(&"s".repeat(33), &"p".repeat(65)),
        Err("SSID too long (max 32 chars)".to_string())
    );
    assert_eq!(
        provision_command("", &"p".repeat(65)),
        Err("password too long (max 64 chars)".to_string())
    );
    // The bytes count, not the characters.
    assert!(provision_command(&"é".repeat(16), "").is_ok());
    assert!(provision_command(&"é".repeat(17), "").is_err());
}

#[test]
fn network_link_is_kept_up() {
    let addr = address("10.0.0.7", 9000);
    assert_eq!(addr, "10.0.0.7:9000");
    let (link, status) = link_step(Link::Connect, LinkEvent::Refused, false, 100, &addr);
    assert_eq!(link, Link::Wait { until_ms: 3_100 });
    assert_eq!(status, Some(WorkerStatus::Error("WiFi: connecting…".to_string())));
    let (link, status) = link_step(link, LinkEvent::Tick, false, 3_099, &addr);
    assert_eq!((link, status), (Link::Wait { until_ms: 3_100 }, None));
    let (link, _) = link_step(link, LinkEvent::Tick, false, 3_100, &addr);
    assert_eq!(link, Link::Connect);
    let (link, _) = link_step(link, LinkEvent::Tick, false, 3_100, &addr);
    assert_eq!(link, Link::Connect);
    let (link, status) = link_step(link, LinkEvent::Opened, false, 3_200, &addr);
    assert_eq!(link, Link::Run);
    assert_eq!(status, Some(WorkerStatus::Connected("10.0.0.7:9000".to_string())));
    let (link, status) = link_step(link, LinkEvent::Ended, false, 9_000, &addr);
    assert_eq!(link, Link::Wait { until_ms: 12_000 });
    assert_eq!(status, Some(WorkerStatus::Disconnected));
    assert_eq!(link_step(link, LinkEvent::Tick, true, 9_001, &addr).0, Link::Stopped);
    assert_eq!(link_step(Link::Connect, LinkEvent::Tick, true, 0, &addr).0, Link::Stopped);
    assert_eq!(link_step(Link::Run, LinkEvent::Ended, true, 0, &addr).0, Link::Stopped);
}

#[test]
fn backlight_is_pushed_once_per_change() {
    let mut b = BacklightShared::new(70, 30, 90);
    let msg = HostToDevice::SetBacklight { active_pct: 70, dim_after_secs: 30, off_after_secs: 90 };
    assert_eq!(b.snapshot(), msg);
    assert_eq!(b.take(), Some(msg));
    assert_eq!(b.take(), None);
    b.set_pct(25);
    b.set_dim_after_secs(10);
    b.set_off_after_secs(0);
    assert_eq!(
        b.take(),
        Some(HostToDevice::SetBacklight { active_pct: 25, dim_after_secs: 10, off_after_secs: 0 })
    );
}

#[test]
fn file_names() {
    assert_eq!(file_name("C:\\Program Files\\x\\chrome.exe"), "chrome.exe");
    assert_eq!(file_name("/usr/bin/a"), "a");
    assert_eq!(file_name("plain"), "plain");
    assert_eq!(file_name("dir/"), "");
    assert_eq!(file_name(""), "");
    assert_eq!(process_name(0, Some("C:\\x.exe".to_string())), "");
    assert_eq!(process_name(4, Some("C:\\x.exe".to_string())), "x.exe");
    assert_eq!(process_name(4, None), "");
    assert_eq!(find_session(&[3, 5, 5], 5), Some(1));
    assert_eq!(find_session(&[3, 5, 5], 7), None);
}

#[test]
fn default_settings() {
    let c = Config::default();
    assert_eq!(
        c,
        Config {
            port: String::new(),
            sensitivity_pct: default_sensitivity(),
            autostart: false,
            backlight_pct: default_backlight_pct(),
            backlight_dim_after_secs: default_dim_after_secs(),
            backlight_off_after_secs: default_off_after_secs(),
        }
    );
    assert_eq!(
        (c.sensitivity_pct, c.backlight_pct, c.backlight_dim_after_secs, c.backlight_off_after_secs),
        (2, 100, 30, 90)
    );
    assert_eq!(load(None), c);
    let stored = Config { autostart: true, ..Config::default() };
    assert_eq!(load(Some(stored.clone())), stored);
}

fn port(name: &str, usb: Option<(u16, u16)>) -> PortInfo {
    PortInfo { name: name.to_string(), usb }
}

#[test]
fn device_port_is_found_by_its_ids() {
    let ports = vec![
        port("COM1", None),
        port("COM2", Some((0x303A, 0x1002))),
        port("COM3", Some((0x1001, 0x303A))),
        port("COM4", Some((0x303A, 0x1001))),
        port("COM5", Some((0x303A, 0x1001))),
    ];
    assert_eq!(find_device_port(&ports), Some("COM4".to_string()));
    assert_eq!(find_device_port(&ports[..3].iter().map(|p| port(&p.name, p.usb)).collect()), None);
}

#[test]
fn port_is_resolved_in_order() {
    let s = |t: &str| t.to_string();
    assert_eq!(resolve_port(Some(s("A")), &s("B"), Some(s("C"))), Some(s("A")));
    assert_eq!(resolve_port(Some(s("")), &s("B"), Some(s("C"))), Some(s("B")));
    assert_eq!(resolve_port(None, &s(""), Some(s("C"))), Some(s("C")));
    assert_eq!(resolve_port(None, &s(""), None), None);
    let mut c = Config::default();
    assert!(remember_port(&mut c, &s("COM8")));
    assert_eq!(c.port, "COM8");
    assert!(!remember_port(&mut c, &s("COM8")));
}

#[test]
fn icon_colours() {
    // Blue, green, red, each opaque; then half-transparent white.
    let bgra = [255, 0, 0, 255, 0, 255, 0, 255, 0, 0, 255, 255, 255, 255, 255, 128];
    assert_eq!(
        bgra_to_rgb565_be(&bgra, 2, 2),
        vec![0x00, 0x1F, 0x07, 0xE0, 0xF8, 0x00, 0x84, 0x10]
    );
    // Without any alpha the icon is opaque.
    let flat = [10, 20, 30, 0];
    assert_eq!(bgra_to_rgb565_be(&flat, 1, 1), vec![0x18, 0xA1]);
    // With some, a transparent pixel is black.
    let mixed = [10, 20, 30, 0, 1, 1, 1, 255];
    assert_eq!(bgra_to_rgb565_be(&mixed, 2, 1)[..2], [0, 0]);
}

#[test]
fn icon_of_an_executable() {
    assert_eq!(extract_rgb565(None), None);
    let icon = extract_rgb565(Some(vec![255; 64 * 64 * 4])).unwrap();
    assert_eq!(icon, vec![255; 8192]);
}

#[test]
fn picture_file() {
    let mut bgra = vec![0u8; 64 * 64 * 4];
    bgra[0..4].copy_from_slice(&[1, 2, 3, 255]);
    bgra[4..8].copy_from_slice(&[255, 255, 255, 51]);
    let file = ppm(&bgra);
    assert_eq!(&file[..13], b"P6\n64 64\n255\n");
    assert_eq!(&file[13..19], &[3, 2, 1, 51, 51, 51]);
    assert_eq!(file.len(), 13 + 64 * 64 * 3);
    assert_eq!(ppm_name(42, "a.exe"), "icon-42-a.exe.ppm");
}

#[test]
fn paths_are_cut_and_terminated() {
    let long: Vec<u16> = (1..=300).collect();
    let buf = path_buffer(&long);
    assert_eq!((buf[0], buf[258], buf[259]), (1, 259, 0));
    let buf = path_buffer(&[65, 66]);
    assert_eq!(&buf[..4], &[65, 66, 0, 0]);
}

fn labels(choices: &[Choice]) -> Vec<(&str, u16, bool)> {
    choices.iter().map(|c| (c.label.as_str(), c.value, c.checked)).collect()
}

#[test]
fn menu_shows_the_settings() {
    let menu = build_menu(&Config { backlight_off_after_secs: 0, ..Config::default() });
    assert_eq!(menu.len(), 9);
    assert_eq!(menu[0], Entry::Title("Rusty ESP Knob".to_string()));
    let choices: Vec<(&str, Vec<(&str, u16, bool)>)> = menu
        .iter()
        .filter_map(|e| match e {
            Entry::Submenu(label, c) => Some((label.as_str(), labels(c))),
            _ => None,
        })
        .collect();
    assert_eq!(
        choices,
        vec![
            ("Sensitivity", vec![("1%", 1, false), ("2%", 2, true), ("5%", 5, false)]),
            (
                "Brightness",
                vec![("25%", 25, false), ("50%", 50, false), ("75%", 75, false), ("100%", 100, true)]
            ),
            (
                "Dim after",
                vec![
                    ("10 s", 10, false),
                    ("30 s", 30, true),
                    ("1 min", 60, false),
                    ("3 min", 180, false),
                    ("Never", 0, false)
                ]
            ),
            (
                "Off after dim",
                vec![
                    ("30 s", 30, false),
                    ("90 s", 90, false),
                    ("5 min", 300, false),
                    ("10 min", 600, false),
                    ("Never", 0, true)
                ]
            ),
        ]
    );
    assert_eq!(menu[6], Entry::Check("Auto-start on login".to_string(), false));
    assert_eq!(menu[8], Entry::Item("Exit".to_string()));
}

fn ids() -> MenuIds {
    let s = |t: &str| t.to_string();
    MenuIds {
        exit: s("x"),
        autostart: s("a"),
        sensitivity: vec![(s("s1"), 1), (s("s2"), 2)],
        brightness: vec![(s("b25"), 25), (s("b25"), 26)],
        dim: vec![(s("d0"), 0)],
        off: vec![(s("o600"), 600)],
    }
}

#[test]
fn clicks() {
    let ids = ids();
    let click = |t: &str| ids.click(&t.to_string());
    assert_eq!(click("x"), Some(Click::Exit));
    assert_eq!(click("a"), Some(Click::Autostart));
    assert_eq!(click("s2"), Some(Click::Sensitivity(2)));
    // First match wins.
    assert_eq!(click("b25"), Some(Click::Brightness(25)));
    assert_eq!(click("d0"), Some(Click::DimAfter(0)));
    assert_eq!(click("o600"), Some(Click::OffAfter(600)));
    assert_eq!(click("?"), None);
    assert_eq!(ids.dim_choice(&"o600".to_string()), None);
    assert_eq!(ids.off_choice(&"o600".to_string()), Some(600));
}

#[test]
fn clicks_take_effect() {
    let mut cfg = Config::default();
    let mut sensitivity = 2;
    let mut b = BacklightShared::new(100, 30, 90);
    b.take();
    assert_eq!(act(Click::Sensitivity(5), &mut cfg, &mut sensitivity, &mut b), Effect::Save);
    assert_eq!((cfg.sensitivity_pct, sensitivity, b.dirty), (5, 5, false));
    assert_eq!(act(Click::Brightness(50), &mut cfg, &mut sensitivity, &mut b), Effect::Save);
    assert_eq!((cfg.backlight_pct, b.pct, b.dirty), (50, 50, true));
    act(Click::DimAfter(0), &mut cfg, &mut sensitivity, &mut b);
    act(Click::OffAfter(600), &mut cfg, &mut sensitivity, &mut b);
    assert_eq!((cfg.backlight_dim_after_secs, b.dim_after_secs), (0, 0));
    assert_eq!((cfg.backlight_off_after_secs, b.off_after_secs), (600, 600));
    assert_eq!(
        act(Click::Autostart, &mut cfg, &mut sensitivity, &mut b),
        Effect::Autostart(true)
    );
    assert!(cfg.autostart);
    assert_eq!(
        act(Click::Autostart, &mut cfg, &mut sensitivity, &mut b),
        Effect::Autostart(false)
    );
    assert_eq!(act(Click::Exit, &mut cfg, &mut sensitivity, &mut b), Effect::Stop);
}

#[test]
fn tooltips() {
    assert_eq!(
        tooltip(&WorkerStatus::Connected("COM8".to_string())),
        "Rusty ESP Knob — COM8"
    );
    assert_eq!(tooltip(&WorkerStatus::Disconnected), "Rusty ESP Knob — disconnected");
    assert_eq!(tooltip(&WorkerStatus::Error("port".to_string())), "Rusty ESP Knob — port");
}

#[test]
fn tray_icon_is_a_knob() {
    let px = make_icon();
    assert_eq!(px.len(), 32 * 32 * 4);
    for y in 0..32usize {
        for x in 0..32usize {
            let dx = x as f32 - 15.5;
            let dy = y as f32 - 15.5;
            let dist = (dx * dx + dy * dy).sqrt();
            let want: [u8; 4] = if dist > 14.0 {
                [0, 0, 0, 0]
            } else if dist >= 11.5 {
                [0xB7, 0x41, 0x0E, 0xFF]
            } else if (x == 15 || x == 16) && dy < -2.0 && dist < 10.5 {
                [0xFF; 4]
            } else {
                [0x40, 0x18, 0x08, 0xFF]
            };
            let i = (y * 32 + x) * 4;
            assert_eq!(&px[i..i + 4], &want);
        }
    }
}

#[test]
fn autostart_entry() {
    assert_eq!(autostart_command("C:\\k.exe"), "\"C:\\k.exe\" tray");
    assert_eq!(registry_bytes(&[0x41, 0x2014]), vec![0x41, 0, 0x14, 0x20, 0, 0]);
}
