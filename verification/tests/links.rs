//! The device's links and its stored credentials.

use rusty_esp_knob::codec::{encode, Error};
use rusty_esp_knob::messages::DeviceToHost;
use rusty_esp_knob::nvs_config::{NvsConfig, WifiCredentials};
use rusty_esp_knob::usb_serial::{stats_text, Progress, RxStats, Transmit, UsbSerial, SPIN_BUDGET};
use rusty_esp_knob::wifi_tcp::{ip_text, Lease, NetAction, Report, WifiTcp, WifiTcpState};

#[test]
fn usb_counts_what_it_sees() {
    let mut u = UsbSerial::new();
    let frame = encode(Some(vec![1, 2, 3])).unwrap();
    assert_eq!(u.poll(&frame[..2]), None);
    let payload = u.poll(&frame[2..]).unwrap();
    assert_eq!(payload, vec![1, 2, 3]);
    assert_eq!(u.parsed(Some(7u8)), Some(7));
    assert_eq!(u.parsed::<u8>(None), None);
    let mut bad = frame.clone();
    bad[2] ^= 1;
    assert_eq!(u.poll(&bad), None);
    u.dropped();
    assert_eq!(
        u.stats(),
        RxStats { bytes: 12, ok: 1, err: 2, overflow: 0, tx_drop: 1 }
    );
    assert_eq!(RxStats::default(), RxStats { bytes: 0, ok: 0, err: 0, overflow: 0, tx_drop: 0 });
}

#[test]
fn usb_overflow_is_counted() {
    let mut u = UsbSerial::new();
    for _ in 0..24 {
        assert_eq!(u.poll(&[1; 512]), None);
    }
    assert_eq!(u.stats().overflow, 0);
    assert_eq!(u.poll(&[1]), None);
    assert_eq!(u.stats().overflow, 1);
    // What came before is gone.
    let frame = encode(Some(vec![5, 6])).unwrap();
    assert_eq!(u.poll(&frame), Some(vec![5, 6]));
}

#[test]
fn usb_buffered_frames_come_one_by_one() {
    let mut u = UsbSerial::new();
    let mut stream = encode(Some(vec![1, 1])).unwrap();
    stream.extend_from_slice(&encode(Some(vec![2, 2])).unwrap());
    assert_eq!(u.poll(&stream), Some(vec![1, 1]));
    assert_eq!(u.poll(&[]), Some(vec![2, 2]));
    assert_eq!(u.poll(&[]), None);
}

#[test]
fn stats_line() {
    let stats = RxStats { bytes: 1024, ok: 7, err: 0, overflow: 10, tx_drop: 99 };
    assert_eq!(stats_text(stats, 4_294_967_295), "t=4294967295 b=1024 ok=7 er=0 of=10");
}

#[test]
fn transmission_of_a_frame() {
    let mut t = Transmit::new(vec![4, 5]);
    assert_eq!(t.progress(), Progress::Offer(4));
    t.offered(false);
    assert_eq!(t.progress(), Progress::Offer(4));
    t.offered(true);
    assert_eq!(t.progress(), Progress::Offer(5));
    t.offered(true);
    assert_eq!(t.progress(), Progress::Sent);
    assert_eq!(Transmit::new(vec![]).progress(), Progress::Sent);
}

#[test]
fn transmission_to_nobody_is_dropped() {
    let u = UsbSerial::new();
    assert!(matches!(u.send(Err(Error::Serialize)), Err(Error::Serialize)));
    let mut t = u.send(Ok(vec![4, 5])).unwrap_or_else(|_| panic!("encoded"));
    t.offered(true);
    for _ in 0..SPIN_BUDGET {
        assert_eq!(t.progress(), Progress::Offer(5));
        t.offered(false);
    }
    assert_eq!(t.progress(), Progress::Dropped);
}

#[test]
fn addresses_as_text() {
    assert_eq!(ip_text([192, 168, 1, 70]).as_str(), "192.168.1.70");
    assert_eq!(ip_text([255, 255, 255, 255]).as_str(), "255.255.255.255");
    assert_eq!(ip_text([0, 10, 100, 9]).as_str(), "0.10.100.9");
}

fn leased() -> WifiTcp {
    let mut w = WifiTcp::new();
    w.poll_connecting(100, true);
    w.poll_lease(200, Some(Lease::Configured([10, 0, 0, 7])));
    w
}

#[test]
fn joining_is_retried() {
    let mut w = WifiTcp::new();
    assert!(!w.poll_connecting(10_000, false));
    assert!(w.poll_connecting(10_001, false));
    // The waiting time starts again.
    assert!(!w.poll_connecting(20_001, false));
    assert!(w.poll_connecting(20_002, false));
    assert!(!w.poll_connecting(20_003, true));
    assert_eq!(w.state(), WifiTcpState::WaitingForIp);
}

#[test]
fn lease_gives_an_event_once() {
    let mut w = leased();
    assert_eq!(w.state(), WifiTcpState::Listening);
    assert_eq!(w.connected_ip.as_ref().unwrap().as_str(), "10.0.0.7");
    let ip = heapless::String::<16>::try_from("10.0.0.7").unwrap();
    assert_eq!(w.take_event(), Some(DeviceToHost::WifiStatus { connected: true, ip }));
    assert_eq!(w.take_event(), None);
}

#[test]
fn lease_can_fail() {
    let mut w = WifiTcp::new();
    w.poll_connecting(0, true);
    assert_eq!(w.poll_lease(15_000, None), NetAction::Nothing);
    assert_eq!(w.poll_lease(15_001, None), NetAction::Reconnect);
    assert_eq!(w.state(), WifiTcpState::Connecting);
    w.poll_connecting(15_002, true);
    assert_eq!(w.poll_lease(15_003, Some(Lease::Deconfigured)), NetAction::Clear);
    assert_eq!(w.state(), WifiTcpState::Connecting);
    assert!(w.connected_ip.is_none());
    assert_eq!(w.take_event(), None);
}

#[test]
fn client_comes_and_goes() {
    let mut w = leased();
    assert!(!w.is_active());
    assert!(w.poll_listening(false, false));
    assert!(!w.poll_listening(true, false));
    assert!(!w.poll_listening(false, true));
    assert!(w.is_active());
    let frame = encode(Some(vec![8, 9])).unwrap();
    assert_eq!(w.poll_active(true, &frame[..3]), None);
    assert_eq!(w.poll_active(true, &[]), None);
    assert_eq!(w.poll_active(true, &frame[3..]), Some(vec![8, 9]));
    assert_eq!(w.poll_active(false, &[]), None);
    assert_eq!(w.state(), WifiTcpState::Listening);
}

#[test]
fn bad_bytes_on_the_network_are_passed_over() {
    let mut w = leased();
    w.poll_listening(true, true);
    for _ in 0..49 {
        assert_eq!(w.poll_active(true, &[7; 256]), None);
    }
    // The buffer has overflown and is empty again.
    let frame = encode(Some(vec![8, 9])).unwrap();
    assert_eq!(w.poll_active(true, &frame), Some(vec![8, 9]));
    // Bytes in front of a terminator are a corrupt frame.
    let mut stream = vec![7u8, 7, 0];
    stream.extend_from_slice(&frame);
    assert_eq!(w.poll_active(true, &stream), None);
    assert_eq!(w.poll_active(true, &[]), Some(vec![8, 9]));
    assert_eq!(w.poll_active(true, &[0]), None);
}

#[test]
fn sending_needs_a_client() {
    let mut w = leased();
    assert_eq!(w.send(Ok(vec![1]), 10), None);
    w.poll_listening(true, true);
    assert_eq!(w.send(Ok(vec![1]), 10), Some(vec![1]));
    assert_eq!(w.send(Ok(vec![1]), 0), None);
    assert_eq!(w.send(Err(Error::Serialize), 10), None);
    // A frame goes as a whole or not at all.
    assert_eq!(w.send(Ok(vec![1, 2, 3]), 3), Some(vec![1, 2, 3]));
    assert_eq!(w.send(Ok(vec![1, 2, 3]), 2), None);
}

#[test]
fn frames_of_one_chunk_come_one_by_one() {
    let mut w = leased();
    w.poll_listening(true, true);
    let mut stream = encode(Some(vec![1, 1])).unwrap();
    stream.extend_from_slice(&encode(Some(vec![2, 2])).unwrap());
    assert_eq!(w.poll_active(true, &stream), Some(vec![1, 1]));
    assert_eq!(w.poll_active(true, &[]), Some(vec![2, 2]));
    assert_eq!(w.poll_active(true, &[]), None);
}

#[test]
fn polls_of_a_network_that_never_associates() {
    let mut w = WifiTcp::new();
    let silence = Report::Radio { connected: false };
    for (now_ms, action) in [
        (10_000, NetAction::Nothing),
        (10_001, NetAction::Reconnect),
        (20_001, NetAction::Nothing),
        (20_002, NetAction::Reconnect),
    ] {
        assert_eq!(w.poll(now_ms, silence), (action, None));
        assert!(!w.is_active());
    }
}

#[test]
fn polls_through_all_states() {
    let mut w = WifiTcp::new();
    assert_eq!(w.poll(5, Report::Radio { connected: true }), (NetAction::Nothing, None));
    assert_eq!(w.poll(6, Report::Dhcp(None)), (NetAction::Nothing, None));
    let lease = Some(Lease::Configured([10, 0, 0, 7]));
    assert_eq!(w.poll(7, Report::Dhcp(lease)), (NetAction::Configure, None));
    let idle = Report::Socket { listening: false, active: false };
    assert_eq!(w.poll(8, idle), (NetAction::Listen, None));
    let client = Report::Socket { listening: false, active: true };
    assert_eq!(w.poll(9, client), (NetAction::Nothing, None));
    let frame = encode(Some(vec![8, 9])).unwrap();
    let data = Report::Data { active: true, bytes: &frame };
    assert_eq!(w.poll(10, data), (NetAction::Nothing, Some(vec![8, 9])));
    let gone = Report::Data { active: false, bytes: &[] };
    assert_eq!(w.poll(11, gone), (NetAction::Abort, None));
    assert_eq!(w.state(), WifiTcpState::Listening);
}

fn creds(ssid: &str, password: &str) -> WifiCredentials {
    WifiCredentials {
        ssid: heapless::String::try_from(ssid).unwrap(),
        password: heapless::String::try_from(password).unwrap(),
    }
}

#[test]
fn credentials_survive() {
    let long_ssid = "x".repeat(32);
    let long_pass = "y".repeat(64);
    for (ssid, password) in [("home net", "a b"), ("", ""), (&long_ssid, &long_pass)] {
        let record = NvsConfig::save(&creds(ssid, password));
        let back = NvsConfig::load(Some(record)).unwrap();
        assert_eq!(back.ssid.as_str(), ssid);
        assert_eq!(back.password.as_str(), password);
    }
}

#[test]
fn record_layout() {
    let record = NvsConfig::save(&creds("ab", "cd"));
    assert_eq!(&record[..5], &[0xEF, 0xBE, b'a', b'b', 0]);
    assert_eq!(&record[34..37], &[b'c', b'd', 0]);
    assert_eq!(&record[98..], &[0, 0]);
}

#[test]
fn no_record_no_credentials() {
    assert!(NvsConfig::load(None).is_none());
    assert!(NvsConfig::load(Some([0xFF; 100])).is_none());
    assert!(NvsConfig::load(Some([0; 100])).is_none());
    // Bytes that take more room as text than the field has.
    let mut record = NvsConfig::save(&creds("", ""));
    for b in record[2..34].iter_mut() {
        *b = 0xE9;
    }
    assert!(NvsConfig::load(Some(record)).is_none());
}

#[test]
fn bytes_beyond_ascii_are_read_one_by_one() {
    let record = NvsConfig::save(&creds("é", ""));
    assert_eq!(NvsConfig::load(Some(record)).unwrap().ssid.as_str(), "Ã©");
}
