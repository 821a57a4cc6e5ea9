//! Framing and streaming decoding.

use rusty_esp_knob::codec::{crc8, decode, deserialized, encode, Decoder, Error};
use rusty_esp_knob::messages::{DeviceToHost, HostToDevice};

/// The serialized form of the messages that the tests use: a variant's number,
/// then its fields.
fn host_payload(msg: &HostToDevice) -> Option<Vec<u8>> {
    match msg {
        HostToDevice::Ping => postcard::to_allocvec(&0u32).ok(),
        HostToDevice::Echo(data) => postcard::to_allocvec(&(6u32, data)).ok(),
        _ => None,
    }
}

fn host_message(payload: &[u8]) -> Option<HostToDevice> {
    match postcard::take_from_bytes::<u32>(payload).ok()? {
        (0, []) => Some(HostToDevice::Ping),
        (6, rest) => postcard::from_bytes::<Vec<u8>>(rest).ok().map(HostToDevice::Echo),
        _ => None,
    }
}

fn device_payload(msg: &DeviceToHost) -> Option<Vec<u8>> {
    match msg {
        DeviceToHost::Pong => postcard::to_allocvec(&1u32).ok(),
        DeviceToHost::EncoderDelta(n) => postcard::to_allocvec(&(3u32, *n)).ok(),
        _ => None,
    }
}

fn device_message(payload: &[u8]) -> Option<DeviceToHost> {
    match postcard::take_from_bytes::<u32>(payload).ok()? {
        (1, []) => Some(DeviceToHost::Pong),
        (3, rest) => postcard::from_bytes::<i32>(rest).ok().map(DeviceToHost::EncoderDelta),
        _ => None,
    }
}

fn decode_host(frame: &[u8]) -> Result<HostToDevice, Error> {
    deserialized(host_message(&decode(frame)?))
}

fn next_device(dec: &mut Decoder) -> Result<Option<DeviceToHost>, Error> {
    match dec.next_frame()? {
        Some(payload) => deserialized(device_message(&payload)).map(Some),
        None => Ok(None),
    }
}

#[test]
fn round_trip_ping() {
    let frame = encode(host_payload(&HostToDevice::Ping)).unwrap();
    // Should end with 0x00 terminator
    assert_eq!(*frame.last().unwrap(), 0x00);
    let decoded: HostToDevice = decode_host(&frame[..frame.len() - 1]).unwrap();
    assert_eq!(decoded, HostToDevice::Ping);
}

#[test]
fn round_trip_echo_payload() {
    let msg = HostToDevice::Echo(vec![1, 2, 3, 0, 4, 5]);
    let frame = encode(host_payload(&msg)).unwrap();
    let decoded: HostToDevice = decode_host(&frame[..frame.len() - 1]).unwrap();
    assert_eq!(decoded, msg);
}

#[test]
fn streaming_decoder_two_frames() {
    let a = encode(device_payload(&DeviceToHost::Pong)).unwrap();
    let b = encode(device_payload(&DeviceToHost::EncoderDelta(42))).unwrap();
    let mut combined = a.clone();
    combined.extend_from_slice(&b);

    let mut dec = Decoder::new(256);
    dec.push(&combined).unwrap();
    let m1: DeviceToHost = next_device(&mut dec).unwrap().unwrap();
    let m2: DeviceToHost = next_device(&mut dec).unwrap().unwrap();
    assert_eq!(m1, DeviceToHost::Pong);
    assert_eq!(m2, DeviceToHost::EncoderDelta(42));
    assert!(next_device(&mut dec).unwrap().is_none());
}

#[test]
fn corrupt_frame_rejected() {
    // Use a payload with enough bytes to flip one without breaking COBS framing.
    let msg = HostToDevice::Echo(vec![1, 2, 3, 4, 5, 6, 7, 8]);
    let mut frame = encode(host_payload(&msg)).unwrap();
    // Flip a bit inside the payload (not the terminator, not the COBS overhead).
    frame[3] ^= 0x01;
    assert!(decode_host(&frame[..frame.len() - 1]).is_err());
}

#[test]
fn crc_check_value() {
    assert_eq!(crc8(b"123456789"), 0xF4);
    assert_eq!(crc8(&[]), 0x00);
    assert_eq!(crc8(&[1, 2, 3]), 0x48);
}

#[test]
fn frame_bytes() {
    assert_eq!(encode(Some(vec![1, 2, 3])).unwrap(), vec![5, 1, 2, 3, 0x48, 0]);
    // The zero byte is taken out of the frame.
    assert_eq!(encode(Some(vec![0x11, 0, 0x22])).unwrap(), vec![2, 0x11, 3, 0x22, 0x27, 0]);
}

#[test]
fn long_runs_round_trip() {
    for n in [1usize, 2, 252, 253, 254, 255, 507, 508, 509, 5000] {
        let payload: Vec<u8> = (0..n).map(|i| (i % 255) as u8 + 1).collect();
        let frame = encode(Some(payload.clone())).unwrap();
        assert_eq!(frame.iter().filter(|b| **b == 0).count(), 1);
        assert_eq!(decode(&frame[..frame.len() - 1]).unwrap(), payload);
        let mut dec = Decoder::new(8192);
        dec.push(&frame).unwrap();
        assert_eq!(dec.next_frame(), Ok(Some(payload)));
        assert_eq!(dec.next_frame(), Ok(None));
    }
}

#[test]
fn zero_payloads_round_trip() {
    for n in [1usize, 2, 254, 600] {
        let payload = vec![0u8; n];
        let frame = encode(Some(payload.clone())).unwrap();
        assert_eq!(decode(&frame[..frame.len() - 1]).unwrap(), payload);
    }
}

#[test]
fn each_error() {
    assert_eq!(encode(None), Err(Error::Serialize));
    assert_eq!(deserialized::<u8>(None), Err(Error::Deserialize));
    // The count points beyond the end.
    assert_eq!(decode(&[5, 1, 2]), Err(Error::Cobs));
    assert_eq!(decode(&[5, 1, 2, 3, 0x49]), Err(Error::BadCrc));
    // Not even a check byte.
    assert_eq!(decode(&[1]), Err(Error::FrameTooShort));
    let mut dec = Decoder::new(4);
    assert_eq!(dec.push(&[1, 2, 3, 4, 5]), Err(Error::BufferFull));
}

#[test]
fn empty_payload_round_trips() {
    assert_eq!(encode(Some(vec![])).unwrap(), vec![1, 1, 0]);
    assert_eq!(decode(&[1, 1]), Ok(vec![]));
    let mut dec = Decoder::new(16);
    dec.push(&[1, 1, 0, 1, 0, 1, 1, 0]).unwrap();
    assert_eq!(dec.next_frame(), Ok(Some(vec![])));
    assert_eq!(dec.next_frame(), Err(Error::FrameTooShort));
    assert_eq!(dec.next_frame(), Ok(Some(vec![])));
    assert_eq!(dec.next_frame(), Ok(None));
    // The check byte of nothing is zero.
    assert_eq!(decode(&[2, 7]), Err(Error::BadCrc));
}

#[test]
fn overflow_drops_what_was_buffered() {
    let frame = encode(Some(vec![9, 9])).unwrap();
    let mut dec = Decoder::new(6);
    dec.push(&[1, 2]).unwrap();
    assert_eq!(dec.push(&[3, 4, 5, 6, 7]), Err(Error::BufferFull));
    dec.push(&frame).unwrap();
    assert_eq!(dec.next_frame(), Ok(Some(vec![9, 9])));
}

#[test]
fn frame_in_pieces() {
    let frame = encode(Some(vec![7, 0, 7])).unwrap();
    let mut dec = Decoder::new(64);
    for b in &frame {
        assert_eq!(dec.next_frame(), Ok(None));
        dec.push(&[*b]).unwrap();
    }
    assert_eq!(dec.next_frame(), Ok(Some(vec![7, 0, 7])));
}

#[test]
fn corrupt_frame_is_consumed() {
    let mut stream = encode(Some(vec![1, 2, 3])).unwrap();
    stream[2] ^= 0x40;
    stream.extend_from_slice(&encode(Some(vec![4, 5])).unwrap());
    let mut dec = Decoder::new(64);
    dec.push(&stream).unwrap();
    assert_eq!(dec.next_frame(), Err(Error::BadCrc));
    assert_eq!(dec.next_frame(), Ok(Some(vec![4, 5])));
    assert_eq!(dec.next_frame(), Ok(None));
}

#[test]
fn lone_terminators_are_skipped() {
    let mut stream = vec![0u8, 0];
    stream.extend_from_slice(&encode(Some(vec![4, 5])).unwrap());
    stream.push(0);
    let mut dec = Decoder::new(64);
    dec.push(&stream).unwrap();
    assert_eq!(dec.next_frame(), Ok(Some(vec![4, 5])));
    assert_eq!(dec.next_frame(), Ok(None));
}

#[test]
fn reset_forgets() {
    let frame = encode(Some(vec![4, 5])).unwrap();
    let mut dec = Decoder::new(64);
    dec.push(&frame[..2]).unwrap();
    dec.reset();
    dec.push(&frame).unwrap();
    assert_eq!(dec.next_frame(), Ok(Some(vec![4, 5])));
}

#[test]
fn every_single_byte_change_is_noticed() {
    let payload = vec![3u8, 1, 4, 1, 5, 9, 2, 6];
    let frame = encode(Some(payload.clone())).unwrap();
    for i in 1..frame.len() - 1 {
        for v in 1..=255u8 {
            if v != frame[i] {
                let mut bad = frame.clone();
                bad[i] = v;
                assert!(decode(&bad[..bad.len() - 1]).is_err());
            }
        }
    }
}
