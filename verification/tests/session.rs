use heyrnode::config::RadioConfig;
use heyrnode::decoder::FrameDecoder;
use heyrnode::error::ErrorKind;
use heyrnode::iface::{silence_exceeded, RNodeSession};

#[test]
fn send_frames_and_counts() {
    let mut s = RNodeSession::new(RadioConfig::default());
    let frame = s.send(&[1, 0xDB, 2]).unwrap();
    assert_eq!(frame, vec![0xC0, 0x00, 1, 0xDB, 0xDD, 2, 0xC0]);
    assert_eq!(s.stats().tx, 1);
    assert_eq!(s.stats().tx_bytes, 3);
}

#[test]
fn send_refuses_large_payload() {
    let mut s = RNodeSession::new(RadioConfig::default());
    assert!(s.send(&[0u8; 255]).is_ok());
    let e = s.send(&[0u8; 256]).unwrap_err();
    assert_eq!(*e.kind(), ErrorKind::PayloadTooLarge);
    assert_eq!(e.description(), "payload can't be larger than MTU of 255");
    assert_eq!(s.stats().tx, 1);
    assert_eq!(s.stats().tx_bytes, 255);

    let mut s = RNodeSession::new(RadioConfig::default().split_packet_mode(true));
    assert!(s.send(&[0u8; 508]).is_ok());
    let e = s.send(&[0u8; 509]).unwrap_err();
    assert_eq!(*e.kind(), ErrorKind::PayloadTooLarge);
    assert_eq!(e.description(), "payload can't be larger than MTU of 508");
    assert_eq!(s.stats().tx, 1);
    assert_eq!(s.stats().tx_bytes, 508);
}

#[test]
fn silence_timeout() {
    assert!(!silence_exceeded(100_000_000));
    assert!(silence_exceeded(100_000_001));
    assert!(!silence_exceeded(0));
}

#[test]
fn loopback_delivers_payload() {
    let mut tx = RNodeSession::new(RadioConfig::default());
    let mut rx = RNodeSession::new(RadioConfig::default());
    let payload = [5u8, 0xDB, 0xDC, 0xDD, 9];
    let frame = tx.send(&payload).unwrap();
    let mut got = Vec::new();
    for b in frame {
        if let Some(data) = rx.receive(b) {
            got.push(data);
        }
    }
    assert_eq!(got, vec![payload.to_vec()]);
    assert_eq!(rx.stats().rx, 1);
    assert_eq!(rx.stats().rx_bytes, 5);
}

#[test]
fn frame_end_in_payload_comes_back() {
    let mut tx = RNodeSession::new(RadioConfig::default());
    let mut rx = RNodeSession::new(RadioConfig::default());
    let frame = tx.send(&[1, 0xC0, 0xDB]).unwrap();
    assert_eq!(frame, vec![0xC0, 0x00, 0x01, 0xDB, 0xDC, 0xDB, 0xDD, 0xC0]);
    let got: Vec<Vec<u8>> = frame.into_iter().filter_map(|b| rx.receive(b)).collect();
    assert_eq!(got, vec![vec![1, 0xC0, 0xDB]]);
}

#[test]
fn stream_of_frames() {
    let mut tx = RNodeSession::new(RadioConfig::default());
    let mut rx = RNodeSession::new(RadioConfig::default());
    let mut wire = Vec::new();
    wire.extend(tx.send(&[0xC0]).unwrap());
    wire.extend(tx.get_channel_stats());
    wire.extend(tx.send(&[]).unwrap());
    wire.extend(tx.send(&[7, 8, 9]).unwrap());
    let got: Vec<Vec<u8>> = wire.into_iter().filter_map(|b| rx.receive(b)).collect();
    assert_eq!(got, vec![vec![0xC0], vec![], vec![7, 8, 9]]);
    assert_eq!(rx.stats().rx, 3);
    assert_eq!(rx.stats().rx_bytes, 4);
}

#[test]
fn init_commands_and_echo() {
    let config = RadioConfig::default();
    let s = RNodeSession::new(config);
    let frames = s.init_commands();
    assert_eq!(frames.len(), 6);
    assert_eq!(frames[0], vec![0xC0, 0x01, 0x33, 0xBC, 0xA1, 0x00, 0xC0]);
    assert_eq!(frames[1], vec![0xC0, 0x02, 0x00, 0x03, 0xD0, 0x90, 0xC0]);
    assert_eq!(frames[2], vec![0xC0, 0x03, 27, 0xC0]);
    assert_eq!(frames[3], vec![0xC0, 0x04, 11, 0xC0]);
    assert_eq!(frames[4], vec![0xC0, 0x05, 5, 0xC0]);
    assert_eq!(frames[5], vec![0xC0, 0x06, 0x01, 0xC0]);
    let mut device = RNodeSession::new(config);
    assert!(!device.report.radio_state);
    for f in &frames {
        for &b in f {
            assert_eq!(device.receive(b), None);
        }
    }
    assert!(device.verify());
    assert!(device.report.radio_state);
    assert_eq!(device.report.frequency, Some(868_000_000));
    let other = RNodeSession { config: config.tx_power(10), ..device };
    assert!(!other.verify());
}

#[test]
fn other_commands() {
    let s = RNodeSession::new(RadioConfig::default());
    assert_eq!(s.set_radio_state(false), vec![0xC0, 0x06, 0x00, 0xC0]);
    assert_eq!(s.set_promiscuous_mode(true), vec![0xC0, 0x0E, 0x01, 0xC0]);
    assert_eq!(s.get_channel_stats(), vec![0xC0, 0x25, 0xFF, 0xC0]);
    assert_eq!(s.get_phy_stats(), vec![0xC0, 0x26, 0xFF, 0xC0]);
    let c = RadioConfig::default().frequency(0xC0DB_0102);
    let s = RNodeSession::new(c);
    assert_eq!(s.set_frequency(), vec![0xC0, 0x01, 0xDB, 0xDC, 0xDB, 0xDD, 1, 2, 0xC0]);
}

#[test]
fn timeout_drops_partial_frame() {
    let mut s = RNodeSession::new(RadioConfig::default());
    for b in [0xC0, 0x00, 1, 2] {
        assert_eq!(s.receive(b), None);
    }
    s.timeout();
    assert_eq!(s.receive(3), None);
    let got: Vec<Vec<u8>> = [0xC0, 0x00, 7, 0xC0].into_iter().filter_map(|b| s.receive(b)).collect();
    assert_eq!(got, vec![vec![7]]);
}

#[test]
fn decoder_frames() {
    let mut d = FrameDecoder::new();
    assert_eq!(d.feed(0x05), None);
    assert_eq!(d.feed(0xC0), None);
    assert_eq!(d.feed(0x04), None);
    assert_eq!(d.feed(0xDB), None);
    assert_eq!(d.feed(0xC0), Some((0x04, vec![0xDB])));
    for b in [0xC0, 0x01, 0xDB, 0xDC, 0xDB] {
        assert_eq!(d.feed(b), None);
    }
    assert_eq!(d.feed(0xDD), None);
    assert_eq!(d.feed(0xC0), Some((0x01, vec![0xC0, 0xDB])));
    assert_eq!(d.feed(0xC0), None);
    assert_eq!(d.feed(0xC0), Some((0xFF, vec![])));
}
