use heyrnode::config::RadioConfig;
use heyrnode::report::{u32_to_be_bytes, Report, Stats};
use heyrnode::rnode::{
    CMD_BANDWIDTH, CMD_DATA, CMD_FREQUENCY, CMD_RADIO_LOCK, CMD_RADIO_STATE, CMD_RANDOM, CMD_SF,
    CMD_STAT_CHTM, CMD_STAT_PHYPRM, CMD_STAT_RX, CMD_STAT_SNR, CMD_STAT_TX, CMD_TXPOWER,
};

#[test]
fn new_report_is_empty_and_verifies() {
    let r = Report::new();
    assert_eq!(r.frequency, None);
    assert_eq!(r.stats(), Stats::default());
    assert!(r.verify(&RadioConfig::default()));
    assert!(r.verify(&RadioConfig::default().frequency(1)));
}

#[test]
fn verify_compares_reported_values() {
    let config = RadioConfig::default();
    let mut r = Report::new();
    r.set_frequency(config.frequency);
    r.set_bandwidth(config.bandwidth);
    r.set_spreading_factor(config.sf);
    r.set_coding_rate(config.cr);
    r.set_tx_power(config.tx_power);
    assert!(r.verify(&config));
    r.set_tx_power(config.tx_power - 1);
    assert!(!r.verify(&config));
    let mut r = Report::new();
    r.set_coding_rate(config.cr + 1);
    assert!(!r.verify(&config));
}

#[test]
fn counters_wrap() {
    let mut r = Report::new();
    r.inc_stat_tx(10);
    r.inc_stat_tx(5);
    assert_eq!(r.stats().tx, 2);
    assert_eq!(r.stats().tx_bytes, 15);
    r.set_stat_rx(u32::MAX);
    r.inc_stat_rx(3);
    assert_eq!(r.stats().rx, 0);
    assert_eq!(r.stats().rx_bytes, 3);
    r.set_stat_tx(7);
    assert_eq!(r.stats().tx, 7);
}

#[test]
fn setters() {
    let mut r = Report::new();
    r.set_radio_state(true);
    r.set_radio_lock(true);
    r.set_random(42);
    r.set_stat_rssi(100);
    r.set_stat_snr(12);
    r.set_stat_chtm(1, 2, 3, 4, 5, 6, 7);
    r.set_stat_phyprm(8, 9, 10, 11, 12, 13);
    assert!(r.radio_state && r.radio_lock);
    assert_eq!(r.random, 42);
    let s = r.stats();
    assert_eq!((s.rssi, s.snr), (100, 12));
    assert_eq!((s.ats, s.atl, s.cls, s.cll, s.crs, s.nfl, s.ntf), (1, 2, 3, 4, 5, 6, 7));
    assert_eq!((s.lst, s.lsr, s.prs, s.prt, s.cst, s.dft), (8, 9, 10, 11, 12, 13));
}

#[test]
fn apply_frames() {
    let mut r = Report::new();
    assert_eq!(r.apply_frame(CMD_DATA, vec![1, 2, 3]), Some(vec![1, 2, 3]));
    assert_eq!(r.stats().rx, 1);
    assert_eq!(r.stats().rx_bytes, 3);
    assert_eq!(r.apply_frame(CMD_FREQUENCY, vec![0x33, 0xBC, 0xA1, 0x00]), None);
    assert_eq!(r.frequency, Some(868_000_000));
    r.apply_frame(CMD_FREQUENCY, vec![1, 2, 3]);
    assert_eq!(r.frequency, Some(868_000_000));
    r.apply_frame(CMD_BANDWIDTH, u32_to_be_bytes(125_000).to_vec());
    assert_eq!(r.bandwidth, Some(125_000));
    r.apply_frame(CMD_TXPOWER, vec![9, 17]);
    assert_eq!(r.tx_power, Some(17));
    r.apply_frame(CMD_SF, vec![]);
    assert_eq!(r.sf, None);
    r.apply_frame(CMD_RADIO_STATE, vec![2]);
    assert!(r.radio_state);
    r.apply_frame(CMD_RADIO_LOCK, vec![0]);
    assert!(!r.radio_lock);
    r.apply_frame(CMD_STAT_RX, vec![0, 0, 1, 0]);
    r.apply_frame(CMD_STAT_TX, vec![0, 0, 0, 9]);
    assert_eq!((r.stats().rx, r.stats().tx), (256, 9));
    r.apply_frame(CMD_STAT_SNR, vec![5]);
    assert_eq!(r.stats().snr, 5);
    r.apply_frame(CMD_STAT_CHTM, vec![0, 1, 0, 2, 0, 3, 1, 4, 5, 6, 7]);
    let s = r.stats();
    assert_eq!((s.ats, s.atl, s.cls, s.cll, s.crs, s.nfl, s.ntf), (1, 2, 3, 260, 5, 6, 7));
    r.apply_frame(CMD_STAT_PHYPRM, vec![0, 1, 0, 2, 0, 3, 0, 4, 0, 5, 2, 0]);
    let s = r.stats();
    assert_eq!((s.lst, s.lsr, s.prs, s.prt, s.cst, s.dft), (1, 2, 3, 4, 5, 512));
    r.apply_frame(CMD_RANDOM, vec![99]);
    assert_eq!(r.random, 99);
    let before = r;
    assert_eq!(r.apply_frame(0x77, vec![1, 2]), None);
    assert_eq!(r, before);
}

#[test]
fn be_bytes() {
    assert_eq!(u32_to_be_bytes(868_000_000), [0x33, 0xBC, 0xA1, 0x00]);
    assert_eq!(u32_to_be_bytes(0x01020304), [1, 2, 3, 4]);
}
