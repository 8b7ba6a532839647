use heyrnode::config::{Preset, RadioConfig, Region, SPLIT_PACKET_MTU, SINGLE_MTU};

#[test]
fn region_values() {
    assert_eq!(Region::EU433.frequency(), 433_000_000);
    assert_eq!(Region::EU868.frequency(), 868_000_000);
    assert_eq!(Region::US.frequency(), 915_000_000);
    assert_eq!(Region::EU433.max_tx_power(), 10);
    assert_eq!(Region::EU868.max_tx_power(), 27);
    assert_eq!(Region::US.max_tx_power(), 30);
    assert_eq!(Region::default(), Region::EU868);
}

#[test]
fn preset_values() {
    assert_eq!(Preset::LongSlow.bandwidth(), 125_000);
    assert_eq!(Preset::ShortFast.bandwidth(), 250_000);
    assert_eq!(Preset::ShortTurbo.bandwidth(), 500_000);
    assert_eq!(Preset::LongFast.coding_rate(), 5);
    assert_eq!(Preset::LongModerate.coding_rate(), 8);
    assert_eq!(Preset::ShortFast.spread_factor(), 7);
    assert_eq!(Preset::ShortSlow.spread_factor(), 8);
    assert_eq!(Preset::MediumFast.spread_factor(), 9);
    assert_eq!(Preset::MediumSlow.spread_factor(), 10);
    assert_eq!(Preset::LongFast.spread_factor(), 11);
    assert_eq!(Preset::LongSlow.spread_factor(), 12);
    assert_eq!(Preset::default(), Preset::LongFast);
}

#[test]
fn from_preset_uses_region_max_power() {
    let c = RadioConfig::from_preset(Region::US, Preset::LongSlow);
    assert_eq!(c.frequency, 915_000_000);
    assert_eq!(c.bandwidth, 125_000);
    assert_eq!(c.sf, 12);
    assert_eq!(c.cr, 8);
    assert_eq!(c.tx_power, 30);
    assert!(!c.split_packet_mode);
}

#[test]
fn default_config() {
    let c = RadioConfig::default();
    assert_eq!(c, RadioConfig::from_preset(Region::EU868, Preset::LongFast));
    assert_eq!(c.frequency, 868_000_000);
    assert_eq!(c.bandwidth, 250_000);
    assert_eq!(c.sf, 11);
    assert_eq!(c.cr, 5);
    assert_eq!(c.tx_power, 27);
}

#[test]
fn builders_set_one_field() {
    let base = RadioConfig::default();
    let c = base.frequency(433_175_000);
    assert_eq!(c.frequency, 433_175_000);
    assert_eq!(c.bandwidth, base.bandwidth);
    let c = c.bandwidth(62_500).spread_factor(9).coding_rate(6).tx_power(14).split_packet_mode(true);
    assert_eq!(c.bandwidth, 62_500);
    assert_eq!(c.sf, 9);
    assert_eq!(c.cr, 6);
    assert_eq!(c.tx_power, 14);
    assert!(c.split_packet_mode);
    assert_eq!(c.frequency, 433_175_000);
}

#[test]
fn mtu_values() {
    assert_eq!(SPLIT_PACKET_MTU, 508);
    assert_eq!(SINGLE_MTU, 255);
    assert_eq!(SPLIT_PACKET_MTU, SINGLE_MTU * 2 - 2);
}
