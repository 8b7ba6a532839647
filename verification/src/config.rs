use vstd::prelude::*;

verus! {

/// Baud rate of the serial link to the RNode.
pub const BAUD_RATE: u32 = 115_200;

/// "Split Packet" framing implemented in RNode combining larger messages into (max.) two LoRa
/// packets. This gives us a larger MTU than the "native" LoRa one.
///
/// ```text
/// 508 bytes MTU = (255 bytes MTU * 2 packets) - (1 byte split packet header * 2 packets)
/// ```
pub const SPLIT_PACKET_MTU: usize = 508;

/// "Native" MTU of a single LoRa packet.
pub const SINGLE_MTU: usize = 255;

/// How long the serial link may stay silent, in milliseconds, before a frame
/// that is being received is given up.
pub const TIMEOUT_MILLIS: u64 = 100;

/// Frequency region, with its centre frequency and its legal transmit power.
#[derive(Clone, Copy, Debug, PartialEq, Eq)]
pub enum Region {
    EU433,
    EU868,
    US,
}

impl Region {
    pub open spec fn spec_frequency(self) -> u32 {
        match self {
            Region::EU433 => 433_000_000,
            Region::EU868 => 868_000_000,
            Region::US => 915_000_000,
        }
    }

    pub open spec fn spec_max_tx_power(self) -> u8 {
        match self {
            Region::EU433 => 10,
            Region::EU868 => 27,
            Region::US => 30,
        }
    }

    /// Centre frequency of the region in Hz.
    pub fn frequency(&self) -> (f: u32)
        ensures
            f == self.spec_frequency(),
    {
        match self {
            Region::EU433 => 433_000_000,
            Region::EU868 => 868_000_000,
            Region::US => 915_000_000,
        }
    }

    /// Highest transmit power allowed in the region, in dBm.
    pub fn max_tx_power(&self) -> (p: u8)
        ensures
            p == self.spec_max_tx_power(),
    {
        match self {
            Region::EU433 => 10,
            Region::EU868 => 27,
            Region::US => 30,
        }
    }
}

impl Default for Region {
    fn default() -> (r: Self)
        ensures
            r == Region::EU868,
    {
        Region::EU868
    }
}

/// Modem presets: bandwidth, coding rate and spreading factor.
#[derive(Clone, Copy, Debug, PartialEq, Eq)]
pub enum Preset {
    ShortSlow,
    ShortFast,
    ShortTurbo,
    MediumSlow,
    MediumFast,
    LongModerate,
    LongSlow,
    LongFast,
    LongTurbo,
}

impl Preset {
    pub open spec fn spec_bandwidth(self) -> u32 {
        match self {
            Preset::LongModerate | Preset::LongSlow => 125_000,
            Preset::ShortSlow
            | Preset::ShortFast
            | Preset::MediumSlow
            | Preset::MediumFast
            | Preset::LongFast => 250_000,
            Preset::LongTurbo | Preset::ShortTurbo => 500_000,
        }
    }

    pub open spec fn spec_coding_rate(self) -> u8 {
        match self {
            Preset::ShortSlow
            | Preset::ShortFast
            | Preset::ShortTurbo
            | Preset::MediumSlow
            | Preset::MediumFast
            | Preset::LongFast => 5,
            Preset::LongModerate | Preset::LongSlow | Preset::LongTurbo => 8,
        }
    }

    pub open spec fn spec_spread_factor(self) -> u8 {
        match self {
            Preset::ShortFast | Preset::ShortTurbo => 7,
            Preset::ShortSlow => 8,
            Preset::MediumFast => 9,
            Preset::MediumSlow => 10,
            Preset::LongFast | Preset::LongTurbo | Preset::LongModerate => 11,
            Preset::LongSlow => 12,
        }
    }

    /// Bandwidth of the preset in Hz.
    pub fn bandwidth(&self) -> (b: u32)
        ensures
            b == self.spec_bandwidth(),
    {
        match self {
            Preset::LongModerate | Preset::LongSlow => 125_000,
            Preset::ShortSlow
            | Preset::ShortFast
            | Preset::MediumSlow
            | Preset::MediumFast
            | Preset::LongFast => 250_000,
            Preset::LongTurbo | Preset::ShortTurbo => 500_000,
        }
    }

    /// Coding rate of the preset (the denominator of 4/x).
    pub fn coding_rate(&self) -> (c: u8)
        ensures
            c == self.spec_coding_rate(),
    {
        match self {
            Preset::ShortSlow
            | Preset::ShortFast
            | Preset::ShortTurbo
            | Preset::MediumSlow
            | Preset::MediumFast
            | Preset::LongFast => 5,
            Preset::LongModerate | Preset::LongSlow | Preset::LongTurbo => 8,
        }
    }

    /// Spreading factor of the preset.
    pub fn spread_factor(&self) -> (s: u8)
        ensures
            s == self.spec_spread_factor(),
    {
        match self {
            Preset::ShortFast | Preset::ShortTurbo => 7,
            Preset::ShortSlow => 8,
            Preset::MediumFast => 9,
            Preset::MediumSlow => 10,
            Preset::LongFast | Preset::LongTurbo | Preset::LongModerate => 11,
            Preset::LongSlow => 12,
        }
    }
}

impl Default for Preset {
    fn default() -> (p: Self)
        ensures
            p == Preset::LongFast,
    {
        Preset::LongFast
    }
}

/// Radio parameters that the interface sets on the RNode.
#[derive(Clone, Copy, Debug, PartialEq, Eq)]
pub struct RadioConfig {
    pub frequency: u32,
    pub bandwidth: u32,
    pub sf: u8,
    pub cr: u8,
    pub tx_power: u8,
    pub split_packet_mode: bool,
}

/// The configuration that a preset gives in a region.
pub open spec fn preset_config(region: Region, preset: Preset) -> RadioConfig {
    RadioConfig {
        frequency: region.spec_frequency(),
        bandwidth: preset.spec_bandwidth(),
        sf: preset.spec_spread_factor(),
        cr: preset.spec_coding_rate(),
        tx_power: region.spec_max_tx_power(),
        split_packet_mode: false,
    }
}

impl RadioConfig {
    /// A configuration with every parameter zero and split packets off.
    pub(crate) fn new() -> (c: Self)
        ensures
            c == (RadioConfig {
                frequency: 0,
                bandwidth: 0,
                sf: 0,
                cr: 0,
                tx_power: 0,
                split_packet_mode: false,
            }),
    {
        Self { frequency: 0, bandwidth: 0, sf: 0, cr: 0, tx_power: 0, split_packet_mode: false }
    }

    /// The configuration of `preset` in `region`, sending at the region's
    /// highest legal power.
    pub fn from_preset(region: Region, preset: Preset) -> (c: Self)
        ensures
            c == preset_config(region, preset),
    {
        Self::new().frequency(region.frequency()).bandwidth(preset.bandwidth()).spread_factor(
            preset.spread_factor(),
        ).coding_rate(preset.coding_rate()).tx_power(region.max_tx_power())
    }

    pub fn frequency(self, frequency: u32) -> (c: Self)
        ensures
            c == (RadioConfig { frequency, ..self }),
    {
        let mut c = self;
        c.frequency = frequency;
        c
    }

    pub fn bandwidth(self, bandwidth: u32) -> (c: Self)
        ensures
            c == (RadioConfig { bandwidth, ..self }),
    {
        let mut c = self;
        c.bandwidth = bandwidth;
        c
    }

    pub fn spread_factor(self, sf: u8) -> (c: Self)
        ensures
            c == (RadioConfig { sf, ..self }),
    {
        let mut c = self;
        c.sf = sf;
        c
    }

    pub fn coding_rate(self, cr: u8) -> (c: Self)
        ensures
            c == (RadioConfig { cr, ..self }),
    {
        let mut c = self;
        c.cr = cr;
        c
    }

    pub fn tx_power(self, tx_power: u8) -> (c: Self)
        ensures
            c == (RadioConfig { tx_power, ..self }),
    {
        let mut c = self;
        c.tx_power = tx_power;
        c
    }

    /// "Split Packet" framing implemented in RNode combining larger messages into (max.) two LoRa
    /// packets. This gives us a larger MTU than the "native" LoRa one (255 bytes).
    ///
    /// ```text
    /// 508 bytes MTU = (255 bytes MTU * 2 packets) - (1 byte split packet header * 2 packets)
    /// ```
    pub fn split_packet_mode(self, mode: bool) -> (c: Self)
        ensures
            c == (RadioConfig { split_packet_mode: mode, ..self }),
    {
        let mut c = self;
        c.split_packet_mode = mode;
        c
    }
}

impl Default for RadioConfig {
    /// The default preset (long range, fast) in the default region (EU868).
    fn default() -> (c: Self)
        ensures
            c == preset_config(Region::EU868, Preset::LongFast),
    {
        Self::from_preset(Region::EU868, Preset::LongFast)
    }
}

/// The tx power of a preset configuration is the highest that its region
/// allows, and split packets are off.
pub proof fn lemma_preset_within_region(region: Region, preset: Preset)
    ensures
        preset_config(region, preset).tx_power == region.spec_max_tx_power(),
        preset_config(region, preset).frequency == region.spec_frequency(),
        !preset_config(region, preset).split_packet_mode,
        7 <= preset_config(region, preset).sf <= 12,
        preset_config(region, preset).cr == 5 || preset_config(region, preset).cr == 8,
{
}

/// The regions' frequencies (Hz) and transmit-power limits (dBm).
pub proof fn lemma_region_table()
    ensures
        Region::EU433.spec_frequency() == 433_000_000u32,
        Region::EU868.spec_frequency() == 868_000_000u32,
        Region::US.spec_frequency() == 915_000_000u32,
        Region::EU433.spec_max_tx_power() == 10u8,
        Region::EU868.spec_max_tx_power() == 27u8,
        Region::US.spec_max_tx_power() == 30u8,
{
}

/// Every preset's bandwidth (Hz), coding rate and spreading factor.
pub proof fn lemma_preset_table()
    ensures
        Preset::ShortSlow.spec_bandwidth() == 250_000u32,
        Preset::ShortFast.spec_bandwidth() == 250_000u32,
        Preset::ShortTurbo.spec_bandwidth() == 500_000u32,
        Preset::MediumSlow.spec_bandwidth() == 250_000u32,
        Preset::MediumFast.spec_bandwidth() == 250_000u32,
        Preset::LongModerate.spec_bandwidth() == 125_000u32,
        Preset::LongSlow.spec_bandwidth() == 125_000u32,
        Preset::LongFast.spec_bandwidth() == 250_000u32,
        Preset::LongTurbo.spec_bandwidth() == 500_000u32,
        Preset::ShortSlow.spec_coding_rate() == 5u8,
        Preset::ShortFast.spec_coding_rate() == 5u8,
        Preset::ShortTurbo.spec_coding_rate() == 5u8,
        Preset::MediumSlow.spec_coding_rate() == 5u8,
        Preset::MediumFast.spec_coding_rate() == 5u8,
        Preset::LongModerate.spec_coding_rate() == 8u8,
        Preset::LongSlow.spec_coding_rate() == 8u8,
        Preset::LongFast.spec_coding_rate() == 5u8,
        Preset::LongTurbo.spec_coding_rate() == 8u8,
        Preset::ShortSlow.spec_spread_factor() == 8u8,
        Preset::ShortFast.spec_spread_factor() == 7u8,
        Preset::ShortTurbo.spec_spread_factor() == 7u8,
        Preset::MediumSlow.spec_spread_factor() == 10u8,
        Preset::MediumFast.spec_spread_factor() == 9u8,
        Preset::LongModerate.spec_spread_factor() == 11u8,
        Preset::LongSlow.spec_spread_factor() == 12u8,
        Preset::LongFast.spec_spread_factor() == 11u8,
        Preset::LongTurbo.spec_spread_factor() == 11u8,
{
}

/// The configuration of a preset in a region, field by field: the region's
/// frequency and power limit with the preset's bandwidth, spreading factor and
/// coding rate, split packets off. For instance medium range, fast, in EU868 is
/// 868 MHz, 250 kHz, SF 9, CR 5, 27 dBm.
pub proof fn lemma_from_preset_fields(region: Region, preset: Preset)
    ensures
        preset_config(region, preset).frequency == match region {
            Region::EU433 => 433_000_000u32,
            Region::EU868 => 868_000_000u32,
            Region::US => 915_000_000u32,
        },
        preset_config(region, preset).tx_power == match region {
            Region::EU433 => 10u8,
            Region::EU868 => 27u8,
            Region::US => 30u8,
        },
        preset_config(region, preset).bandwidth == match preset {
            Preset::LongModerate | Preset::LongSlow => 125_000u32,
            Preset::ShortTurbo | Preset::LongTurbo => 500_000u32,
            _ => 250_000u32,
        },
        preset_config(region, preset).sf == match preset {
            Preset::ShortFast | Preset::ShortTurbo => 7u8,
            Preset::ShortSlow => 8u8,
            Preset::MediumFast => 9u8,
            Preset::MediumSlow => 10u8,
            Preset::LongSlow => 12u8,
            _ => 11u8,
        },
        preset_config(region, preset).cr == match preset {
            Preset::LongModerate | Preset::LongSlow | Preset::LongTurbo => 8u8,
            _ => 5u8,
        },
        !preset_config(region, preset).split_packet_mode,
{
}

} // verus!
