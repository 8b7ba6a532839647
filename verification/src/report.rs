use crate::config::RadioConfig;
use crate::rnode::{
    CMD_BANDWIDTH, CMD_CR, CMD_DATA, CMD_FREQUENCY, CMD_RADIO_LOCK, CMD_RADIO_STATE, CMD_RANDOM,
    CMD_SF, CMD_STAT_CHTM, CMD_STAT_PHYPRM, CMD_STAT_RSSI, CMD_STAT_RX, CMD_STAT_SNR, CMD_STAT_TX,
    CMD_TXPOWER,
};
use vstd::prelude::*;

verus! {

/// Link statistics, as counted by the host and as reported by the RNode.
#[derive(Clone, Copy, Debug, PartialEq, Eq)]
pub struct Stats {
    /// Data packets sent.
    pub tx: u32,
    /// Data packets received.
    pub rx: u32,
    /// Bytes sent.
    pub tx_bytes: u32,
    /// Bytes received.
    pub rx_bytes: u32,
    /// Received signal strength indicator (RSSI).
    ///
    /// Measurement of the power present in a received radio signal.
    pub rssi: u8,
    /// Signal-to-noise ratio (SNR).
    ///
    /// Ratio between the received power signal and the noise floor power level. If SNR is greater
    /// than 0, the received signal operates above the noise floor.
    ///
    /// Typical LoRa SNR values are between -20dB and +10dB.
    pub snr: u8,
    /// Airtime.
    pub ats: u16,
    /// Longterm airtime.
    pub atl: u16,
    /// Total channel utilization.
    pub cls: u16,
    /// Longterm channel utilization.
    pub cll: u16,
    /// Current RSSI (+ RSSI offset of 157).
    pub crs: u8,
    /// Noise floor (+ RSSI offset of 157).
    pub nfl: u8,
    /// Set to current RSSI if interference detected, otherwise 0xFF (255).
    pub ntf: u8,
    /// LoRa symbol time (ms).
    pub lst: u16,
    /// LoRa symbol rate.
    pub lsr: u16,
    /// LoRa preamble symbols.
    pub prs: u16,
    /// LoRa preamble time (ms).
    pub prt: u16,
    /// CSMA slot (ms).
    pub cst: u16,
    /// DIFS (ms).
    pub dft: u16,
}

/// Statistics with every counter and reading zero.
pub open spec fn zero_stats() -> Stats {
    Stats {
        tx: 0,
        rx: 0,
        tx_bytes: 0,
        rx_bytes: 0,
        rssi: 0,
        snr: 0,
        ats: 0,
        atl: 0,
        cls: 0,
        cll: 0,
        crs: 0,
        nfl: 0,
        ntf: 0,
        lst: 0,
        lsr: 0,
        prs: 0,
        prt: 0,
        cst: 0,
        dft: 0,
    }
}

impl Default for Stats {
    fn default() -> (s: Self)
        ensures
            s == zero_stats(),
    {
        Stats {
            tx: 0,
            rx: 0,
            tx_bytes: 0,
            rx_bytes: 0,
            rssi: 0,
            snr: 0,
            ats: 0,
            atl: 0,
            cls: 0,
            cll: 0,
            crs: 0,
            nfl: 0,
            ntf: 0,
            lst: 0,
            lsr: 0,
            prs: 0,
            prt: 0,
            cst: 0,
            dft: 0,
        }
    }
}

/// What the host knows of the radio: the parameters the RNode last reported
/// (`None` until it reports one), its state, and the link statistics.
#[derive(Clone, Copy, Debug, PartialEq, Eq)]
pub struct Report {
    pub frequency: Option<u32>,
    pub bandwidth: Option<u32>,
    pub sf: Option<u8>,
    pub cr: Option<u8>,
    pub tx_power: Option<u8>,
    pub radio_state: bool,
    pub radio_lock: bool,
    pub stats: Stats,
    pub random: u8,
}

/// A report that holds nothing yet.
pub open spec fn empty_report() -> Report {
    Report {
        frequency: None,
        bandwidth: None,
        sf: None,
        cr: None,
        tx_power: None,
        radio_state: false,
        radio_lock: false,
        stats: zero_stats(),
        random: 0,
    }
}

/// A reported value agrees with the configured one, or nothing was reported.
pub open spec fn agrees<T>(reported: Option<T>, configured: T) -> bool {
    match reported {
        Some(v) => v == configured,
        None => true,
    }
}

/// `x + y` modulo 2^32, as a counter adds.
pub open spec fn wrapped_sum(x: u32, y: u32) -> u32 {
    ((x + y) % 0x1_0000_0000) as u32
}

/// The unsigned big-endian number of four bytes.
pub open spec fn be_u32(p: Seq<u8>) -> u32 {
    (p[0] * 0x100_0000 + p[1] * 0x1_0000 + p[2] * 0x100 + p[3]) as u32
}

/// The four bytes of `v`, most significant first.
pub open spec fn be_bytes(v: u32) -> Seq<u8> {
    seq![
        (v / 0x100_0000) as u8,
        ((v / 0x1_0000) % 0x100) as u8,
        ((v / 0x100) % 0x100) as u8,
        (v % 0x100) as u8,
    ]
}

/// Reading back the big-endian bytes of a number gives the number.
pub proof fn lemma_be_roundtrip(v: u32)
    ensures
        be_bytes(v).len() == 4,
        be_u32(be_bytes(v)) == v,
{
    let b = be_bytes(v);
    assert(b[0] == v / 0x100_0000);
    assert(b[1] == (v / 0x1_0000) % 0x100);
    assert(b[2] == (v / 0x100) % 0x100);
    assert(b[3] == v % 0x100);
    assert(v == (v / 0x100_0000) * 0x100_0000 + ((v / 0x1_0000) % 0x100) * 0x1_0000 + ((v / 0x100)
        % 0x100) * 0x100 + v % 0x100) by (nonlinear_arith);
}

/// The four bytes of `v`, most significant first.
pub fn u32_to_be_bytes(v: u32) -> (b: [u8; 4])
    ensures
        b@ == be_bytes(v),
{
    let b: [u8; 4] = [
        (v / 0x100_0000) as u8,
        ((v / 0x1_0000) % 0x100) as u8,
        ((v / 0x100) % 0x100) as u8,
        (v % 0x100) as u8,
    ];
    assert(b@ =~= be_bytes(v));
    b
}

/// The unsigned big-endian number of two bytes.
pub open spec fn be_u16(hi: u8, lo: u8) -> u16 {
    (hi * 0x100 + lo) as u16
}

/// The report after the RNode sent a frame with this command and payload.
/// Frames whose payload has another length than the command carries, and
/// commands that carry nothing the report keeps, leave it unchanged.
pub open spec fn applied(r: Report, command: u8, p: Seq<u8>) -> Report {
    if command == CMD_DATA {
        Report {
            stats: Stats {
                rx: wrapped_sum(r.stats.rx, 1),
                rx_bytes: wrapped_sum(r.stats.rx_bytes, p.len() as u32),
                ..r.stats
            },
            ..r
        }
    } else if command == CMD_FREQUENCY {
        if p.len() == 4 {
            Report { frequency: Some(be_u32(p)), ..r }
        } else {
            r
        }
    } else if command == CMD_BANDWIDTH {
        if p.len() == 4 {
            Report { bandwidth: Some(be_u32(p)), ..r }
        } else {
            r
        }
    } else if p.len() == 0 {
        r
    } else if command == CMD_TXPOWER {
        Report { tx_power: Some(p.last()), ..r }
    } else if command == CMD_SF {
        Report { sf: Some(p.last()), ..r }
    } else if command == CMD_CR {
        Report { cr: Some(p.last()), ..r }
    } else if command == CMD_RADIO_STATE {
        Report { radio_state: p.last() != 0, ..r }
    } else if command == CMD_RADIO_LOCK {
        Report { radio_lock: p.last() != 0, ..r }
    } else if command == CMD_STAT_RX {
        if p.len() == 4 {
            Report { stats: Stats { rx: be_u32(p), ..r.stats }, ..r }
        } else {
            r
        }
    } else if command == CMD_STAT_TX {
        if p.len() == 4 {
            Report { stats: Stats { tx: be_u32(p), ..r.stats }, ..r }
        } else {
            r
        }
    } else if command == CMD_STAT_RSSI {
        Report { stats: Stats { rssi: p.last(), ..r.stats }, ..r }
    } else if command == CMD_STAT_SNR {
        Report { stats: Stats { snr: p.last(), ..r.stats }, ..r }
    } else if command == CMD_STAT_CHTM {
        if p.len() == 11 {
            Report {
                stats: Stats {
                    ats: be_u16(p[0], p[1]),
                    atl: be_u16(p[2], p[3]),
                    cls: be_u16(p[4], p[5]),
                    cll: be_u16(p[6], p[7]),
                    crs: p[8],
                    nfl: p[9],
                    ntf: p[10],
                    ..r.stats
                },
                ..r
            }
        } else {
            r
        }
    } else if command == CMD_STAT_PHYPRM {
        if p.len() == 12 {
            Report {
                stats: Stats {
                    lst: be_u16(p[0], p[1]),
                    lsr: be_u16(p[2], p[3]),
                    prs: be_u16(p[4], p[5]),
                    prt: be_u16(p[6], p[7]),
                    cst: be_u16(p[8], p[9]),
                    dft: be_u16(p[10], p[11]),
                    ..r.stats
                },
                ..r
            }
        } else {
            r
        }
    } else if command == CMD_RANDOM {
        Report { random: p.last(), ..r }
    } else {
        r
    }
}

/// Until the RNode reports a parameter, it counts as agreeing: a report that
/// holds nothing yet agrees with every configuration.
pub proof fn lemma_empty_report_verifies(config: RadioConfig)
    ensures
        empty_report().spec_verify(config),
{
}

/// The unsigned big-endian number in four bytes.
fn read_be_u32(p: &Vec<u8>) -> (v: u32)
    requires
        p@.len() == 4,
    ensures
        v == be_u32(p@),
{
    (p[0] as u32) * 0x100_0000 + (p[1] as u32) * 0x1_0000 + (p[2] as u32) * 0x100 + (p[3] as u32)
}

/// The unsigned big-endian number in two bytes.
fn read_be_u16(hi: u8, lo: u8) -> (v: u16)
    ensures
        v == be_u16(hi, lo),
{
    (hi as u16) * 0x100 + (lo as u16)
}

impl Report {
    pub open spec fn spec_verify(self, config: RadioConfig) -> bool {
        &&& agrees(self.frequency, config.frequency)
        &&& agrees(self.bandwidth, config.bandwidth)
        &&& agrees(self.sf, config.sf)
        &&& agrees(self.cr, config.cr)
        &&& agrees(self.tx_power, config.tx_power)
    }

    /// A report that holds nothing yet.
    pub fn new() -> (r: Self)
        ensures
            r == empty_report(),
    {
        Report {
            frequency: None,
            bandwidth: None,
            sf: None,
            cr: None,
            tx_power: None,
            radio_state: false,
            radio_lock: false,
            stats: Stats::default(),
            random: 0,
        }
    }

    pub fn set_frequency(&mut self, frequency: u32)
        ensures
            *final(self) == (Report { frequency: Some(frequency), ..*old(self) }),
    {
        self.frequency = Some(frequency);
    }

    pub fn set_bandwidth(&mut self, bandwidth: u32)
        ensures
            *final(self) == (Report { bandwidth: Some(bandwidth), ..*old(self) }),
    {
        self.bandwidth = Some(bandwidth);
    }

    pub fn set_spreading_factor(&mut self, sf: u8)
        ensures
            *final(self) == (Report { sf: Some(sf), ..*old(self) }),
    {
        self.sf = Some(sf);
    }

    pub fn set_coding_rate(&mut self, cr: u8)
        ensures
            *final(self) == (Report { cr: Some(cr), ..*old(self) }),
    {
        self.cr = Some(cr);
    }

    pub fn set_tx_power(&mut self, tx_power: u8)
        ensures
            *final(self) == (Report { tx_power: Some(tx_power), ..*old(self) }),
    {
        self.tx_power = Some(tx_power);
    }

    pub fn set_radio_state(&mut self, state: bool)
        ensures
            *final(self) == (Report { radio_state: state, ..*old(self) }),
    {
        self.radio_state = state;
    }

    pub fn set_radio_lock(&mut self, state: bool)
        ensures
            *final(self) == (Report { radio_lock: state, ..*old(self) }),
    {
        self.radio_lock = state;
    }

    /// Counts one received data packet of `bytes` bytes. The counters wrap
    /// around at 2^32.
    pub fn inc_stat_rx(&mut self, bytes: u32)
        ensures
            *final(self) == (Report {
                stats: Stats {
                    rx: wrapped_sum(old(self).stats.rx, 1),
                    rx_bytes: wrapped_sum(old(self).stats.rx_bytes, bytes),
                    ..old(self).stats
                },
                ..*old(self)
            }),
    {
        self.stats.rx = self.stats.rx.wrapping_add(1);
        self.stats.rx_bytes = self.stats.rx_bytes.wrapping_add(bytes);
    }

    /// Counts one sent data packet of `bytes` bytes. The counters wrap
    /// around at 2^32.
    pub fn inc_stat_tx(&mut self, bytes: u32)
        ensures
            *final(self) == (Report {
                stats: Stats {
                    tx: wrapped_sum(old(self).stats.tx, 1),
                    tx_bytes: wrapped_sum(old(self).stats.tx_bytes, bytes),
                    ..old(self).stats
                },
                ..*old(self)
            }),
    {
        self.stats.tx = self.stats.tx.wrapping_add(1);
        self.stats.tx_bytes = self.stats.tx_bytes.wrapping_add(bytes);
    }

    pub fn set_stat_rx(&mut self, rx: u32)
        ensures
            *final(self) == (Report { stats: Stats { rx, ..old(self).stats }, ..*old(self) }),
    {
        self.stats.rx = rx;
    }

    pub fn set_stat_tx(&mut self, tx: u32)
        ensures
            *final(self) == (Report { stats: Stats { tx, ..old(self).stats }, ..*old(self) }),
    {
        self.stats.tx = tx;
    }

    pub fn set_stat_rssi(&mut self, rssi: u8)
        ensures
            *final(self) == (Report { stats: Stats { rssi, ..old(self).stats }, ..*old(self) }),
    {
        self.stats.rssi = rssi;
    }

    pub fn set_stat_snr(&mut self, snr: u8)
        ensures
            *final(self) == (Report { stats: Stats { snr, ..old(self).stats }, ..*old(self) }),
    {
        self.stats.snr = snr;
    }

    /// Records the channel statistics that the RNode reported.
    #[allow(clippy::too_many_arguments)]
    pub fn set_stat_chtm(
        &mut self,
        ats: u16,
        atl: u16,
        cls: u16,
        cll: u16,
        crs: u8,
        nfl: u8,
        ntf: u8,
    )
        ensures
            *final(self) == (Report {
                stats: Stats { ats, atl, cls, cll, crs, nfl, ntf, ..old(self).stats },
                ..*old(self)
            }),
    {
        self.stats.ats = ats;
        self.stats.atl = atl;
        self.stats.cls = cls;
        self.stats.cll = cll;
        self.stats.crs = crs;
        self.stats.nfl = nfl;
        self.stats.ntf = ntf;
    }

    /// Records the physical-layer parameters that the RNode reported.
    #[allow(clippy::too_many_arguments)]
    pub fn set_stat_phyprm(&mut self, lst: u16, lsr: u16, prs: u16, prt: u16, cst: u16, dft: u16)
        ensures
            *final(self) == (Report {
                stats: Stats { lst, lsr, prs, prt, cst, dft, ..old(self).stats },
                ..*old(self)
            }),
    {
        self.stats.lst = lst;
        self.stats.lsr = lsr;
        self.stats.prs = prs;
        self.stats.prt = prt;
        self.stats.cst = cst;
        self.stats.dft = dft;
    }

    pub fn set_random(&mut self, value: u8)
        ensures
            *final(self) == (Report { random: value, ..*old(self) }),
    {
        self.random = value;
    }

    /// Whether every parameter that the RNode reported agrees with `config`.
    /// A parameter that it has not reported yet counts as agreeing.
    pub fn verify(&self, config: &RadioConfig) -> (ok: bool)
        ensures
            ok == self.spec_verify(*config),
    {
        if let Some(frequency) = self.frequency {
            if config.frequency != frequency {
                return false;
            }
        }
        if let Some(bandwidth) = self.bandwidth {
            if config.bandwidth != bandwidth {
                return false;
            }
        }
        if let Some(sf) = self.sf {
            if config.sf != sf {
                return false;
            }
        }
        if let Some(cr) = self.cr {
            if config.cr != cr {
                return false;
            }
        }
        if let Some(tx_power) = self.tx_power {
            if config.tx_power != tx_power {
                return false;
            }
        }
        true
    }

    /// The link statistics.
    pub fn stats(&self) -> (s: Stats)
        ensures
            s == self.stats,
    {
        self.stats
    }

    /// Takes in a frame that the RNode sent: updates the report from it, and
    /// hands back the payload of a data frame.
    pub fn apply_frame(&mut self, command: u8, payload: Vec<u8>) -> (data: Option<Vec<u8>>)
        ensures
            *final(self) == applied(*old(self), command, payload@),
            data == (if command == CMD_DATA {
                Some(payload)
            } else {
                None
            }),
    {
        let mut buffer = payload;
        if command == CMD_DATA {
            let len = buffer.len();
            self.inc_stat_rx(len as u32);
            return Some(buffer);
        } else if command == CMD_FREQUENCY {
            if buffer.len() == 4 {
                let frequency = read_be_u32(&buffer);
                self.set_frequency(frequency);
            }
        } else if command == CMD_BANDWIDTH {
            if buffer.len() == 4 {
                let bandwidth = read_be_u32(&buffer);
                self.set_bandwidth(bandwidth);
            }
        } else if command == CMD_TXPOWER {
            if let Some(data) = buffer.pop() {
                self.set_tx_power(data);
            }
        } else if command == CMD_SF {
            if let Some(data) = buffer.pop() {
                self.set_spreading_factor(data);
            }
        } else if command == CMD_CR {
            if let Some(data) = buffer.pop() {
                self.set_coding_rate(data);
            }
        } else if command == CMD_RADIO_STATE {
            if let Some(data) = buffer.pop() {
                self.set_radio_state(data != 0x00);
            }
        } else if command == CMD_RADIO_LOCK {
            if let Some(data) = buffer.pop() {
                self.set_radio_lock(data != 0x00);
            }
        } else if command == CMD_STAT_RX {
            if buffer.len() == 4 {
                let stat_rx = read_be_u32(&buffer);
                self.set_stat_rx(stat_rx);
            }
        } else if command == CMD_STAT_TX {
            if buffer.len() == 4 {
                let stat_tx = read_be_u32(&buffer);
                self.set_stat_tx(stat_tx);
            }
        } else if command == CMD_STAT_RSSI {
            if let Some(data) = buffer.pop() {
                self.set_stat_rssi(data);
            }
        } else if command == CMD_STAT_SNR {
            if let Some(data) = buffer.pop() {
                self.set_stat_snr(data);
            }
        } else if command == CMD_STAT_CHTM {
            if buffer.len() == 11 {
                let ats = read_be_u16(buffer[0], buffer[1]);
                let atl = read_be_u16(buffer[2], buffer[3]);
                let cls = read_be_u16(buffer[4], buffer[5]);
                let cll = read_be_u16(buffer[6], buffer[7]);
                self.set_stat_chtm(ats, atl, cls, cll, buffer[8], buffer[9], buffer[10]);
            }
        } else if command == CMD_STAT_PHYPRM {
            if buffer.len() == 12 {
                let lst = read_be_u16(buffer[0], buffer[1]);
                let lsr = read_be_u16(buffer[2], buffer[3]);
                let prs = read_be_u16(buffer[4], buffer[5]);
                let prt = read_be_u16(buffer[6], buffer[7]);
                let cst = read_be_u16(buffer[8], buffer[9]);
                let dft = read_be_u16(buffer[10], buffer[11]);
                self.set_stat_phyprm(lst, lsr, prs, prt, cst, dft);
            }
        } else if command == CMD_RANDOM {
            if let Some(data) = buffer.pop() {
                self.set_random(data);
            }
        }
        None
    }
}

/// `verify` holds exactly when each parameter that the RNode reported equals
/// the configured one: a reported frequency, bandwidth, spreading factor,
/// coding rate or transmit power that differs makes it false.
pub proof fn lemma_verify_fields(r: Report, c: RadioConfig)
    ensures
        r.spec_verify(c) <==> {
            &&& (r.frequency is Some ==> r.frequency->0 == c.frequency)
            &&& (r.bandwidth is Some ==> r.bandwidth->0 == c.bandwidth)
            &&& (r.sf is Some ==> r.sf->0 == c.sf)
            &&& (r.cr is Some ==> r.cr->0 == c.cr)
            &&& (r.tx_power is Some ==> r.tx_power->0 == c.tx_power)
        },
        r.frequency is Some && r.frequency->0 != c.frequency ==> !r.spec_verify(c),
        r.bandwidth is Some && r.bandwidth->0 != c.bandwidth ==> !r.spec_verify(c),
        r.sf is Some && r.sf->0 != c.sf ==> !r.spec_verify(c),
        r.cr is Some && r.cr->0 != c.cr ==> !r.spec_verify(c),
        r.tx_power is Some && r.tx_power->0 != c.tx_power ==> !r.spec_verify(c),
{
}

/// What each parameter reply does to the report, by its command byte: a
/// four-byte frequency (0x01) or bandwidth (0x02) reply sets that parameter to
/// the big-endian number; a transmit power (0x03), spreading factor (0x04) or
/// coding rate (0x05) reply sets it to the reply's last byte; a radio state
/// (0x06) or lock (0x07) reply sets it to whether the last byte is non-zero;
/// a random-byte reply (0x40) keeps the last byte. Nothing else changes.
pub proof fn lemma_parameter_replies(r: Report, p: Seq<u8>)
    ensures
        p.len() == 4 ==> applied(r, 0x01u8, p) == (Report {
            frequency: Some(((p[0] * 0x100_0000 + p[1] * 0x1_0000 + p[2] * 0x100 + p[3]) as u32)),
            ..r
        }),
        p.len() == 4 ==> applied(r, 0x02u8, p) == (Report {
            bandwidth: Some(((p[0] * 0x100_0000 + p[1] * 0x1_0000 + p[2] * 0x100 + p[3]) as u32)),
            ..r
        }),
        p.len() != 4 ==> applied(r, 0x01u8, p) == r && applied(r, 0x02u8, p) == r,
        p.len() > 0 ==> applied(r, 0x03u8, p) == (Report { tx_power: Some(p[p.len() - 1]), ..r }),
        p.len() > 0 ==> applied(r, 0x04u8, p) == (Report { sf: Some(p[p.len() - 1]), ..r }),
        p.len() > 0 ==> applied(r, 0x05u8, p) == (Report { cr: Some(p[p.len() - 1]), ..r }),
        p.len() > 0 ==> applied(r, 0x06u8, p) == (Report {
            radio_state: p[p.len() - 1] != 0,
            ..r
        }),
        p.len() > 0 ==> applied(r, 0x07u8, p) == (Report {
            radio_lock: p[p.len() - 1] != 0,
            ..r
        }),
        p.len() > 0 ==> applied(r, 0x40u8, p) == (Report { random: p[p.len() - 1], ..r }),
        p.len() == 0 ==> applied(r, 0x03u8, p) == r && applied(r, 0x04u8, p) == r && applied(
            r,
            0x05u8,
            p,
        ) == r && applied(r, 0x06u8, p) == r && applied(r, 0x07u8, p) == r && applied(
            r,
            0x40u8,
            p,
        ) == r,
{
}

/// What each statistics reply does to the report, by its command byte: the
/// packet counters (0x21 received, 0x22 sent) from four big-endian bytes; the
/// RSSI (0x23) and SNR (0x24) from the last byte; the channel statistics
/// (0x25) from eleven bytes: four big-endian 16-bit numbers, then three
/// bytes; the physical-layer parameters (0x26) from six big-endian 16-bit
/// numbers. Every other field stays as it was.
pub proof fn lemma_statistics_replies(r: Report, p: Seq<u8>)
    ensures
        p.len() == 4 ==> applied(r, 0x21u8, p) == (Report {
            stats: Stats {
                rx: ((p[0] * 0x100_0000 + p[1] * 0x1_0000 + p[2] * 0x100 + p[3]) as u32),
                ..r.stats
            },
            ..r
        }),
        p.len() == 4 ==> applied(r, 0x22u8, p) == (Report {
            stats: Stats {
                tx: ((p[0] * 0x100_0000 + p[1] * 0x1_0000 + p[2] * 0x100 + p[3]) as u32),
                ..r.stats
            },
            ..r
        }),
        p.len() > 0 ==> applied(r, 0x23u8, p) == (Report {
            stats: Stats { rssi: p[p.len() - 1], ..r.stats },
            ..r
        }),
        p.len() > 0 ==> applied(r, 0x24u8, p) == (Report {
            stats: Stats { snr: p[p.len() - 1], ..r.stats },
            ..r
        }),
        p.len() == 11 ==> applied(r, 0x25u8, p) == (Report {
            stats: Stats {
                ats: ((p[0] * 0x100 + p[1]) as u16),
                atl: ((p[2] * 0x100 + p[3]) as u16),
                cls: ((p[4] * 0x100 + p[5]) as u16),
                cll: ((p[6] * 0x100 + p[7]) as u16),
                crs: p[8],
                nfl: p[9],
                ntf: p[10],
                ..r.stats
            },
            ..r
        }),
        p.len() == 12 ==> applied(r, 0x26u8, p) == (Report {
            stats: Stats {
                lst: ((p[0] * 0x100 + p[1]) as u16),
                lsr: ((p[2] * 0x100 + p[3]) as u16),
                prs: ((p[4] * 0x100 + p[5]) as u16),
                prt: ((p[6] * 0x100 + p[7]) as u16),
                cst: ((p[8] * 0x100 + p[9]) as u16),
                dft: ((p[10] * 0x100 + p[11]) as u16),
                ..r.stats
            },
            ..r
        }),
        p.len() != 4 ==> applied(r, 0x21u8, p) == r && applied(r, 0x22u8, p) == r,
        p.len() == 0 ==> applied(r, 0x23u8, p) == r && applied(r, 0x24u8, p) == r,
        p.len() != 11 ==> applied(r, 0x25u8, p) == r,
        p.len() != 12 ==> applied(r, 0x26u8, p) == r,
{
}

/// A data frame (0x00) counts one received packet and its length in bytes,
/// modulo 2^32, and changes nothing else.
pub proof fn lemma_data_reply(r: Report, p: Seq<u8>)
    ensures
        applied(r, 0x00u8, p) == (Report {
            stats: Stats {
                rx: ((r.stats.rx + 1) % 0x1_0000_0000) as u32,
                rx_bytes: ((r.stats.rx_bytes + (p.len() as u32)) % 0x1_0000_0000) as u32,
                ..r.stats
            },
            ..r
        }),
{
}

/// Replies that carry nothing the report keeps leave it as it was: the
/// battery (0x27), temperature (0x29), ready (0x0F) and error (0x90) replies,
/// and any command byte that is not one of the parameter, statistics, random
/// or data commands.
pub proof fn lemma_other_replies(r: Report, command: u8, p: Seq<u8>)
    requires
        command != 0x00u8 && command != 0x01u8 && command != 0x02u8 && command != 0x03u8 && command
            != 0x04u8 && command != 0x05u8 && command != 0x06u8 && command != 0x07u8 && command
            != 0x21u8 && command != 0x22u8 && command != 0x23u8 && command != 0x24u8 && command
            != 0x25u8 && command != 0x26u8 && command != 0x40u8,
    ensures
        applied(r, command, p) == r,
{
}

} // verus!
