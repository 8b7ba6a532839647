use crate::config::{RadioConfig, SINGLE_MTU, SPLIT_PACKET_MTU, TIMEOUT_MILLIS};
use crate::decoder::{
    decoded_frames, decoded_payload, escaped_frame, feed_all, idle_state, is_escaped_command,
    lemma_escaped_frame_roundtrip, lemma_feed_concat, lemma_raw_frame_roundtrip,
    lemma_stream_roundtrip, raw_frame, step, wire_stream, DecoderState, FrameDecoder,
    UNSET_COMMAND,
};
use crate::error::{payload_too_large_description, Error, ErrorKind};
use crate::kiss::{escape_slice, lemma_escape_len, occurrences, KISS, FEND};
use crate::report::{
    applied, be_bytes, lemma_be_roundtrip, u32_to_be_bytes, wrapped_sum, Report, Stats,
};
use crate::rnode::{
    CMD_BANDWIDTH, CMD_CR, CMD_DATA, CMD_FREQUENCY, CMD_PROMISC, CMD_RADIO_STATE, CMD_SF,
    CMD_STAT_CHTM, CMD_STAT_PHYPRM, CMD_STAT_RX, CMD_TXPOWER,
};
use vstd::prelude::*;

verus! {

/// The report after the frames, applied in order.
pub open spec fn apply_all(r: Report, frames: Seq<(u8, Seq<u8>)>) -> Report
    decreases frames.len(),
{
    if frames.len() == 0 {
        r
    } else {
        let last = frames.last();
        applied(apply_all(r, frames.drop_last()), last.0, last.1)
    }
}

/// The payloads of the data frames among `frames`, in order.
pub open spec fn data_payloads(frames: Seq<(u8, Seq<u8>)>) -> Seq<Seq<u8>>
    decreases frames.len(),
{
    if frames.len() == 0 {
        Seq::empty()
    } else {
        let last = frames.last();
        if last.0 == CMD_DATA {
            data_payloads(frames.drop_last()).push(last.1)
        } else {
            data_payloads(frames.drop_last())
        }
    }
}

/// What a stream of bytes from the RNode does: the receiver's state after
/// it, the report after it, and the data packets received.
pub open spec fn received(d: DecoderState, r: Report, bytes: Seq<u8>) -> (
    DecoderState,
    Report,
    Seq<Seq<u8>>,
) {
    let (d1, frames) = feed_all(d, bytes);
    (d1, apply_all(r, frames), data_payloads(frames))
}

/// The largest payload that one `send` takes: 508 bytes with split-packet
/// framing, else the 255 bytes of a single LoRa packet.
pub open spec fn payload_limit(config: RadioConfig) -> nat {
    if config.split_packet_mode {
        SPLIT_PACKET_MTU as nat
    } else {
        SINGLE_MTU as nat
    }
}

/// The report after one more data packet of `n` bytes was sent.
pub open spec fn counted_tx(r: Report, n: nat) -> Report {
    Report {
        stats: Stats {
            tx: wrapped_sum(r.stats.tx, 1),
            tx_bytes: wrapped_sum(r.stats.tx_bytes, n as u32),
            ..r.stats
        },
        ..r
    }
}

/// The frames that set up the radio, in the order they are written.
pub open spec fn init_frames(config: RadioConfig) -> Seq<Seq<u8>> {
    seq![
        escaped_frame(CMD_FREQUENCY, be_bytes(config.frequency)),
        escaped_frame(CMD_BANDWIDTH, be_bytes(config.bandwidth)),
        raw_frame(CMD_TXPOWER, seq![config.tx_power]),
        raw_frame(CMD_SF, seq![config.sf]),
        raw_frame(CMD_CR, seq![config.cr]),
        raw_frame(CMD_RADIO_STATE, seq![1u8]),
    ]
}

/// The logic of an interface to an RNode, apart from the serial port: the
/// configuration to set, the frames to write, and what the frames read from
/// the RNode do.
pub struct RNodeSession {
    pub config: RadioConfig,
    pub report: Report,
    pub decoder: FrameDecoder,
}

/// A frame of `command` with `payload` KISS-escaped.
fn escaped_frame_of(command: u8, payload: &[u8]) -> (frame: Vec<u8>)
    requires
        payload@.len() <= SPLIT_PACKET_MTU,
    ensures
        frame@ == escaped_frame(command, payload@),
{
    let mut frame: Vec<u8> = Vec::new();
    frame.push(KISS::FEND.byte());
    frame.push(command);
    proof {
        lemma_escape_len(payload@);
    }
    let escaped = escape_slice(payload);
    frame.extend_from_slice(escaped.as_slice());
    frame.push(KISS::FEND.byte());
    assert(frame@ =~= escaped_frame(command, payload@));
    frame
}

/// A frame of `command` with the one-byte payload `value`, not escaped.
fn raw_frame_of(command: u8, value: u8) -> (frame: Vec<u8>)
    ensures
        frame@ == raw_frame(command, seq![value]),
{
    let frame = vec![KISS::FEND.byte(), command, value, KISS::FEND.byte()];
    assert(frame@ =~= raw_frame(command, seq![value]));
    frame
}

impl RNodeSession {
    /// A session for `config`, with nothing reported and no frame begun.
    pub fn new(config: RadioConfig) -> (s: Self)
        ensures
            s.config == config,
            s.report == crate::report::empty_report(),
            s.decoder@ == idle_state(),
    {
        RNodeSession { config, report: Report::new(), decoder: FrameDecoder::new() }
    }

    /// The frame that sends `data`, counted as sent; a payload larger than
    /// the MTU (508 bytes with split-packet framing, else 255) is refused and
    /// nothing changes.
    pub fn send(&mut self, data: &[u8]) -> (r: Result<Vec<u8>, Error>)
        ensures
            match r {
                Ok(frame) => {
                    &&& data@.len() <= payload_limit(old(self).config)
                    &&& frame@ == escaped_frame(CMD_DATA, data@)
                    &&& final(self).report == counted_tx(old(self).report, data@.len())
                    &&& final(self).config == old(self).config
                    &&& final(self).decoder == old(self).decoder
                },
                Err(e) => {
                    &&& data@.len() > payload_limit(old(self).config)
                    &&& e.kind == ErrorKind::PayloadTooLarge
                    &&& e.description@ == payload_too_large_description(
                        old(self).config.split_packet_mode,
                    )
                    &&& *final(self) == *old(self)
                },
            },
    {
        let mtu = if self.config.split_packet_mode {
            SPLIT_PACKET_MTU
        } else {
            SINGLE_MTU
        };
        if data.len() > mtu {
            return Err(Error::from_kind(ErrorKind::PayloadTooLarge, self.config.split_packet_mode));
        }
        let command = escaped_frame_of(CMD_DATA, data);
        self.report.inc_stat_tx(data.len() as u32);
        Ok(command)
    }

    /// Whether every parameter that the RNode reported agrees with the
    /// configuration.
    pub fn verify(&self) -> (ok: bool)
        ensures
            ok == self.report.spec_verify(self.config),
    {
        self.report.verify(&self.config)
    }

    /// The link statistics.
    pub fn stats(&self) -> (s: Stats)
        ensures
            s == self.report.stats,
    {
        self.report.stats()
    }

    /// Takes in one byte read from the RNode; returns the payload of the
    /// data packet that the byte completes, if any.
    pub fn receive(&mut self, byte: u8) -> (data: Option<Vec<u8>>)
        ensures
            final(self).decoder@ == step(old(self).decoder@, byte).0,
            final(self).config == old(self).config,
            final(self).report == match step(old(self).decoder@, byte).1 {
                Some((c, p)) => applied(old(self).report, c, p),
                None => old(self).report,
            },
            match step(old(self).decoder@, byte).1 {
                Some((c, p)) => if c == CMD_DATA {
                    data is Some && data.unwrap()@ == p
                } else {
                    data is None
                },
                None => data is None,
            },
    {
        match self.decoder.feed(byte) {
            Some((command, payload)) => self.report.apply_frame(command, payload),
            None => None,
        }
    }

    /// The serial link has been silent for longer than the timeout.
    pub fn timeout(&mut self)
        ensures
            final(self).decoder@ == if old(self).decoder@.buffer.len() == 0 {
                old(self).decoder@
            } else {
                idle_state()
            },
            final(self).config == old(self).config,
            final(self).report == old(self).report,
    {
        self.decoder.timeout();
    }

    /// The frame that sets the frequency.
    pub fn set_frequency(&self) -> (frame: Vec<u8>)
        ensures
            frame@ == escaped_frame(CMD_FREQUENCY, be_bytes(self.config.frequency)),
    {
        let bytes = u32_to_be_bytes(self.config.frequency);
        escaped_frame_of(CMD_FREQUENCY, bytes.as_slice())
    }

    /// The frame that sets the bandwidth.
    pub fn set_bandwidth(&self) -> (frame: Vec<u8>)
        ensures
            frame@ == escaped_frame(CMD_BANDWIDTH, be_bytes(self.config.bandwidth)),
    {
        let bytes = u32_to_be_bytes(self.config.bandwidth);
        escaped_frame_of(CMD_BANDWIDTH, bytes.as_slice())
    }

    /// The frame that sets the spreading factor.
    pub fn set_spreading_factor(&self) -> (frame: Vec<u8>)
        ensures
            frame@ == raw_frame(CMD_SF, seq![self.config.sf]),
    {
        raw_frame_of(CMD_SF, self.config.sf)
    }

    /// The frame that sets the transmit power.
    pub fn set_tx_power(&self) -> (frame: Vec<u8>)
        ensures
            frame@ == raw_frame(CMD_TXPOWER, seq![self.config.tx_power]),
    {
        raw_frame_of(CMD_TXPOWER, self.config.tx_power)
    }

    /// The frame that sets the coding rate.
    pub fn set_coding_rate(&self) -> (frame: Vec<u8>)
        ensures
            frame@ == raw_frame(CMD_CR, seq![self.config.cr]),
    {
        raw_frame_of(CMD_CR, self.config.cr)
    }

    /// The frame that turns the radio on or off.
    pub fn set_radio_state(&self, state: bool) -> (frame: Vec<u8>)
        ensures
            frame@ == raw_frame(
                CMD_RADIO_STATE,
                seq![
                    if state {
                        1u8
                    } else {
                        0u8
                    },
                ],
            ),
    {
        raw_frame_of(
            CMD_RADIO_STATE,
            if state {
                0x01
            } else {
                0x00
            },
        )
    }

    /// The frame that turns promiscuous mode on or off.
    pub fn set_promiscuous_mode(&self, mode: bool) -> (frame: Vec<u8>)
        ensures
            frame@ == raw_frame(
                CMD_PROMISC,
                seq![
                    if mode {
                        1u8
                    } else {
                        0u8
                    },
                ],
            ),
    {
        raw_frame_of(
            CMD_PROMISC,
            if mode {
                0x01
            } else {
                0x00
            },
        )
    }

    /// The frame that asks for the channel statistics.
    pub fn get_channel_stats(&self) -> (frame: Vec<u8>)
        ensures
            frame@ == raw_frame(CMD_STAT_CHTM, seq![0xFFu8]),
    {
        raw_frame_of(CMD_STAT_CHTM, 0xFF)
    }

    /// The frame that asks for the physical-layer parameters.
    pub fn get_phy_stats(&self) -> (frame: Vec<u8>)
        ensures
            frame@ == raw_frame(CMD_STAT_PHYPRM, seq![0xFFu8]),
    {
        raw_frame_of(CMD_STAT_PHYPRM, 0xFF)
    }

    /// The frames that set up the radio, in the order to write them:
    /// frequency, bandwidth, transmit power, spreading factor, coding rate,
    /// and the radio turned on.
    pub fn init_commands(&self) -> (frames: Vec<Vec<u8>>)
        ensures
            frames@.len() == 6,
            forall|i: int| 0 <= i < 6 ==> #[trigger] frames@[i]@ == init_frames(self.config)[i],
    {
        let mut frames: Vec<Vec<u8>> = Vec::new();
        frames.push(self.set_frequency());
        frames.push(self.set_bandwidth());
        frames.push(self.set_tx_power());
        frames.push(self.set_spreading_factor());
        frames.push(self.set_coding_rate());
        frames.push(self.set_radio_state(true));
        frames
    }
}

proof fn lemma_apply_all_concat(r: Report, a: Seq<(u8, Seq<u8>)>, b: Seq<(u8, Seq<u8>)>)
    ensures
        apply_all(r, a + b) == apply_all(apply_all(r, a), b),
    decreases b.len(),
{
    if b.len() == 0 {
        assert(a + b =~= a);
    } else {
        lemma_apply_all_concat(r, a, b.drop_last());
        assert((a + b).drop_last() =~= a + b.drop_last());
    }
}

proof fn lemma_data_payloads_concat(a: Seq<(u8, Seq<u8>)>, b: Seq<(u8, Seq<u8>)>)
    ensures
        data_payloads(a + b) == data_payloads(a) + data_payloads(b),
    decreases b.len(),
{
    if b.len() == 0 {
        assert(a + b =~= a);
        assert(data_payloads(a) + data_payloads(b) =~= data_payloads(a));
    } else {
        lemma_data_payloads_concat(a, b.drop_last());
        assert((a + b).drop_last() =~= a + b.drop_last());
        if b.last().0 == CMD_DATA {
            assert((data_payloads(a) + data_payloads(b.drop_last())).push(b.last().1)
                =~= data_payloads(a) + data_payloads(b.drop_last()).push(b.last().1));
        }
    }
}

/// Reading two streams one after the other is reading their concatenation.
pub proof fn lemma_received_concat(d: DecoderState, r: Report, a: Seq<u8>, b: Seq<u8>)
    ensures
        received(d, r, a + b) == ({
            let (d1, r1, p1) = received(d, r, a);
            let (d2, r2, p2) = received(d1, r1, b);
            (d2, r2, p1 + p2)
        }),
{
    lemma_feed_concat(d, a, b);
    let (d1, f1) = feed_all(d, a);
    let (d2, f2) = feed_all(d1, b);
    lemma_apply_all_concat(r, f1, f2);
    lemma_data_payloads_concat(f1, f2);
}

/// Reading one more byte does to the report and to the packets received what
/// `RNodeSession::receive` does with that byte.
pub proof fn lemma_received_step(d: DecoderState, r: Report, bytes: Seq<u8>, byte: u8)
    ensures
        received(d, r, bytes.push(byte)) == ({
            let (d1, r1, data) = received(d, r, bytes);
            let (d2, frame) = step(d1, byte);
            match frame {
                Some((c, p)) => (
                    d2,
                    applied(r1, c, p),
                    if c == CMD_DATA {
                        data.push(p)
                    } else {
                        data
                    },
                ),
                None => (d2, r1, data),
            }
        }),
{
    assert(bytes.push(byte).drop_last() =~= bytes);
    let (d1, frames) = feed_all(d, bytes);
    let (d2, frame) = step(d1, byte);
    match frame {
        Some(x) => {
            assert(frames.push(x).drop_last() =~= frames);
        },
        None => {},
    }
}

proof fn lemma_single_frame(r: Report, command: u8, payload: Seq<u8>)
    ensures
        apply_all(r, seq![(command, payload)]) == applied(r, command, payload),
        data_payloads(seq![(command, payload)]) == if command == CMD_DATA {
            seq![payload]
        } else {
            Seq::<Seq<u8>>::empty()
        },
{
    let f = seq![(command, payload)];
    assert(f.drop_last() =~= Seq::<(u8, Seq<u8>)>::empty());
    assert(apply_all(r, Seq::<(u8, Seq<u8>)>::empty()) == r);
    assert(data_payloads(Seq::<(u8, Seq<u8>)>::empty()) == Seq::<Seq<u8>>::empty());
    assert(Seq::<Seq<u8>>::empty().push(payload) =~= seq![payload]);
}

/// What a data frame that `send` writes does when it comes back: a receiver
/// between frames, with no escape pending, delivers exactly the payload that
/// was sent, whatever bytes it holds, counts it as received, and is between
/// frames again.
pub proof fn lemma_loopback(d: DecoderState, r: Report, payload: Seq<u8>)
    requires
        !d.in_frame,
        !d.escape,
    ensures
        received(d, r, escaped_frame(CMD_DATA, payload)) == (
            idle_state(),
            applied(r, CMD_DATA, payload),
            seq![payload],
        ),
{
    lemma_escaped_frame_roundtrip(d, CMD_DATA, payload);
    lemma_single_frame(r, CMD_DATA, payload);
}

proof fn lemma_occurrences_single(v: u8, b: u8)
    ensures
        occurrences(seq![v], b) == if v == b {
            1nat
        } else {
            0nat
        },
{
    assert(seq![v].drop_last() =~= Seq::<u8>::empty());
    assert(occurrences(Seq::<u8>::empty(), b) == 0);
}

proof fn lemma_echo_raw(r: Report, command: u8, v: u8)
    requires
        !is_escaped_command(command),
        command != FEND,
        command != UNSET_COMMAND,
        v != FEND,
    ensures
        received(idle_state(), r, raw_frame(command, seq![v])) == (
            idle_state(),
            applied(r, command, seq![v]),
            Seq::<Seq<u8>>::empty(),
        ),
{
    lemma_occurrences_single(v, FEND);
    lemma_raw_frame_roundtrip(idle_state(), command, seq![v]);
    lemma_single_frame(r, command, seq![v]);
}

proof fn lemma_echo_escaped(r: Report, command: u8, v: u32)
    requires
        is_escaped_command(command),
        command != CMD_DATA,
    ensures
        received(idle_state(), r, escaped_frame(command, be_bytes(v))) == (
            idle_state(),
            applied(r, command, be_bytes(v)),
            Seq::<Seq<u8>>::empty(),
        ),
{
    lemma_escaped_frame_roundtrip(idle_state(), command, be_bytes(v));
    lemma_single_frame(r, command, be_bytes(v));
}

/// When the RNode echoes back the frames that set up the radio, the report
/// holds the configured frequency, bandwidth, transmit power, spreading
/// factor and coding rate, the radio counts as on, and `verify` holds. The
/// transmit power, spreading factor and coding rate go out unescaped, as
/// single bytes, so a configuration in which one of them is the frame end
/// byte ends its frame early and is left out.
pub proof fn lemma_init_echo_verifies(r: Report, config: RadioConfig)
    requires
        config.tx_power != FEND,
        config.sf != FEND,
        config.cr != FEND,
    ensures
        ({
            let f = init_frames(config);
            let (d, r1, data) = received(
                idle_state(),
                r,
                f[0] + f[1] + f[2] + f[3] + f[4] + f[5],
            );
            &&& d == idle_state()
            &&& data.len() == 0
            &&& r1.spec_verify(config)
            &&& r1.radio_state
            &&& r1.frequency == Some(config.frequency)
            &&& r1.bandwidth == Some(config.bandwidth)
        }),
{
    let f = init_frames(config);
    let i = idle_state();
    let e = Seq::<Seq<u8>>::empty();
    assert(e + e =~= e);
    lemma_be_roundtrip(config.frequency);
    lemma_be_roundtrip(config.bandwidth);
    let s1 = f[0];
    let s2 = s1 + f[1];
    let s3 = s2 + f[2];
    let s4 = s3 + f[3];
    let s5 = s4 + f[4];
    let s6 = s5 + f[5];
    lemma_echo_escaped(r, CMD_FREQUENCY, config.frequency);
    let r1 = applied(r, CMD_FREQUENCY, be_bytes(config.frequency));
    assert(received(i, r, s1) == (i, r1, e));
    assert(r1.frequency == Some(config.frequency));
    lemma_echo_escaped(r1, CMD_BANDWIDTH, config.bandwidth);
    let r2 = applied(r1, CMD_BANDWIDTH, be_bytes(config.bandwidth));
    lemma_received_concat(i, r, s1, f[1]);
    assert(received(i, r, s2) == (i, r2, e));
    assert(r2.frequency == Some(config.frequency) && r2.bandwidth == Some(config.bandwidth));
    lemma_echo_raw(r2, CMD_TXPOWER, config.tx_power);
    let r3 = applied(r2, CMD_TXPOWER, seq![config.tx_power]);
    lemma_received_concat(i, r, s2, f[2]);
    assert(received(i, r, s3) == (i, r3, e));
    assert(r3.frequency == r2.frequency && r3.bandwidth == r2.bandwidth && r3.tx_power == Some(
        config.tx_power,
    ));
    lemma_echo_raw(r3, CMD_SF, config.sf);
    let r4 = applied(r3, CMD_SF, seq![config.sf]);
    lemma_received_concat(i, r, s3, f[3]);
    assert(received(i, r, s4) == (i, r4, e));
    assert(r4 == Report { sf: Some(config.sf), ..r3 });
    lemma_echo_raw(r4, CMD_CR, config.cr);
    let r5 = applied(r4, CMD_CR, seq![config.cr]);
    lemma_received_concat(i, r, s4, f[4]);
    assert(received(i, r, s5) == (i, r5, e));
    assert(r5 == Report { cr: Some(config.cr), ..r4 });
    lemma_echo_raw(r5, CMD_RADIO_STATE, 1u8);
    let r6 = applied(r5, CMD_RADIO_STATE, seq![1u8]);
    lemma_received_concat(i, r, s5, f[5]);
    assert(received(i, r, s6) == (i, r6, e));
    assert(r6 == Report { radio_state: true, ..r5 });
    assert(r6.spec_verify(config));
}

/// Whether the serial link has been silent for longer than the timeout,
/// given how long it has been silent in nanoseconds.
pub fn silence_exceeded(elapsed_nanos: u128) -> (exceeded: bool)
    ensures
        exceeded == (elapsed_nanos > TIMEOUT_MILLIS * 1_000_000),
{
    elapsed_nanos > (TIMEOUT_MILLIS as u128) * 1_000_000
}

/// How many of the frames are data frames.
pub open spec fn data_count(frames: Seq<(u8, Seq<u8>)>) -> nat
    decreases frames.len(),
{
    if frames.len() == 0 {
        0
    } else {
        data_count(frames.drop_last()) + if frames.last().0 == CMD_DATA {
            1nat
        } else {
            0nat
        }
    }
}

/// The sum of the lengths of the data frames' payloads, each taken modulo
/// 2^32 as the byte counter takes it.
pub open spec fn data_byte_sum(frames: Seq<(u8, Seq<u8>)>) -> nat
    decreases frames.len(),
{
    if frames.len() == 0 {
        0
    } else {
        data_byte_sum(frames.drop_last()) + if frames.last().0 == CMD_DATA {
            (frames.last().1.len() as u32) as nat
        } else {
            0nat
        }
    }
}

proof fn lemma_wrap_step(a: int, s: int, y: int)
    requires
        0 <= a,
        0 <= s,
        0 <= y < 0x1_0000_0000,
    ensures
        (((a + s) % 0x1_0000_0000) + y) % 0x1_0000_0000 == (a + (s + y)) % 0x1_0000_0000,
{
    vstd::arithmetic::div_mod::lemma_add_mod_noop(a + s, y, 0x1_0000_0000);
    vstd::arithmetic::div_mod::lemma_small_mod(y as nat, 0x1_0000_0000);
    vstd::arithmetic::div_mod::lemma_mod_twice(a + s, 0x1_0000_0000);
    assert(a + s + y == a + (s + y));
}

/// Over frames that do not set the received-packet counter, the report
/// counts one received packet per data frame and adds each data payload's
/// length to the received bytes, both modulo 2^32.
proof fn lemma_apply_all_counts(r: Report, frames: Seq<(u8, Seq<u8>)>)
    requires
        forall|i: int| 0 <= i < frames.len() ==> #[trigger] frames[i].0 != CMD_STAT_RX,
    ensures
        apply_all(r, frames).stats.rx == (r.stats.rx + data_count(frames)) % 0x1_0000_0000,
        apply_all(r, frames).stats.rx_bytes == (r.stats.rx_bytes + data_byte_sum(frames))
            % 0x1_0000_0000,
    decreases frames.len(),
{
    if frames.len() == 0 {
        vstd::arithmetic::div_mod::lemma_small_mod(r.stats.rx as nat, 0x1_0000_0000);
        vstd::arithmetic::div_mod::lemma_small_mod(r.stats.rx_bytes as nat, 0x1_0000_0000);
    } else {
        let init = frames.drop_last();
        let last = frames.last();
        assert forall|i: int| 0 <= i < init.len() implies #[trigger] init[i].0 != CMD_STAT_RX by {
            assert(init[i] == frames[i]);
        }
        assert(last == frames[frames.len() - 1]);
        lemma_apply_all_counts(r, init);
        let r1 = apply_all(r, init);
        if last.0 == CMD_DATA {
            lemma_wrap_step(r.stats.rx as int, data_count(init) as int, 1);
            lemma_wrap_step(
                r.stats.rx_bytes as int,
                data_byte_sum(init) as int,
                (last.1.len() as u32) as int,
            );
        }
    }
}

/// What a stream of frames from the RNode does: one frame after another,
/// with any command byte but the frame end, the unset command and the
/// received-packet statistic, each payload escaped. Starting between frames
/// with no escape pending, the data packets received are exactly the data
/// frames' payloads, in order; the received-packet counter grows by the
/// number of data frames and the received-byte counter by their payloads'
/// lengths, modulo 2^32; and the report is what each frame does, in order.
pub proof fn lemma_stream_received(d: DecoderState, r: Report, frames: Seq<(u8, Seq<u8>)>)
    requires
        !d.in_frame,
        !d.escape,
        forall|i: int|
            0 <= i < frames.len() ==> #[trigger] frames[i].0 != FEND && frames[i].0
                != UNSET_COMMAND && frames[i].0 != CMD_STAT_RX,
    ensures
        ({
            let (d1, r1, data) = received(d, r, wire_stream(frames));
            &&& d1 == if frames.len() == 0 {
                d
            } else {
                idle_state()
            }
            &&& data == data_payloads(frames)
            &&& r1 == apply_all(r, decoded_frames(frames))
            &&& r1.stats.rx == (r.stats.rx + data_count(frames)) % 0x1_0000_0000
            &&& r1.stats.rx_bytes == (r.stats.rx_bytes + data_byte_sum(frames)) % 0x1_0000_0000
        }),
{
    lemma_stream_roundtrip(d, frames);
    let dec = decoded_frames(frames);
    assert forall|i: int| 0 <= i < dec.len() implies #[trigger] dec[i].0 != CMD_STAT_RX by {
        assert(dec[i].0 == frames[i].0);
    }
    lemma_apply_all_counts(r, dec);
    lemma_decoded_counts(frames);
}

proof fn lemma_decoded_counts(frames: Seq<(u8, Seq<u8>)>)
    ensures
        data_payloads(decoded_frames(frames)) == data_payloads(frames),
        data_count(decoded_frames(frames)) == data_count(frames),
        data_byte_sum(decoded_frames(frames)) == data_byte_sum(frames),
    decreases frames.len(),
{
    if frames.len() > 0 {
        let init = frames.drop_last();
        lemma_decoded_counts(init);
        assert(decoded_frames(frames).drop_last() =~= decoded_frames(init));
        let last = frames.last();
        assert(decoded_frames(frames).last() == (last.0, decoded_payload(last.0, last.1)));
    }
}

/// A channel-statistics reply (0x25) of eleven bytes, escaped as the RNode
/// sends it, reaches the report whatever bytes it holds: airtime, long-term
/// airtime, channel load and long-term channel load from four big-endian
/// 16-bit numbers, then current RSSI, noise floor and interference. No data
/// packet is delivered, and the receiver is between frames again.
pub proof fn lemma_channel_stats_received(d: DecoderState, r: Report, p: Seq<u8>)
    requires
        !d.in_frame,
        !d.escape,
        p.len() == 11,
    ensures
        ({
            let (d1, r1, data) = received(d, r, escaped_frame(0x25u8, p));
            &&& d1 == idle_state()
            &&& data.len() == 0
            &&& r1.stats.ats == p[0] * 0x100 + p[1]
            &&& r1.stats.atl == p[2] * 0x100 + p[3]
            &&& r1.stats.cls == p[4] * 0x100 + p[5]
            &&& r1.stats.cll == p[6] * 0x100 + p[7]
            &&& r1.stats.crs == p[8]
            &&& r1.stats.nfl == p[9]
            &&& r1.stats.ntf == p[10]
            &&& r1 == (Report {
                stats: Stats {
                    ats: r1.stats.ats,
                    atl: r1.stats.atl,
                    cls: r1.stats.cls,
                    cll: r1.stats.cll,
                    crs: r1.stats.crs,
                    nfl: r1.stats.nfl,
                    ntf: r1.stats.ntf,
                    ..r.stats
                },
                ..r
            })
        }),
{
    lemma_escaped_frame_roundtrip(d, 0x25u8, p);
    lemma_single_frame(r, 0x25u8, p);
    assert(p[0] * 0x100 + p[1] <= 0xFFFF);
    assert(p[2] * 0x100 + p[3] <= 0xFFFF);
    assert(p[4] * 0x100 + p[5] <= 0xFFFF);
    assert(p[6] * 0x100 + p[7] <= 0xFFFF);
}

} // verus!
