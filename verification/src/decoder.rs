use crate::kiss::{
    escape_byte, kiss_escape, lemma_escape_is_frame_body, occurrences, FEND, FESC, TFEND, TFESC,
};
use crate::rnode::{CMD_BANDWIDTH, CMD_DATA, CMD_FREQUENCY, CMD_STAT_CHTM, CMD_STAT_RX, CMD_STAT_TX};
use vstd::prelude::*;

verus! {

/// The command byte of a frame whose command has not been read yet.
pub const UNSET_COMMAND: u8 = 0xFF;

/// The state of the receiver of KISS frames from the RNode, as a value.
pub struct DecoderState {
    /// The last byte was a frame escape.
    pub escape: bool,
    /// The command of the frame being received, or `UNSET_COMMAND`.
    pub command: u8,
    /// A frame has begun and has not ended.
    pub in_frame: bool,
    /// The payload received so far.
    pub buffer: Seq<u8>,
}

/// The state between frames, with no escape pending.
pub open spec fn idle_state() -> DecoderState {
    DecoderState { escape: false, command: UNSET_COMMAND, in_frame: false, buffer: Seq::empty() }
}

/// Commands whose payload the RNode sends KISS-escaped.
pub open spec fn is_escaped_command(command: u8) -> bool {
    command == CMD_DATA || command == CMD_FREQUENCY || command == CMD_BANDWIDTH || command
        == CMD_STAT_RX || command == CMD_STAT_TX || command == CMD_STAT_CHTM
}

/// The byte that an escaped byte stands for.
pub open spec fn unescaped(byte: u8) -> u8 {
    if byte == TFEND {
        FEND
    } else if byte == TFESC {
        FESC
    } else {
        byte
    }
}

/// One byte from the serial link: the next state, and the frame (command and
/// payload) that this byte completes, if it completes one.
pub open spec fn step(d: DecoderState, byte: u8) -> (DecoderState, Option<(u8, Seq<u8>)>) {
    if !d.in_frame && byte == FEND {
        (DecoderState { command: UNSET_COMMAND, in_frame: true, buffer: Seq::empty(), ..d }, None)
    } else if d.in_frame && byte != FEND {
        if d.buffer.len() == 0 && d.command == UNSET_COMMAND {
            (DecoderState { command: byte, ..d }, None)
        } else if is_escaped_command(d.command) {
            if byte == FESC {
                (DecoderState { escape: true, ..d }, None)
            } else if d.escape {
                (DecoderState { escape: false, buffer: d.buffer.push(unescaped(byte)), ..d }, None)
            } else {
                (DecoderState { buffer: d.buffer.push(byte), ..d }, None)
            }
        } else {
            (DecoderState { buffer: d.buffer.push(byte), ..d }, None)
        }
    } else if d.in_frame && byte == FEND {
        (
            DecoderState {
                command: UNSET_COMMAND,
                in_frame: false,
                buffer: Seq::empty(),
                ..d
            },
            Some((d.command, d.buffer)),
        )
    } else {
        (d, None)
    }
}

/// A stream of bytes from the serial link, one after the other: the final
/// state and the frames completed, in order.
pub open spec fn feed_all(d: DecoderState, bytes: Seq<u8>) -> (DecoderState, Seq<(u8, Seq<u8>)>)
    decreases bytes.len(),
{
    if bytes.len() == 0 {
        (d, Seq::empty())
    } else {
        let (d1, frames) = feed_all(d, bytes.drop_last());
        let (d2, frame) = step(d1, bytes.last());
        (
            d2,
            match frame {
                Some(f) => frames.push(f),
                None => frames,
            },
        )
    }
}

/// A frame whose payload goes out KISS-escaped.
pub open spec fn escaped_frame(command: u8, payload: Seq<u8>) -> Seq<u8> {
    seq![FEND, command] + kiss_escape(payload) + seq![FEND]
}

/// A frame whose payload goes out as it is.
pub open spec fn raw_frame(command: u8, payload: Seq<u8>) -> Seq<u8> {
    seq![FEND, command] + payload + seq![FEND]
}

/// Receiver of the KISS frames that the RNode sends.
pub struct FrameDecoder {
    escape: bool,
    command: u8,
    in_frame: bool,
    buffer: Vec<u8>,
}

impl View for FrameDecoder {
    type V = DecoderState;

    closed spec fn view(&self) -> DecoderState {
        DecoderState {
            escape: self.escape,
            command: self.command,
            in_frame: self.in_frame,
            buffer: self.buffer@,
        }
    }
}

impl FrameDecoder {
    /// A receiver between frames.
    pub fn new() -> (d: Self)
        ensures
            d@ == idle_state(),
    {
        FrameDecoder { escape: false, command: UNSET_COMMAND, in_frame: false, buffer: Vec::new() }
    }

    /// Takes in one byte from the serial link; returns the command and
    /// payload of the frame that the byte completes, if any.
    pub fn feed(&mut self, byte: u8) -> (frame: Option<(u8, Vec<u8>)>)
        ensures
            final(self)@ == step(old(self)@, byte).0,
            match frame {
                Some((c, p)) => step(old(self)@, byte).1 == Some((c, p@)),
                None => step(old(self)@, byte).1 is None,
            },
    {
        let mut byte = byte;
        if !self.in_frame && byte == FEND {
            self.command = UNSET_COMMAND;
            self.in_frame = true;
            self.buffer = Vec::new();
        } else if self.in_frame && byte != FEND {
            if self.buffer.len() == 0 && self.command == UNSET_COMMAND {
                self.command = byte;
            } else if self.command == CMD_DATA || self.command == CMD_FREQUENCY || self.command
                == CMD_BANDWIDTH || self.command == CMD_STAT_RX || self.command == CMD_STAT_TX
                || self.command == CMD_STAT_CHTM {
                if byte == FESC {
                    self.escape = true;
                } else {
                    if self.escape {
                        if byte == TFEND {
                            byte = FEND;
                        } else if byte == TFESC {
                            byte = FESC;
                        }
                        self.escape = false;
                    }
                    self.buffer.push(byte);
                }
            } else {
                self.buffer.push(byte);
            }
        } else if self.in_frame && byte == FEND {
            let command = self.command;
            let mut buffer = Vec::new();
            std::mem::swap(&mut buffer, &mut self.buffer);
            self.in_frame = false;
            self.command = UNSET_COMMAND;
            return Some((command, buffer));
        }
        None
    }

    /// The serial link has been silent for longer than the timeout: a frame
    /// that has begun to arrive is given up.
    pub fn timeout(&mut self)
        ensures
            final(self)@ == if old(self)@.buffer.len() == 0 {
                old(self)@
            } else {
                idle_state()
            },
    {
        if self.buffer.len() != 0 {
            self.escape = false;
            self.command = UNSET_COMMAND;
            self.in_frame = false;
            self.buffer = Vec::new();
        }
    }
}

/// Feeding two streams one after the other is feeding their concatenation.
pub proof fn lemma_feed_concat(d: DecoderState, a: Seq<u8>, b: Seq<u8>)
    ensures
        feed_all(d, a + b) == ({
            let (d1, f1) = feed_all(d, a);
            let (d2, f2) = feed_all(d1, b);
            (d2, f1 + f2)
        }),
    decreases b.len(),
{
    if b.len() == 0 {
        assert(a + b =~= a);
        let (d1, f1) = feed_all(d, a);
        assert(f1 + Seq::<(u8, Seq<u8>)>::empty() =~= f1);
    } else {
        lemma_feed_concat(d, a, b.drop_last());
        assert((a + b).drop_last() =~= a + b.drop_last());
        assert((a + b).last() == b.last());
        let (d1, f1) = feed_all(d, a);
        let (d2, f2) = feed_all(d1, b.drop_last());
        let (d3, f) = step(d2, b.last());
        match f {
            Some(x) => {
                assert((f1 + f2).push(x) =~= f1 + f2.push(x));
            },
            None => {},
        }
    }
}

proof fn lemma_feed_two(d: DecoderState, x: u8, y: u8)
    ensures
        feed_all(d, seq![x, y]) == ({
            let (d1, f1) = step(d, x);
            let (d2, f2) = step(d1, y);
            (
                d2,
                match (f1, f2) {
                    (Some(a), Some(b)) => seq![a, b],
                    (Some(a), None) => seq![a],
                    (None, Some(b)) => seq![b],
                    (None, None) => Seq::empty(),
                },
            )
        }),
{
    assert(seq![x, y].drop_last() =~= seq![x]);
    assert(seq![x].drop_last() =~= Seq::<u8>::empty());
    assert(feed_all(d, Seq::<u8>::empty()) == (d, Seq::<(u8, Seq<u8>)>::empty()));
    let (d1, f1) = step(d, x);
    let (d2, f2) = step(d1, y);
    assert(feed_all(d, seq![x]) == (d1, match f1 { Some(a) => Seq::<(u8, Seq<u8>)>::empty().push(a), None => Seq::<(u8, Seq<u8>)>::empty() }));
    match f1 {
        Some(a) => {
            assert(Seq::<(u8, Seq<u8>)>::empty().push(a) =~= seq![a]);
            match f2 {
                Some(b) => assert(seq![a].push(b) =~= seq![a, b]),
                None => {},
            }
        },
        None => {
            match f2 {
                Some(b) => assert(Seq::<(u8, Seq<u8>)>::empty().push(b) =~= seq![b]),
                None => {},
            }
        },
    }
}

proof fn lemma_feed_one(d: DecoderState, x: u8)
    ensures
        feed_all(d, seq![x]) == ({
            let (d1, f1) = step(d, x);
            (
                d1,
                match f1 {
                    Some(a) => seq![a],
                    None => Seq::empty(),
                },
            )
        }),
{
    assert(seq![x].drop_last() =~= Seq::<u8>::empty());
    assert(feed_all(d, Seq::<u8>::empty()) == (d, Seq::<(u8, Seq<u8>)>::empty()));
    let (d1, f1) = step(d, x);
    match f1 {
        Some(a) => assert(Seq::<(u8, Seq<u8>)>::empty().push(a) =~= seq![a]),
        None => {},
    }
}

/// Inside a frame of a command with escaped payload, the escaped form of a
/// payload adds exactly that payload to the buffer.
proof fn lemma_feed_escaped_body(d: DecoderState, p: Seq<u8>)
    requires
        d.in_frame,
        !d.escape,
        is_escaped_command(d.command),
        d.command != UNSET_COMMAND,
    ensures
        feed_all(d, kiss_escape(p)) == (DecoderState { buffer: d.buffer + p, ..d }, Seq::<
            (u8, Seq<u8>),
        >::empty()),
    decreases p.len(),
{
    if p.len() == 0 {
        assert(d.buffer + p =~= d.buffer);
    } else {
        let q = p.drop_last();
        let b = p.last();
        lemma_feed_escaped_body(d, q);
        assert(kiss_escape(p) == kiss_escape(q) + escape_byte(b));
        lemma_feed_concat(d, kiss_escape(q), escape_byte(b));
        let d1 = DecoderState { buffer: d.buffer + q, ..d };
        if b == FESC {
            lemma_feed_two(d1, FESC, TFESC);
        } else if b == FEND {
            lemma_feed_two(d1, FESC, TFEND);
        } else {
            lemma_feed_one(d1, b);
        }
        assert(d.buffer + q.push(b) =~= d.buffer + p);
        assert((d.buffer + q).push(b) =~= d.buffer + q.push(b));
        assert(q.push(b) =~= p);
        assert(Seq::<(u8, Seq<u8>)>::empty() + Seq::<(u8, Seq<u8>)>::empty() =~= Seq::<
            (u8, Seq<u8>),
        >::empty());
    }
}

/// Inside a frame, a payload without frame ends that is not unescaped adds
/// exactly that payload to the buffer.
proof fn lemma_feed_raw_body(d: DecoderState, p: Seq<u8>)
    requires
        d.in_frame,
        !is_escaped_command(d.command),
        d.command != UNSET_COMMAND,
        occurrences(p, FEND) == 0,
    ensures
        feed_all(d, p) == (DecoderState { buffer: d.buffer + p, ..d }, Seq::<
            (u8, Seq<u8>),
        >::empty()),
    decreases p.len(),
{
    if p.len() == 0 {
        assert(d.buffer + p =~= d.buffer);
    } else {
        let q = p.drop_last();
        lemma_feed_raw_body(d, q);
        assert((d.buffer + q).push(p.last()) =~= d.buffer + p);
    }
}

/// A frame that the library writes comes back out of a receiver between
/// frames, with no escape pending, as the same command and payload, leaving
/// the receiver between frames: for a command whose payload is escaped, the
/// payload is escaped on the way out and unescaped on the way in, whatever
/// bytes it holds.
pub proof fn lemma_escaped_frame_roundtrip(d: DecoderState, command: u8, payload: Seq<u8>)
    requires
        !d.in_frame,
        !d.escape,
        is_escaped_command(command),
    ensures
        feed_all(d, escaped_frame(command, payload)) == (idle_state(), seq![(command, payload)]),
{
    let head = seq![FEND, command];
    lemma_feed_two(d, FEND, command);
    let d1 = DecoderState { command, in_frame: true, buffer: Seq::empty(), ..d };
    assert(feed_all(d, head) == (d1, Seq::<(u8, Seq<u8>)>::empty()));
    lemma_feed_escaped_body(d1, payload);
    lemma_feed_concat(d, head, kiss_escape(payload));
    let d2 = DecoderState { buffer: Seq::<u8>::empty() + payload, ..d1 };
    assert(Seq::<u8>::empty() + payload =~= payload);
    lemma_feed_one(d2, FEND);
    lemma_feed_concat(d, head + kiss_escape(payload), seq![FEND]);
    assert(Seq::<(u8, Seq<u8>)>::empty() + Seq::<(u8, Seq<u8>)>::empty() + seq![(command, payload)]
        =~= seq![(command, payload)]);
}

/// The payload that the receiver hands back for a frame of `command` whose
/// payload was escaped: the payload itself where the command's payload is
/// unescaped on the way in, and its escaped bytes where it is not.
pub open spec fn decoded_payload(command: u8, payload: Seq<u8>) -> Seq<u8> {
    if is_escaped_command(command) {
        payload
    } else {
        kiss_escape(payload)
    }
}

/// Any command byte other than the frame end and the unset command, with an
/// escaped payload, makes one frame: the receiver hands back that command
/// and `decoded_payload` of it, and is between frames again.
pub proof fn lemma_frame_roundtrip(d: DecoderState, command: u8, payload: Seq<u8>)
    requires
        !d.in_frame,
        !d.escape,
        command != FEND,
        command != UNSET_COMMAND,
    ensures
        feed_all(d, escaped_frame(command, payload)) == (
            idle_state(),
            seq![(command, decoded_payload(command, payload))],
        ),
{
    if is_escaped_command(command) {
        lemma_escaped_frame_roundtrip(d, command, payload);
    } else {
        lemma_escape_is_frame_body(payload);
        lemma_raw_frame_roundtrip(d, command, kiss_escape(payload));
    }
}

/// Frames, one after the other, as they go over the wire.
pub open spec fn wire_stream(frames: Seq<(u8, Seq<u8>)>) -> Seq<u8>
    decreases frames.len(),
{
    if frames.len() == 0 {
        Seq::empty()
    } else {
        wire_stream(frames.drop_last()) + escaped_frame(frames.last().0, frames.last().1)
    }
}

/// What the receiver hands back for each frame.
pub open spec fn decoded_frames(frames: Seq<(u8, Seq<u8>)>) -> Seq<(u8, Seq<u8>)> {
    frames.map_values(|f: (u8, Seq<u8>)| (f.0, decoded_payload(f.0, f.1)))
}

/// A stream of frames, none with the frame end or the unset command as its
/// command byte, comes out of a receiver between frames as one frame for
/// each, in order, with the same commands and `decoded_payload`s.
pub proof fn lemma_stream_roundtrip(d: DecoderState, frames: Seq<(u8, Seq<u8>)>)
    requires
        !d.in_frame,
        !d.escape,
        forall|i: int|
            0 <= i < frames.len() ==> #[trigger] frames[i].0 != FEND && frames[i].0
                != UNSET_COMMAND,
    ensures
        feed_all(d, wire_stream(frames)) == (
            if frames.len() == 0 {
                d
            } else {
                idle_state()
            },
            decoded_frames(frames),
        ),
    decreases frames.len(),
{
    if frames.len() == 0 {
        assert(decoded_frames(frames) =~= Seq::<(u8, Seq<u8>)>::empty());
    } else {
        let init = frames.drop_last();
        let last = frames.last();
        assert forall|i: int| 0 <= i < init.len() implies #[trigger] init[i].0 != FEND && init[i].0
            != UNSET_COMMAND by {
            assert(init[i] == frames[i]);
        }
        lemma_stream_roundtrip(d, init);
        let d1 = if init.len() == 0 {
            d
        } else {
            idle_state()
        };
        assert(last == frames[frames.len() - 1]);
        lemma_frame_roundtrip(d1, last.0, last.1);
        lemma_feed_concat(d, wire_stream(init), escaped_frame(last.0, last.1));
        assert(decoded_frames(init) + seq![(last.0, decoded_payload(last.0, last.1))]
            =~= decoded_frames(frames));
    }
}

/// A frame of a command whose payload is not escaped comes back out of a
/// receiver between frames as the same command and payload, when the
/// payload holds no frame end.
pub proof fn lemma_raw_frame_roundtrip(d: DecoderState, command: u8, payload: Seq<u8>)
    requires
        !d.in_frame,
        !is_escaped_command(command),
        command != FEND,
        command != UNSET_COMMAND,
        occurrences(payload, FEND) == 0,
    ensures
        feed_all(d, raw_frame(command, payload)) == (
            DecoderState { escape: d.escape, ..idle_state() },
            seq![(command, payload)],
        ),
{
    let head = seq![FEND, command];
    lemma_feed_two(d, FEND, command);
    let d1 = DecoderState { command, in_frame: true, buffer: Seq::empty(), ..d };
    lemma_feed_raw_body(d1, payload);
    lemma_feed_concat(d, head, payload);
    let d2 = DecoderState { buffer: Seq::<u8>::empty() + payload, ..d1 };
    assert(Seq::<u8>::empty() + payload =~= payload);
    lemma_feed_one(d2, FEND);
    lemma_feed_concat(d, head + payload, seq![FEND]);
    assert(Seq::<(u8, Seq<u8>)>::empty() + Seq::<(u8, Seq<u8>)>::empty() + seq![(command, payload)]
        =~= seq![(command, payload)]);
}

/// The commands whose payload the receiver unescapes are data (0x00),
/// frequency (0x01), bandwidth (0x02), received and sent packet counts (0x21,
/// 0x22) and channel statistics (0x25): a frame of one of them, with any
/// payload escaped, comes back with exactly that payload.
pub proof fn lemma_unescaped_commands(d: DecoderState, command: u8, payload: Seq<u8>)
    requires
        !d.in_frame,
        !d.escape,
        command == 0x00u8 || command == 0x01u8 || command == 0x02u8 || command == 0x21u8 || command
            == 0x22u8 || command == 0x25u8,
    ensures
        feed_all(d, escaped_frame(command, payload)) == (idle_state(), seq![(command, payload)]),
{
    lemma_escaped_frame_roundtrip(d, command, payload);
}

/// Every other command byte but the frame end and the unset command keeps
/// its payload as it arrives: a frame of it whose payload was escaped comes
/// back with the escaped bytes, escape pairs and all.
pub proof fn lemma_raw_commands(d: DecoderState, command: u8, payload: Seq<u8>)
    requires
        !d.in_frame,
        !d.escape,
        command != 0xC0u8,
        command != 0xFFu8,
        command != 0x00u8 && command != 0x01u8 && command != 0x02u8 && command != 0x21u8 && command
            != 0x22u8 && command != 0x25u8,
    ensures
        feed_all(d, escaped_frame(command, payload)) == (
            idle_state(),
            seq![(command, kiss_escape(payload))],
        ),
{
    lemma_frame_roundtrip(d, command, payload);
}

} // verus!
