use bytes::BufMut;
use bytes::Bytes;
use bytes::BytesMut;
use vstd::prelude::*;

verus! {

/// Frame End.
pub const FEND: u8 = 0xC0;

/// Frame Escape.
pub const FESC: u8 = 0xDB;

/// Transposed Frame End.
pub const TFEND: u8 = 0xDC;

/// Transposed Frame Escape.
pub const TFESC: u8 = 0xDD;

#[verifier::external_type_specification]
#[verifier::external_body]
pub struct ExBytes(Bytes);

#[verifier::external_type_specification]
#[verifier::external_body]
pub struct ExBytesMut(BytesMut);

/// The bytes that a `bytes::Bytes` buffer holds, in order.
pub uninterp spec fn bytes_contents(b: Bytes) -> Seq<u8>;

/// The bytes that a `bytes::BytesMut` buffer holds, in order.
pub uninterp spec fn bytes_mut_contents(b: BytesMut) -> Seq<u8>;

/// `Bytes::copy_from_slice`: a new buffer that holds a copy of `data`.
#[verifier::external_body]
pub(crate) fn bytes_copy_from_slice(data: &[u8]) -> (b: Bytes)
    ensures
        bytes_contents(b) == data@,
{
    Bytes::copy_from_slice(data)
}

/// `<Bytes as Deref>::deref`: the bytes of the buffer as a slice.
#[verifier::external_body]
pub(crate) fn bytes_as_slice(b: &Bytes) -> (s: &[u8])
    ensures
        s@ == bytes_contents(*b),
{
    &**b
}

/// `BytesMut::with_capacity`: an empty buffer. The allocation panics above
/// `isize::MAX` bytes, which `requires` leaves out.
#[verifier::external_body]
fn bytes_mut_with_capacity(capacity: usize) -> (b: BytesMut)
    requires
        capacity <= isize::MAX,
    ensures
        bytes_mut_contents(b) == Seq::<u8>::empty(),
{
    BytesMut::with_capacity(capacity)
}

/// `BytesMut::extend_from_slice`: appends `extend` to the buffer.
#[verifier::external_body]
fn bytes_mut_extend_from_slice(b: &mut BytesMut, extend: &[u8])
    requires
        bytes_mut_contents(*old(b)).len() + extend@.len() <= isize::MAX,
    ensures
        bytes_mut_contents(*final(b)) == bytes_mut_contents(*old(b)) + extend@,
{
    b.extend_from_slice(extend)
}

/// `<BytesMut as BufMut>::put_u8`: appends one byte to the buffer.
#[verifier::external_body]
fn bytes_mut_put_u8(b: &mut BytesMut, n: u8)
    requires
        bytes_mut_contents(*old(b)).len() + 1 <= isize::MAX,
    ensures
        bytes_mut_contents(*final(b)) == bytes_mut_contents(*old(b)).push(n),
{
    b.put_u8(n)
}

/// `BytesMut::freeze`: the same bytes, as an immutable `Bytes`.
#[verifier::external_body]
fn bytes_mut_freeze(b: BytesMut) -> (r: Bytes)
    ensures
        bytes_contents(r) == bytes_mut_contents(b),
{
    b.freeze()
}

/// What one byte of payload becomes on the wire.
pub open spec fn escape_byte(b: u8) -> Seq<u8> {
    if b == FESC {
        seq![FESC, TFESC]
    } else if b == FEND {
        seq![FESC, TFEND]
    } else {
        seq![b]
    }
}

/// A payload as it is sent: each byte replaced by `escape_byte` of it.
pub open spec fn kiss_escape(s: Seq<u8>) -> Seq<u8>
    decreases s.len(),
{
    if s.len() == 0 {
        Seq::empty()
    } else {
        kiss_escape(s.drop_last()) + escape_byte(s.last())
    }
}

/// How many times `b` occurs in `s`.
pub open spec fn occurrences(s: Seq<u8>, b: u8) -> nat
    decreases s.len(),
{
    if s.len() == 0 {
        0
    } else {
        occurrences(s.drop_last(), b) + if s.last() == b {
            1nat
        } else {
            0nat
        }
    }
}

/// `s` with every occurrence of `from` replaced by the sequence `to`.
pub open spec fn replaced(s: Seq<u8>, from: u8, to: Seq<u8>) -> Seq<u8>
    decreases s.len(),
{
    if s.len() == 0 {
        Seq::empty()
    } else {
        replaced(s.drop_last(), from, to) + if s.last() == from {
            to
        } else {
            seq![s.last()]
        }
    }
}

proof fn lemma_replaced_concat(a: Seq<u8>, b: Seq<u8>, from: u8, to: Seq<u8>)
    ensures
        replaced(a + b, from, to) == replaced(a, from, to) + replaced(b, from, to),
    decreases b.len(),
{
    if b.len() == 0 {
        assert(a + b =~= a);
        assert(replaced(a, from, to) + replaced(b, from, to) =~= replaced(a, from, to));
    } else {
        lemma_replaced_concat(a, b.drop_last(), from, to);
        assert((a + b).drop_last() =~= a + b.drop_last());
        assert((a + b).last() == b.last());
        let tail = if b.last() == from {
            to
        } else {
            seq![b.last()]
        };
        assert(replaced(a, from, to) + replaced(b.drop_last(), from, to) + tail =~= replaced(
            a,
            from,
            to,
        ) + (replaced(b.drop_last(), from, to) + tail));
    }
}

proof fn lemma_replaced_len(s: Seq<u8>, from: u8, to: Seq<u8>)
    ensures
        replaced(s, from, to).len() + occurrences(s, from) == s.len() + occurrences(s, from)
            * to.len(),
    decreases s.len(),
{
    if s.len() == 0 {
        assert(0 * to.len() == 0) by (nonlinear_arith);
    } else {
        lemma_replaced_len(s.drop_last(), from, to);
        let c = occurrences(s.drop_last(), from);
        let k = to.len();
        assert((c + 1) * k == c * k + k) by (nonlinear_arith);
        if s.last() == from {
            assert(occurrences(s, from) == c + 1);
            assert(replaced(s, from, to).len() == replaced(s.drop_last(), from, to).len() + k);
        } else {
            assert(occurrences(s, from) == c);
            assert(replaced(s, from, to).len() == replaced(s.drop_last(), from, to).len() + 1);
        }
    }
}

proof fn lemma_replaced_absent(s: Seq<u8>, from: u8, to: Seq<u8>)
    requires
        occurrences(s, from) == 0,
    ensures
        replaced(s, from, to) == s,
    decreases s.len(),
{
    if s.len() > 0 {
        lemma_replaced_absent(s.drop_last(), from, to);
        assert(s.drop_last().push(s.last()) =~= s);
    }
}

proof fn lemma_occurrences_take(s: Seq<u8>, i: int, b: u8)
    requires
        0 <= i < s.len(),
    ensures
        occurrences(s.take(i + 1), b) == occurrences(s.take(i), b) + if s[i] == b {
            1nat
        } else {
            0nat
        },
        occurrences(s.take(i), b) <= i,
    decreases i,
{
    assert(s.take(i + 1).drop_last() =~= s.take(i));
    if i > 0 {
        lemma_occurrences_take(s, i - 1, b);
    } else {
        assert(s.take(0) =~= Seq::<u8>::empty());
    }
}

proof fn lemma_replaced_take(s: Seq<u8>, i: int, from: u8, to: Seq<u8>)
    requires
        0 <= i < s.len(),
    ensures
        replaced(s.take(i + 1), from, to) == replaced(s.take(i), from, to) + if s[i] == from {
            to
        } else {
            seq![s[i]]
        },
        replaced(s.take(i + 1), from, to).len() <= replaced(s, from, to).len(),
{
    assert(s.take(i + 1).drop_last() =~= s.take(i));
    lemma_replaced_concat(s.take(i + 1), s.skip(i + 1), from, to);
    assert(s.take(i + 1) + s.skip(i + 1) =~= s);
}

/// The second pass replaces only frame ends, which the first pass never
/// writes, so the two passes compose into `kiss_escape`.
proof fn lemma_escape_two_passes(s: Seq<u8>)
    ensures
        replaced(replaced(s, FESC, seq![FESC, TFESC]), FEND, seq![FESC, TFEND]) == kiss_escape(
            s,
        ),
    decreases s.len(),
{
    let esc = seq![FESC, TFESC];
    let end = seq![FESC, TFEND];
    if s.len() == 0 {
    } else {
        lemma_escape_two_passes(s.drop_last());
        let first = if s.last() == FESC {
            esc
        } else {
            seq![s.last()]
        };
        lemma_replaced_concat(replaced(s.drop_last(), FESC, esc), first, FEND, end);
        if s.last() == FESC {
            reveal_with_fuel(replaced, 3);
            assert(replaced(first, FEND, end) =~= esc);
        } else {
            reveal_with_fuel(replaced, 2);
            assert(first.drop_last() =~= Seq::<u8>::empty());
            assert(replaced(first, FEND, end) =~= escape_byte(s.last()));
        }
    }
}

/// The length of an escaped payload: one extra byte per escape byte and per
/// frame end.
pub proof fn lemma_escape_len(s: Seq<u8>)
    ensures
        kiss_escape(s).len() == s.len() + occurrences(s, FESC) + occurrences(s, FEND),
        kiss_escape(s).len() <= 2 * s.len(),
    decreases s.len(),
{
    if s.len() > 0 {
        lemma_escape_len(s.drop_last());
    }
}

/// A payload in which neither the frame end nor the escape byte occurs goes
/// out unchanged.
pub proof fn lemma_escape_plain(s: Seq<u8>)
    requires
        occurrences(s, FESC) == 0,
        occurrences(s, FEND) == 0,
    ensures
        kiss_escape(s) == s,
    decreases s.len(),
{
    if s.len() > 0 {
        lemma_escape_plain(s.drop_last());
        assert(s.drop_last().push(s.last()) =~= s);
    }
}

/// Escaping distributes over concatenation.
pub proof fn lemma_escape_concat(a: Seq<u8>, b: Seq<u8>)
    ensures
        kiss_escape(a + b) == kiss_escape(a) + kiss_escape(b),
    decreases b.len(),
{
    if b.len() == 0 {
        assert(a + b =~= a);
        assert(kiss_escape(a) + kiss_escape(b) =~= kiss_escape(a));
    } else {
        lemma_escape_concat(a, b.drop_last());
        assert((a + b).drop_last() =~= a + b.drop_last());
        assert(kiss_escape(a) + kiss_escape(b.drop_last()) + escape_byte(b.last()) =~= kiss_escape(
            a,
        ) + (kiss_escape(b.drop_last()) + escape_byte(b.last())));
    }
}

/// The payload that an escaped sequence stands for: `FESC, TFEND` is a frame
/// end, `FESC, TFESC` a frame escape, and every other byte itself.
pub open spec fn kiss_unescape(t: Seq<u8>) -> Seq<u8>
    decreases t.len(),
{
    if t.len() == 0 {
        Seq::empty()
    } else if t.len() >= 2 && t[0] == FESC && t[1] == TFEND {
        seq![FEND] + kiss_unescape(t.skip(2))
    } else if t.len() >= 2 && t[0] == FESC && t[1] == TFESC {
        seq![FESC] + kiss_unescape(t.skip(2))
    } else {
        seq![t[0]] + kiss_unescape(t.skip(1))
    }
}

/// A sequence that can stand between two frame ends as one frame: it holds
/// no frame end, and every frame escape in it is followed by a transposed
/// frame end or a transposed frame escape.
pub open spec fn is_frame_body(t: Seq<u8>) -> bool {
    &&& forall|i: int| 0 <= i < t.len() ==> #[trigger] t[i] != FEND
    &&& forall|i: int|
        0 <= i < t.len() && #[trigger] t[i] == FESC ==> i + 1 < t.len() && (t[i + 1] == TFEND
            || t[i + 1] == TFESC)
}

/// Escaping any payload gives a frame body: no frame end is left in it, and
/// each frame escape starts an escape pair.
pub proof fn lemma_escape_is_frame_body(s: Seq<u8>)
    ensures
        is_frame_body(kiss_escape(s)),
        occurrences(kiss_escape(s), FEND) == 0,
    decreases s.len(),
{
    if s.len() > 0 {
        lemma_escape_is_frame_body(s.drop_last());
        let a = kiss_escape(s.drop_last());
        let b = escape_byte(s.last());
        let t = a + b;
        assert(kiss_escape(s) == t);
        assert forall|i: int| 0 <= i < t.len() implies #[trigger] t[i] != FEND by {
            if i >= a.len() {
                assert(t[i] == b[i - a.len()]);
            } else {
                assert(t[i] == a[i]);
            }
        }
        assert forall|i: int| 0 <= i < t.len() && #[trigger] t[i] == FESC implies i + 1 < t.len()
            && (t[i + 1] == TFEND || t[i + 1] == TFESC) by {
            if i >= a.len() {
                assert(t[i] == b[i - a.len()]);
                assert(t[i + 1] == b[i + 1 - a.len()]);
            } else {
                assert(t[i] == a[i]);
                assert(a[i] == FESC);
                assert(t[i + 1] == a[i + 1]);
            }
        }
    }
    lemma_absent_occurrences(kiss_escape(s), FEND);
}

proof fn lemma_absent_occurrences(t: Seq<u8>, b: u8)
    requires
        forall|i: int| 0 <= i < t.len() ==> #[trigger] t[i] != b,
    ensures
        occurrences(t, b) == 0,
    decreases t.len(),
{
    if t.len() > 0 {
        let u = t.drop_last();
        assert forall|i: int| 0 <= i < u.len() implies #[trigger] u[i] != b by {
            assert(u[i] == t[i]);
        }
        lemma_absent_occurrences(u, b);
        assert(t[t.len() - 1] != b);
    }
}

/// Unescaping an escaped payload gives the payload back, whatever it holds.
pub proof fn lemma_unescape_escape(s: Seq<u8>)
    ensures
        kiss_unescape(kiss_escape(s)) == s,
    decreases s.len(),
{
    if s.len() > 0 {
        let rest = s.skip(1);
        let x = kiss_escape(rest);
        lemma_unescape_escape(rest);
        assert(seq![s[0]] + rest =~= s);
        lemma_escape_concat(seq![s[0]], rest);
        assert(seq![s[0]].drop_last() =~= Seq::<u8>::empty());
        assert(kiss_escape(Seq::<u8>::empty()) == Seq::<u8>::empty());
        assert(seq![s[0]].last() == s[0]);
        assert(Seq::<u8>::empty() + escape_byte(s[0]) =~= escape_byte(s[0]));
        assert(kiss_escape(seq![s[0]]) =~= escape_byte(s[0]));
        let t = escape_byte(s[0]) + x;
        assert(kiss_escape(s) == t);
        if s[0] == FEND || s[0] == FESC {
            assert(t.skip(2) =~= x);
            assert(kiss_unescape(t) == seq![s[0]] + kiss_unescape(x));
        } else {
            assert(t.skip(1) =~= x);
            assert(kiss_unescape(t) == seq![s[0]] + kiss_unescape(x));
        }
    }
}

/// The escaped form of `data`, as a vector.
pub fn escape_slice(data: &[u8]) -> (out: Vec<u8>)
    requires
        kiss_escape(data@).len() <= isize::MAX,
    ensures
        out@ == kiss_escape(data@),
{
    let escaped = KISS::escape(bytes_copy_from_slice(data));
    let mut out: Vec<u8> = Vec::new();
    out.extend_from_slice(bytes_as_slice(&escaped));
    assert(out@ =~= kiss_escape(data@));
    out
}

/// KISS (Keep It Simple, Stupid) is a protocol for communicating with a serial terminal node
/// controller (TNC) device used for amateur radio.
#[allow(clippy::upper_case_acronyms)]
#[derive(Clone, Copy, Debug, PartialEq, Eq)]
pub enum KISS {
    /// Frame End.
    FEND,
    /// Frame Escape.
    FESC,
    /// Transposed Frame End.
    TFEND,
    /// Transposed Frame Escape.
    TFESC,
}

impl KISS {
    /// The byte that stands for this code on the wire.
    pub fn byte(self) -> (b: u8)
        ensures
            b == match self {
                KISS::FEND => FEND,
                KISS::FESC => FESC,
                KISS::TFEND => TFEND,
                KISS::TFESC => TFESC,
            },
    {
        match self {
            KISS::FEND => FEND,
            KISS::FESC => FESC,
            KISS::TFEND => TFEND,
            KISS::TFESC => TFESC,
        }
    }

    /// If the FEND or FESC codes appear in the data to be transferred, they need to be escaped. The
    /// FEND code is then sent as FESC, TFEND and the FESC is then sent as FESC, TFESC.
    pub fn escape(bytes: Bytes) -> (out: Bytes)
        requires
            kiss_escape(bytes_contents(bytes)).len() <= isize::MAX,
        ensures
            bytes_contents(out) == kiss_escape(bytes_contents(bytes)),
    {
        let ghost s = bytes_contents(bytes);
        let esc: [u8; 2] = [FESC, TFESC];
        let end: [u8; 2] = [FESC, TFEND];
        proof {
            assert(esc@ =~= seq![FESC, TFESC]);
            assert(end@ =~= seq![FESC, TFEND]);
            let once = replaced(s, FESC, esc@);
            lemma_escape_two_passes(s);
            lemma_replaced_len(once, FEND, end@);
            lemma_replaced_len(s, FESC, esc@);
            assert(occurrences(once, FEND) * 2 == occurrences(once, FEND) + occurrences(once, FEND));
            assert(occurrences(s, FESC) * 2 == occurrences(s, FESC) + occurrences(s, FESC));
            assert(once.len() <= kiss_escape(s).len());
            assert(s.len() <= once.len());
        }
        let bytes = Self::replace(bytes, FESC, esc.as_slice());
        proof {
            lemma_escape_two_passes(s);
        }
        Self::replace(bytes, FEND, end.as_slice())
    }

    fn replace(source: Bytes, from: u8, to: &[u8]) -> (out: Bytes)
        requires
            bytes_contents(source).len() <= isize::MAX,
            replaced(bytes_contents(source), from, to@).len() <= isize::MAX,
        ensures
            bytes_contents(out) == replaced(bytes_contents(source), from, to@),
    {
        let ghost s = bytes_contents(source);
        let src = bytes_as_slice(&source);
        // Count occurrences.
        let mut count: usize = 0;
        let mut i: usize = 0;
        while i < src.len()
            invariant
                i <= src.len(),
                src@ == s,
                count == occurrences(s.take(i as int), from),
                count <= i,
            decreases src.len() - i,
        {
            proof {
                lemma_occurrences_take(s, i as int, from);
            }
            if src[i] == from {
                count += 1;
            }
            i += 1;
        }
        proof {
            assert(s.take(s.len() as int) =~= s);
            lemma_replaced_len(s, from, to@);
        }
        if count == 0 {
            proof {
                lemma_replaced_absent(s, from, to@);
            }
            return source;
        }
        // Pre-allocate exact capacity.

        assert(to@.len() >= 1 ==> (to@.len() - 1) * count == count * to@.len() - count)
            by (nonlinear_arith);
        assert(to@.len() == 0 ==> count * to@.len() == 0) by (nonlinear_arith);
        let extra = to.len().saturating_sub(1) * count;
        let mut out = bytes_mut_with_capacity(src.len() + extra);
        let mut j: usize = 0;
        while j < src.len()
            invariant
                j <= src.len(),
                src@ == s,
                replaced(s, from, to@).len() <= isize::MAX,
                bytes_mut_contents(out) == replaced(s.take(j as int), from, to@),
            decreases src.len() - j,
        {
            proof {
                lemma_replaced_take(s, j as int, from, to@);
            }
            if src[j] == from {
                bytes_mut_extend_from_slice(&mut out, to);
            } else {
                bytes_mut_put_u8(&mut out, src[j]);
            }
            j += 1;
        }
        proof {
            assert(s.take(s.len() as int) =~= s);
        }
        bytes_mut_freeze(out)
    }
}

} // verus!
