use vstd::prelude::*;

use crate::data_unit::{be_u16, spec_adu_bytes, u16_from_be, MbapHeader, PduView, MAX_ADU_FRAME_LEN, MBAP_HEADER_LEN};
use crate::errors::MbusError;
use crate::transport::ModbusTcpTransportError;

verus! {

/// Number of MBAP bytes up to and including the length field.
pub const MBAP_PREFIX_LEN: usize = 6;
/// Capacity of the receive buffer of the stream transport.
pub const RX_BUFFER_CAPACITY: usize = 2 * MAX_ADU_FRAME_LEN;

/// Total ADU length announced by an MBAP header: the six prefix bytes plus
/// the length field.
pub open spec fn announced_len(header: Seq<u8>) -> int {
    MBAP_PREFIX_LEN + be_u16(header[4], header[5])
}

/// Computes the total length of the ADU whose MBAP header starts `header`.
///
/// Fails with `BufferTooSmall` when the announced frame exceeds 260 bytes.
pub fn mbap_adu_len(header: &[u8]) -> (r: Result<usize, ModbusTcpTransportError>)
    requires
        header@.len() >= MBAP_PREFIX_LEN,
    ensures
        announced_len(header@) > MAX_ADU_FRAME_LEN ==> r == Err::<usize, ModbusTcpTransportError>(
            ModbusTcpTransportError::BufferTooSmall),
        announced_len(header@) <= MAX_ADU_FRAME_LEN ==> r == Ok::<usize, ModbusTcpTransportError>(
            announced_len(header@) as usize),
{
    let pdu_and_unit_id_len = u16_from_be(header[4], header[5]);
    let total_adu_len = MBAP_PREFIX_LEN + pdu_and_unit_id_len as usize;
    if total_adu_len > MAX_ADU_FRAME_LEN {
        return Err(ModbusTcpTransportError::BufferTooSmall);
    }
    Ok(total_adu_len)
}

/// What taking a frame from the buffer `buf` yields, and the buffer left.
///
/// With fewer than six bytes, or fewer than the announced length, nothing is
/// taken. A zero length field or a frame over 260 bytes discards the buffer.
pub open spec fn spec_take_frame(buf: Seq<u8>) -> (Result<Option<Seq<u8>>, MbusError>, Seq<u8>) {
    if buf.len() < MBAP_PREFIX_LEN {
        (Ok(None), buf)
    } else if be_u16(buf[4], buf[5]) == 0 {
        (Err(MbusError::InvalidDataLen), Seq::empty())
    } else if announced_len(buf) > MAX_ADU_FRAME_LEN {
        (Err(MbusError::BufferTooSmall), Seq::empty())
    } else if buf.len() < announced_len(buf) {
        (Ok(None), buf)
    } else {
        (Ok(Some(buf.take(announced_len(buf)))), buf.skip(announced_len(buf)))
    }
}

/// What appending `chunk` to the buffer `buf` yields, and the buffer left.
pub open spec fn spec_push_bytes(buf: Seq<u8>, chunk: Seq<u8>) -> (Result<(), MbusError>, Seq<u8>) {
    if buf.len() + chunk.len() > RX_BUFFER_CAPACITY {
        (Err(MbusError::BufferTooSmall), Seq::empty())
    } else {
        (Ok(()), buf + chunk)
    }
}

/// The receive buffer of a stream transport that cuts the incoming byte
/// stream into Modbus TCP frames by their MBAP length field.
pub struct TcpFrameBuffer {
    rx_buf: Vec<u8>,
}

impl View for TcpFrameBuffer {
    type V = Seq<u8>;

    closed spec fn view(&self) -> Seq<u8> {
        self.rx_buf@
    }
}

impl TcpFrameBuffer {
    /// Creates an empty buffer.
    pub fn new() -> (r: TcpFrameBuffer)
        ensures
            r@ == Seq::<u8>::empty(),
    {
        TcpFrameBuffer { rx_buf: Vec::new() }
    }

    /// Number of buffered bytes.
    pub fn len(&self) -> (r: usize)
        ensures
            r == self@.len(),
    {
        self.rx_buf.len()
    }

    /// Takes the next complete frame from the front of the buffer, if there
    /// is one.
    ///
    /// Fails with `InvalidDataLen` when the length field is zero and with
    /// `BufferTooSmall` when the announced frame exceeds 260 bytes; the
    /// buffer is discarded in both cases.
    pub fn take_frame(&mut self) -> (r: Result<Option<Vec<u8>>, MbusError>)
        ensures
            (match r {
                Ok(Some(f)) => Ok::<Option<Seq<u8>>, MbusError>(Some(f@)),
                Ok(None) => Ok::<Option<Seq<u8>>, MbusError>(None),
                Err(e) => Err::<Option<Seq<u8>>, MbusError>(e),
            }) == spec_take_frame(old(self)@).0,
            final(self)@ == spec_take_frame(old(self)@).1,
    {
        let len = self.rx_buf.len();
        if len < MBAP_PREFIX_LEN {
            return Ok(None);
        }
        let remaining_len = u16_from_be(self.rx_buf[4], self.rx_buf[5]) as usize;
        if remaining_len == 0 {
            self.rx_buf.clear();
            return Err(MbusError::InvalidDataLen);
        }
        let total_len = MBAP_PREFIX_LEN + remaining_len;
        if total_len > MAX_ADU_FRAME_LEN {
            self.rx_buf.clear();
            return Err(MbusError::BufferTooSmall);
        }
        if len < total_len {
            return Ok(None);
        }
        let mut rest = self.rx_buf.split_off(total_len);
        std::mem::swap(&mut self.rx_buf, &mut rest);
        let frame = rest;
        assert(frame@ =~= old(self)@.take(total_len as int));
        assert(self.rx_buf@ =~= old(self)@.skip(total_len as int));
        Ok(Some(frame))
    }

    /// Appends received bytes.
    ///
    /// Fails with `BufferTooSmall`, discarding the buffer, when the bytes do
    /// not fit in its capacity of 520.
    pub fn push_bytes(&mut self, chunk: &[u8]) -> (r: Result<(), MbusError>)
        ensures
            r == spec_push_bytes(old(self)@, chunk@).0,
            final(self)@ == spec_push_bytes(old(self)@, chunk@).1,
    {
        if chunk.len() > RX_BUFFER_CAPACITY || self.rx_buf.len() > RX_BUFFER_CAPACITY - chunk.len() {
            self.rx_buf.clear();
            return Err(MbusError::BufferTooSmall);
        }
        let mut i: usize = 0;
        while i < chunk.len()
            invariant
                i <= chunk@.len(),
                old(self)@.len() + chunk@.len() <= RX_BUFFER_CAPACITY,
                self.rx_buf@ == old(self)@ + chunk@.take(i as int),
            decreases chunk@.len() - i,
        {
            self.rx_buf.push(chunk[i]);
            assert(chunk@.take(i + 1) =~= chunk@.take(i as int).push(chunk@[i as int]));
            i = i + 1;
        }
        assert(chunk@.take(chunk@.len() as int) =~= chunk@);
        Ok(())
    }
}

/// A well-formed TCP ADU that arrives at the front of the stream is cut out
/// exactly: taking a frame returns the ADU's bytes and leaves whatever
/// followed it.
pub proof fn lemma_take_frame_recovers_adu(h: MbapHeader, p: PduView, rest: Seq<u8>)
    requires
        p.wf(),
        h.length == p.data_len + 2,
    ensures
        spec_take_frame(spec_adu_bytes(h, p) + rest) == (Ok::<Option<Seq<u8>>, MbusError>(
            Some(spec_adu_bytes(h, p)),
        ), rest),
{
    let a = spec_adu_bytes(h, p);
    let s = a + rest;
    crate::data_unit::lemma_be_roundtrip(h.length);
    assert(s[4] == a[4] && s[5] == a[5]);
    assert(a.len() == MBAP_HEADER_LEN + 1 + p.data_len);
    assert(announced_len(s) == a.len());
    assert(s.take(a.len() as int) =~= a);
    assert(s.skip(a.len() as int) =~= rest);
}

/// A frame the stream transport accepts: a six-byte prefix whose length
/// field is not zero and counts the bytes after it, within 260 bytes in all.
pub open spec fn frame_ok(f: Seq<u8>) -> bool {
    &&& f.len() >= MBAP_PREFIX_LEN
    &&& be_u16(f[4], f[5]) >= 1
    &&& f.len() == announced_len(f)
    &&& f.len() <= MAX_ADU_FRAME_LEN
}

/// The frames `fs` sent back to back.
pub open spec fn frames_concat(fs: Seq<Seq<u8>>) -> Seq<u8>
    decreases fs.len(),
{
    if fs.len() == 0 {
        Seq::empty()
    } else {
        fs[0] + frames_concat(fs.drop_first())
    }
}

/// Frames taken from the front of `buf`, at most `n` of them, stopping at
/// the first take that yields no frame; and the buffer left.
pub open spec fn take_frames(buf: Seq<u8>, n: nat) -> (Seq<Seq<u8>>, Seq<u8>)
    decreases n,
{
    if n == 0 {
        (Seq::empty(), buf)
    } else {
        match spec_take_frame(buf) {
            (Ok(Some(f)), rest) => {
                let (fs, left) = take_frames(rest, (n - 1) as nat);
                (seq![f] + fs, left)
            },
            (_, rest) => (Seq::empty(), rest),
        }
    }
}

/// However the stream of frames `fs` is cut into reads: while the buffer
/// holds a prefix of the stream, taking a frame waits (and keeps the
/// buffer) until the whole first frame is there, then returns exactly that
/// frame and keeps what follows it, which is a prefix of the rest of the
/// stream.
pub proof fn lemma_take_frame_in_stream(fs: Seq<Seq<u8>>, buf: Seq<u8>)
    requires
        fs.len() > 0,
        forall|i: int| 0 <= i < fs.len() ==> #[trigger] frame_ok(fs[i]),
        buf.len() <= frames_concat(fs).len(),
        buf == frames_concat(fs).take(buf.len() as int),
    ensures
        buf.len() < fs[0].len() ==> spec_take_frame(buf) == (Ok::<Option<Seq<u8>>, MbusError>(None), buf),
        buf.len() >= fs[0].len() ==> spec_take_frame(buf) == (
            Ok::<Option<Seq<u8>>, MbusError>(Some(fs[0])),
            frames_concat(fs.drop_first()).take(buf.len() - fs[0].len()),
        ),
{
    let f0 = fs[0];
    let c = frames_concat(fs);
    assert(frame_ok(f0));
    assert(c == f0 + frames_concat(fs.drop_first()));
    if buf.len() >= MBAP_PREFIX_LEN {
        assert(buf[4] == c[4] && c[4] == f0[4]);
        assert(buf[5] == c[5] && c[5] == f0[5]);
        assert(announced_len(buf) == f0.len());
        if buf.len() >= f0.len() {
            assert(buf.take(f0.len() as int) =~= f0);
            assert(buf.skip(f0.len() as int) =~= frames_concat(fs.drop_first()).take(buf.len() - f0.len()));
        }
    }
}

/// Appending what arrives next keeps the buffer a prefix of the stream.
pub proof fn lemma_push_in_stream(stream: Seq<u8>, buf: Seq<u8>, chunk: Seq<u8>)
    requires
        buf.len() + chunk.len() <= stream.len(),
        buf == stream.take(buf.len() as int),
        chunk == stream.subrange(buf.len() as int, (buf.len() + chunk.len()) as int),
        buf.len() + chunk.len() <= RX_BUFFER_CAPACITY,
    ensures
        spec_push_bytes(buf, chunk) == (Ok::<(), MbusError>(()), stream.take((buf.len() + chunk.len()) as int)),
{
    assert(buf + chunk =~= stream.take((buf.len() + chunk.len()) as int));
}

/// Frames sent back to back, followed by the start of another that is too
/// short to be a frame yet, are taken out one after the other, each
/// exactly, leaving that start in the buffer.
pub proof fn lemma_take_frames_all(fs: Seq<Seq<u8>>, tail: Seq<u8>)
    requires
        forall|i: int| 0 <= i < fs.len() ==> #[trigger] frame_ok(fs[i]),
        tail.len() < MBAP_PREFIX_LEN,
    ensures
        take_frames(frames_concat(fs) + tail, fs.len()) == (fs, tail),
    decreases fs.len(),
{
    if fs.len() == 0 {
        assert(frames_concat(fs) + tail =~= tail);
    } else {
        let f0 = fs[0];
        assert(frame_ok(f0));
        let rest = fs.drop_first();
        assert forall|i: int| 0 <= i < rest.len() implies #[trigger] frame_ok(rest[i]) by {
            assert(frame_ok(fs[i + 1]));
        }
        let buf = frames_concat(fs) + tail;
        assert(buf =~= f0 + (frames_concat(rest) + tail));
        assert(buf[4] == f0[4] && buf[5] == f0[5]);
        assert(buf.take(f0.len() as int) =~= f0);
        assert(buf.skip(f0.len() as int) =~= frames_concat(rest) + tail);
        lemma_take_frames_all(rest, tail);
        assert(seq![f0] + rest =~= fs);
    }
}

} // verus!
