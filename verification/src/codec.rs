//! Wire framing: a serialized message, its CRC-8, byte stuffing and a zero
//! byte that ends the frame.
//!
//! Frame layout on the wire, before stuffing:
//! ```text
//! [ message bytes ][ crc8 ]
//! ```
//! A zero byte never appears inside a stuffed frame, so a stream of frames can
//! be split on its zero bytes. [`Decoder`] does that for bytes that arrive in
//! pieces.

use vstd::prelude::*;

use crate::stuffing;

verus! {

/// All codec errors.
#[derive(Debug, Clone, Copy, PartialEq, Eq, Structural)]
pub enum Error {
    /// The message could not be serialized.
    Serialize,
    /// The payload is not a serialized message.
    Deserialize,
    /// The frame's byte stuffing is corrupt.
    Cobs,
    /// CRC-8 mismatch.
    BadCrc,
    /// Frame was too short to contain even a CRC byte.
    FrameTooShort,
    /// The buffer would overflow.
    BufferFull,
}

/// The CRC register after one more message bit: it shifts left, and the
/// polynomial is added where the bit that falls out differs from the message
/// bit.
pub open spec fn crc_bit(reg: u8, bit: bool) -> u8 {
    if (reg & 0x80 != 0) != bit {
        (reg << 1) ^ 0x07
    } else {
        reg << 1
    }
}

/// The CRC register after the `n` highest bits of `b`.
pub open spec fn crc_bits(reg: u8, b: u8, n: nat) -> u8
    decreases n,
{
    if n == 0 {
        reg
    } else {
        crc_bit(crc_bits(reg, b, (n - 1) as nat), (b << ((n - 1) as u8)) & 0x80 != 0)
    }
}

/// CRC-8 of `data`: polynomial 0x07, register starting at zero, highest bit of
/// each byte first.
pub open spec fn crc8_of(data: Seq<u8>) -> u8
    decreases data.len(),
{
    if data.len() == 0 {
        0
    } else {
        crc_bits(crc8_of(data.drop_last()), data.last(), 8)
    }
}

/// The payload in front of a matching CRC byte.
pub open spec fn payload_of(data: Seq<u8>) -> Result<Seq<u8>, Error> {
    if data.len() < 1 {
        Err(Error::FrameTooShort)
    } else if crc8_of(data.drop_last()) != data.last() {
        Err(Error::BadCrc)
    } else {
        Ok(data.drop_last())
    }
}

/// The payload that a frame without its terminator carries.
pub open spec fn frame_payload(frame: Seq<u8>) -> Result<Seq<u8>, Error> {
    match stuffing::decoded(frame) {
        Some(data) => payload_of(data),
        None => Err(Error::Cobs),
    }
}

/// The wire bytes of `payload`: stuffed with its CRC byte, then a zero.
pub open spec fn frame_of(payload: Seq<u8>) -> Seq<u8> {
    stuffing::stuffed(payload.push(crc8_of(payload))).push(0)
}

/// A payload of `len` bytes can be framed in memory.
pub open spec fn can_frame(len: nat) -> bool {
    stuffing::max_stuffed_len(len + 1) + 1 <= isize::MAX
}

/// The shift register as `crc8` runs it, without message bits.
spec fn shifted(reg: u8, n: nat) -> u8
    decreases n,
{
    if n == 0 {
        reg
    } else {
        crc_bit(shifted(reg, (n - 1) as nat), false)
    }
}

/// Adding a byte to the register and shifting is the same as feeding its bits.
proof fn lemma_shifted(reg: u8, b: u8, n: nat)
    requires
        n <= 8,
    ensures
        shifted(reg ^ b, n) == crc_bits(reg, b, n) ^ (b << (n as u8)),
    decreases n,
{
    if n == 0 {
        assert(reg ^ b == reg ^ (b << 0u8)) by (bit_vector);
    } else {
        lemma_shifted(reg, b, (n - 1) as nat);
        let m = (n - 1) as u8;
        let r = crc_bits(reg, b, m as nat);
        assert(crc_bit(r ^ (b << m), false) == crc_bit(r, (b << m) & 0x80 != 0) ^ (b << ((m + 1) as u8)))
            by (bit_vector)
            requires
                m < 8,
        ;
    }
}

/// CRC-8 (SMBus polynomial 0x07, init 0x00).
///
/// Small, fast, plenty for catching bit errors on a short USB frame.
pub fn crc8(data: &[u8]) -> (crc: u8)
    ensures
        crc == crc8_of(data@),
{
    let mut crc: u8 = 0;
    let mut i: usize = 0;
    while i < data.len()
        invariant
            i <= data@.len(),
            crc == crc8_of(data@.take(i as int)),
        decreases data@.len() - i,
    {
        let ghost reg = crc;
        let b = data[i];
        crc = crc ^ b;
        let mut n: u8 = 0;
        while n < 8
            invariant
                n <= 8,
                crc == shifted(reg ^ b, n as nat),
            decreases 8 - n,
        {
            if crc & 0x80 != 0 {
                crc = (crc << 1) ^ 0x07;
            } else {
                crc = crc << 1;
            }
            n = n + 1;
        }
        proof {
            lemma_shifted(reg, b, 8);
            let r = crc_bits(reg, b, 8);
            assert(r ^ (b << 8u8) == r) by (bit_vector);
            assert(data@.take(i + 1).drop_last() =~= data@.take(i as int));
        }
        i = i + 1;
    }
    assert(data@.take(i as int) =~= data@);
    crc
}

/// Append CRC-8, stuff, and terminate with a zero byte.
///
/// `serialized` is what serializing the message gave, `None` where that
/// failed. Returns the wire bytes ready to write to the transport.
pub fn encode(serialized: Option<Vec<u8>>) -> (r: Result<Vec<u8>, Error>)
    requires
        serialized is Some ==> can_frame(serialized->0@.len()),
    ensures
        match serialized {
            Some(payload) => r is Ok && r->Ok_0@ == frame_of(payload@),
            None => r == Err::<Vec<u8>, Error>(Error::Serialize),
        },
{
    let payload = match serialized {
        Some(payload) => payload,
        None => return Err(Error::Serialize),
    };
    let mut with_crc: Vec<u8> = Vec::with_capacity(payload.len() + 1);
    with_crc.extend_from_slice(payload.as_slice());
    with_crc.push(crc8(payload.as_slice()));
    assert(with_crc@ =~= payload@.push(crc8_of(payload@)));

    let max_len = cobs::max_encoding_length(with_crc.len());
    let mut out: Vec<u8> = vec![0u8; max_len + 1];
    proof {
        stuffing::law_stuffed_len(with_crc@);
    }
    let len = stuffing::stuff_into(with_crc.as_slice(), &mut out);
    let ghost stuffed_out = out@;
    out.truncate(len + 1);
    out.set(len, 0);
    assert(out@ =~= stuffed_out.take(len as int).push(0));
    Ok(out)
}

/// The payload of a frame that has been unstuffed: the front `len` bytes of
/// `data`, checked against the CRC byte that ends them.
fn checked_payload(data: &Vec<u8>, len: usize) -> (r: Result<Vec<u8>, Error>)
    requires
        len <= data@.len(),
    ensures
        match payload_of(data@.take(len as int)) {
            Ok(payload) => r is Ok && r->Ok_0@ == payload,
            Err(e) => r == Err::<Vec<u8>, Error>(e),
        },
{
    if len < 1 {
        return Err(Error::FrameTooShort);
    }
    let payload = vstd::slice::slice_subrange(data.as_slice(), 0, len - 1);
    assert(payload@ =~= data@.take(len as int).drop_last());
    if crc8(payload) != data[len - 1] {
        return Err(Error::BadCrc);
    }
    Ok(vstd::slice::slice_to_vec(payload))
}

/// Decode a single frame (without the zero terminator) to its payload.
///
/// Use this if you already have the trimmed frame; otherwise use [`Decoder`]
/// to handle streaming buffers.
pub fn decode(frame: &[u8]) -> (r: Result<Vec<u8>, Error>)
    ensures
        match frame_payload(frame@) {
            Ok(payload) => r is Ok && r->Ok_0@ == payload,
            Err(e) => r == Err::<Vec<u8>, Error>(e),
        },
{
    let mut data: Vec<u8> = vec![0u8; frame.len()];
    match stuffing::unstuff_into(frame, &mut data) {
        Ok(len) => checked_payload(&data, len),
        Err(_) => Err(Error::Cobs),
    }
}

/// What a payload means, given what deserializing it gave.
pub fn deserialized<T>(parsed: Option<T>) -> (r: Result<T, Error>)
    ensures
        r == (match parsed {
            Some(message) => Ok::<T, Error>(message),
            None => Err::<T, Error>(Error::Deserialize),
        }),
{
    match parsed {
        Some(message) => Ok(message),
        None => Err(Error::Deserialize),
    }
}

/// `Vec::drain`: removes the first `n` bytes of `buf`.
#[verifier::external_body]
fn drop_front(buf: &mut Vec<u8>, n: usize)
    requires
        n <= old(buf)@.len(),
    ensures
        final(buf)@ == old(buf)@.skip(n as int),
{
    buf.drain(..n);
}

/// Unstuff the first `end` bytes of `buf` where they stand and check the CRC
/// byte behind the payload. What lies behind `end` stays.
fn decode_in_place(buf: &mut Vec<u8>, end: usize) -> (r: Result<Vec<u8>, Error>)
    requires
        0 < end <= old(buf)@.len(),
        stuffing::zero_free(old(buf)@.take(end as int)),
    ensures
        final(buf)@.len() == old(buf)@.len(),
        final(buf)@.skip(end as int) == old(buf)@.skip(end as int),
        match frame_payload(old(buf)@.take(end as int)) {
            Ok(payload) => r is Ok && r->Ok_0@ == payload,
            Err(e) => r == Err::<Vec<u8>, Error>(e),
        },
{
    proof {
        lemma_body(buf@.take(end as int));
    }
    match stuffing::unstuff_in_place(buf, end) {
        Ok(len) => checked_payload(buf, len),
        Err(_) => Err(Error::Cobs),
    }
}

/// What the next frame of a byte stream gives: the outcome, and the bytes that
/// stay behind. Frames without any byte are passed over.
pub open spec fn next_of(buf: Seq<u8>) -> (Result<Option<Seq<u8>>, Error>, Seq<u8>) {
    let stream = stuffing::after_zeros(buf);
    let end = stuffing::run(stream) as int;
    if end >= stream.len() {
        (Ok(None), stream)
    } else {
        (
            match frame_payload(stream.take(end)) {
                Ok(payload) => Ok(Some(payload)),
                Err(e) => Err(e),
            },
            stream.skip(end + 1),
        )
    }
}

/// An outcome as a caller holds it.
pub open spec fn frame_view(r: Result<Option<Vec<u8>>, Error>) -> Result<
    Option<Seq<u8>>,
    Error,
> {
    match r {
        Ok(Some(payload)) => Ok(Some(payload@)),
        Ok(None) => Ok(None),
        Err(e) => Err(e),
    }
}

/// Streaming decoder: accumulates bytes and yields complete frames as they
/// arrive.
///
/// Push arbitrary byte chunks from your transport via [`Decoder::push`], then
/// call [`Decoder::next_frame`] in a loop until it returns `None` to drain all
/// pending frames. The internal buffer is bounded by `max_frame_len` to prevent
/// runaway growth from a stuck sender.
pub struct Decoder {
    buf: Vec<u8>,
    max_frame_len: usize,
}

impl View for Decoder {
    type V = Seq<u8>;

    /// The bytes that wait to be decoded.
    closed spec fn view(&self) -> Seq<u8> {
        self.buf@
    }
}

impl Decoder {
    /// The most bytes that may wait.
    pub closed spec fn limit(&self) -> nat {
        self.max_frame_len as nat
    }

    /// The buffer keeps its bound.
    pub open spec fn wf(&self) -> bool {
        self@.len() <= self.limit()
    }

    /// An empty decoder. Room for `max_frame_len` bytes is set aside at once.
    pub fn new(max_frame_len: usize) -> (d: Self)
        requires
            max_frame_len <= isize::MAX,
        ensures
            d.wf(),
            d@ == Seq::<u8>::empty(),
            d.limit() == max_frame_len,
    {
        Decoder { buf: Vec::with_capacity(max_frame_len), max_frame_len }
    }

    /// Append bytes from the transport. Returns `Err` if the internal buffer
    /// would exceed `max_frame_len`, and drops what was buffered.
    pub fn push(&mut self, bytes: &[u8]) -> (r: Result<(), Error>)
        requires
            old(self).wf(),
        ensures
            final(self).wf(),
            final(self).limit() == old(self).limit(),
            if old(self)@.len() + bytes@.len() > old(self).limit() {
                r == Err::<(), Error>(Error::BufferFull) && final(self)@ == Seq::<u8>::empty()
            } else {
                r == Ok::<(), Error>(()) && final(self)@ == old(self)@ + bytes@
            },
    {
        if bytes.len() > self.max_frame_len - self.buf.len() {
            self.buf.clear();
            return Err(Error::BufferFull);
        }
        self.buf.extend_from_slice(bytes);
        assert(self.buf@ =~= old(self).buf@ + bytes@);
        Ok(())
    }

    /// Drop everything that is buffered.
    pub fn reset(&mut self)
        ensures
            final(self).wf(),
            final(self).limit() == old(self).limit(),
            final(self)@ == Seq::<u8>::empty(),
    {
        self.buf.clear();
    }

    /// Try to decode one frame. Returns `Ok(Some(payload))` on success,
    /// `Ok(None)` if no complete frame is buffered yet, or `Err` if the next
    /// frame was corrupt (which is still consumed so decoding can progress).
    ///
    /// Unstuffs in place inside the buffer, which spares a second buffer the
    /// size of the frame.
    pub fn next_frame(&mut self) -> (r: Result<Option<Vec<u8>>, Error>)
        requires
            old(self).wf(),
        ensures
            final(self).wf(),
            final(self).limit() == old(self).limit(),
            frame_view(r) == next_of(old(self)@).0,
            final(self)@ == next_of(old(self)@).1,
    {
        // Frames without any byte (lone terminators): skip them.
        let mut skipped: usize = 0;
        proof {
            assert(self.buf@.skip(0) =~= self.buf@);
        }
        while skipped < self.buf.len() && self.buf[skipped] == 0
            invariant
                *self == *old(self),
                skipped <= self.buf@.len(),
                stuffing::after_zeros(self.buf@.skip(skipped as int)) == stuffing::after_zeros(
                    self.buf@,
                ),
            decreases self.buf@.len() - skipped,
        {
            proof {
                assert(self.buf@.skip(skipped as int).skip(1) =~= self.buf@.skip(skipped + 1));
            }
            skipped = skipped + 1;
        }
        drop_front(&mut self.buf, skipped);
        let ghost stream = self.buf@;
        assert(stream == stuffing::after_zeros(old(self)@));
        proof {
            assert(stream.skip(0) =~= stream);
        }

        let mut end: usize = 0;
        while end < self.buf.len() && self.buf[end] != 0
            invariant
                self.buf@ == stream,
                self.max_frame_len == old(self).max_frame_len,
                end <= stream.len(),
                stuffing::run(stream) == end + stuffing::run(stream.skip(end as int)),
            decreases stream.len() - end,
        {
            proof {
                assert(stream.skip(end as int).skip(1) =~= stream.skip(end + 1));
            }
            end = end + 1;
        }
        assert(stuffing::run(stream) == end);
        if end == self.buf.len() {
            return Ok(None);
        }
        proof {
            stuffing::lemma_run(stream);
        }
        let result = decode_in_place(&mut self.buf, end);
        // Consume the frame bytes regardless of outcome so a bad frame does
        // not wedge the decoder.
        let ghost after = self.buf@;
        drop_front(&mut self.buf, end + 1);
        assert(self.buf@ =~= stream.skip(end + 1)) by {
            assert(after.skip(end + 1) =~= after.skip(end as int).skip(1));
            assert(stream.skip(end + 1) =~= stream.skip(end as int).skip(1));
        }
        match result {
            Ok(payload) => Ok(Some(payload)),
            Err(e) => Err(e),
        }
    }
}

/// A zero-free message is decoded as a whole.
proof fn lemma_body(body: Seq<u8>)
    requires
        body.len() > 0,
        stuffing::zero_free(body),
    ensures
        stuffing::decoded(body) == stuffing::unstuffed(body),
{
    stuffing::lemma_run_of(body, Seq::<u8>::empty());
    assert(stuffing::after_zeros(body) == body);
    assert(body.take(body.len() as int) =~= body);
}

/// A frame ends in a zero byte, holds no other, and decodes to its payload.
pub proof fn law_round_trip(payload: Seq<u8>)
    ensures
        frame_of(payload).len() > 1,
        frame_of(payload).last() == 0,
        stuffing::zero_free(frame_of(payload).drop_last()),
        frame_payload(frame_of(payload).drop_last()) == Ok::<Seq<u8>, Error>(payload),
{
    let data = payload.push(crc8_of(payload));
    stuffing::law_unstuffed_stuffed(data);
    stuffing::law_decoded_stuffed(data);
    assert(frame_of(payload).drop_last() =~= stuffing::stuffed(data));
    assert(data.drop_last() =~= payload);
}

/// A stream that starts with a frame yields its payload, and the bytes behind
/// the frame stay.
pub proof fn law_next_is_first_frame(payload: Seq<u8>, rest: Seq<u8>)
    ensures
        next_of(frame_of(payload) + rest) == (Ok::<Option<Seq<u8>>, Error>(Some(payload)), rest),
{
    law_round_trip(payload);
    let body = frame_of(payload).drop_last();
    law_frame_is_consumed(body, rest);
    assert(frame_of(payload) + rest =~= body + seq![0u8] + rest);
}

/// Whatever stands in front of a terminator is one frame: decoding consumes it,
/// corrupt or not, and leaves the bytes behind it alone.
pub proof fn law_frame_is_consumed(body: Seq<u8>, rest: Seq<u8>)
    requires
        body.len() > 0,
        stuffing::zero_free(body),
    ensures
        next_of(body + seq![0u8] + rest).1 == rest,
        next_of(body + seq![0u8] + rest).0 == (match frame_payload(body) {
            Ok(payload) => Ok::<Option<Seq<u8>>, Error>(Some(payload)),
            Err(e) => Err::<Option<Seq<u8>>, Error>(e),
        }),
{
    let stream = body + seq![0u8] + rest;
    stuffing::lemma_run_of(body, rest);
    assert(stream[0] == body[0]);
    assert(stuffing::after_zeros(stream) == stream);
    assert(stream.take(body.len() as int) =~= body);
    assert(stream.skip(body.len() as int + 1) =~= rest);
}

/// Everything a loop over a stream yields until no complete frame is left, and
/// the bytes that then remain.
pub open spec fn drained(buf: Seq<u8>) -> (Seq<Result<Seq<u8>, Error>>, Seq<u8>)
    decreases buf.len(),
    via drained_shrinks
{
    match next_of(buf) {
        (Ok(None), rest) => (Seq::empty(), rest),
        (Ok(Some(payload)), rest) => (seq![Ok(payload)] + drained(rest).0, drained(rest).1),
        (Err(e), rest) => (seq![Err(e)] + drained(rest).0, drained(rest).1),
    }
}

#[via_fn]
proof fn drained_shrinks(buf: Seq<u8>) {
    law_next_shrinks(buf);
}

/// Each frame that is yielded or refused takes bytes off the stream; where no
/// complete frame is left, no terminator is left either.
pub proof fn law_next_shrinks(buf: Seq<u8>)
    ensures
        next_of(buf).0 != Ok::<Option<Seq<u8>>, Error>(None) ==> next_of(buf).1.len() < buf.len(),
        next_of(buf).0 == Ok::<Option<Seq<u8>>, Error>(None) ==> stuffing::zero_free(next_of(buf).1),
        next_of(buf).1.len() <= buf.len(),
{
    lemma_after_zeros(buf);
    let stream = stuffing::after_zeros(buf);
    stuffing::lemma_run(stream);
    assert(stream.take(stream.len() as int) =~= stream);
}

proof fn lemma_after_zeros(s: Seq<u8>)
    ensures
        stuffing::after_zeros(s).len() <= s.len(),
    decreases s.len(),
{
    if s.len() > 0 && s[0] == 0 {
        lemma_after_zeros(s.skip(1));
    }
}

/// The frames of `payloads`, one behind the other.
pub open spec fn stream_of(payloads: Seq<Seq<u8>>) -> Seq<u8>
    decreases payloads.len(),
{
    if payloads.len() == 0 {
        Seq::empty()
    } else {
        frame_of(payloads[0]) + stream_of(payloads.skip(1))
    }
}

/// A stream of frames gives exactly its payloads back, in order, and a frame
/// that has not arrived in full stays buffered.
pub proof fn law_stream(payloads: Seq<Seq<u8>>, partial: Seq<u8>)
    requires
        stuffing::zero_free(partial),
    ensures
        drained(stream_of(payloads) + partial).0 == payloads.map_values(
            |p: Seq<u8>| Ok::<Seq<u8>, Error>(p),
        ),
        drained(stream_of(payloads) + partial).1 == partial,
    decreases payloads.len(),
{
    let all = payloads.map_values(|p: Seq<u8>| Ok::<Seq<u8>, Error>(p));
    if payloads.len() == 0 {
        stuffing::lemma_run_of(partial, Seq::<u8>::empty());
        assert(Seq::<u8>::empty() + partial =~= partial);
        assert(stuffing::after_zeros(partial) == partial);
        assert(all =~= Seq::<Result<Seq<u8>, Error>>::empty());
    } else {
        let rest = payloads.skip(1);
        law_stream(rest, partial);
        law_next_is_first_frame(payloads[0], stream_of(rest) + partial);
        assert(stream_of(payloads) + partial =~= frame_of(payloads[0]) + (stream_of(rest)
            + partial));
        assert(all =~= seq![Ok::<Seq<u8>, Error>(payloads[0])] + rest.map_values(
            |p: Seq<u8>| Ok::<Seq<u8>, Error>(p),
        ));
    }
}

proof fn lemma_crc_bit_injective(a: u8, b: u8, bit: bool)
    requires
        crc_bit(a, bit) == crc_bit(b, bit),
    ensures
        a == b,
{
    assert(crc_bit(a, bit) == crc_bit(b, bit) ==> a == b) by (bit_vector);
}

proof fn lemma_shifted_injective(a: u8, b: u8, n: nat)
    requires
        shifted(a, n) == shifted(b, n),
    ensures
        a == b,
    decreases n,
{
    if n > 0 {
        lemma_crc_bit_injective(shifted(a, (n - 1) as nat), shifted(b, (n - 1) as nat), false);
        lemma_shifted_injective(a, b, (n - 1) as nat);
    }
}

/// A byte sends different registers, and a register sends different bytes, to
/// different registers.
proof fn lemma_crc_byte_injective(r1: u8, b1: u8, r2: u8, b2: u8)
    requires
        crc_bits(r1, b1, 8) == crc_bits(r2, b2, 8),
    ensures
        r1 ^ b1 == r2 ^ b2,
{
    lemma_shifted(r1, b1, 8);
    lemma_shifted(r2, b2, 8);
    let c = crc_bits(r1, b1, 8);
    assert(c ^ (b1 << 8u8) == c && c ^ (b2 << 8u8) == c) by (bit_vector);
    lemma_shifted_injective(r1 ^ b1, r2 ^ b2, 8);
}

/// The CRC changes whenever exactly one byte changes, whatever bits of it do.
pub proof fn law_crc_detects_byte(data: Seq<u8>, i: int, v: u8)
    requires
        0 <= i < data.len(),
        v != data[i],
    ensures
        crc8_of(data.update(i, v)) != crc8_of(data),
    decreases data.len(),
{
    let other = data.update(i, v);
    let r1 = crc8_of(data.drop_last());
    let r2 = crc8_of(other.drop_last());
    let (b1, b2) = (data.last(), other.last());
    if crc8_of(other) == crc8_of(data) {
        lemma_crc_byte_injective(r1, b1, r2, b2);
        if i == data.len() - 1 {
            assert(other.drop_last() =~= data.drop_last());
            assert(r1 ^ b1 == r1 ^ b2 ==> b1 == b2) by (bit_vector);
        } else {
            law_crc_detects_byte(data.drop_last(), i, v);
            assert(other.drop_last() =~= data.drop_last().update(i, v));
            assert(r1 ^ b1 == r2 ^ b1 ==> r1 == r2) by (bit_vector);
        }
    }
}

/// A payload with its CRC byte is refused once any one byte has changed.
pub proof fn law_corrupt_data_rejected(payload: Seq<u8>, i: int, v: u8)
    requires
        0 <= i <= payload.len(),
        v != payload.push(crc8_of(payload))[i],
    ensures
        payload_of(payload.push(crc8_of(payload)).update(i, v)) == Err::<Seq<u8>, Error>(
            Error::BadCrc,
        ),
{
    let data = payload.push(crc8_of(payload)).update(i, v);
    if i == payload.len() {
        assert(data.drop_last() =~= payload);
    } else {
        law_crc_detects_byte(payload, i, v);
        assert(data.drop_last() =~= payload.update(i, v));
    }
}

/// A frame is refused once any one of its bytes that stands for a message byte
/// has changed to another non-zero byte. (A changed count byte shifts the
/// blocks, and a zero byte cuts the frame in two.)
pub proof fn law_corrupt_frame_rejected(payload: Seq<u8>, j: int, v: u8)
    requires
        0 <= j < frame_of(payload).len() - 1,
        !stuffing::is_count(frame_of(payload).drop_last(), j),
        v != 0,
        v != frame_of(payload)[j],
    ensures
        frame_payload(frame_of(payload).drop_last().update(j, v)) == Err::<Seq<u8>, Error>(
            Error::BadCrc,
        ),
{
    law_round_trip(payload);
    let data = payload.push(crc8_of(payload));
    let body = frame_of(payload).drop_last();
    stuffing::law_unstuffed_stuffed(data);
    assert(body =~= stuffing::stuffed(data));
    let i = stuffing::lemma_changed_byte(body, j, v);
    lemma_body(body.update(j, v));
    law_corrupt_data_rejected(payload, i, v);
}

proof fn lemma_shifted_zero(n: nat)
    ensures
        shifted(0, n) == 0,
    decreases n,
{
    if n > 0 {
        lemma_shifted_zero((n - 1) as nat);
        assert(crc_bit(0, false) == 0) by (bit_vector);
    }
}

/// The CRC of data with its own CRC byte behind it is zero, and with any other
/// byte behind it is not.
pub proof fn law_crc_residue(data: Seq<u8>, last: u8)
    ensures
        crc8_of(data.push(last)) == 0 <==> last == crc8_of(data),
{
    let crc = crc8_of(data);
    let whole = data.push(crc);
    assert(whole.drop_last() =~= data);
    lemma_shifted(crc, crc, 8);
    assert(crc ^ crc == 0) by (bit_vector);
    lemma_shifted_zero(8);
    let r = crc_bits(crc, crc, 8);
    assert(r ^ (crc << 8u8) == r) by (bit_vector);
    if last != crc {
        law_crc_detects_byte(whole, data.len() as int, last);
        assert(whole.update(data.len() as int, last) =~= data.push(last));
    }
}

/// A frame carries its payload with the CRC byte behind it, stuffed, and ends in
/// a zero byte: nothing else comes on the wire.
pub proof fn law_frame_layout(payload: Seq<u8>)
    ensures
        stuffing::unstuffed(frame_of(payload).drop_last()) == Some(
            payload.push(crc8_of(payload)),
        ),
        frame_of(payload).last() == 0,
        frame_of(payload).len() <= stuffing::max_stuffed_len(payload.len() + 1) + 1,
{
    let data = payload.push(crc8_of(payload));
    stuffing::law_unstuffed_stuffed(data);
    stuffing::law_stuffed_len(data);
    assert(frame_of(payload).drop_last() =~= stuffing::stuffed(data));
}

/// Why a frame is refused: its stuffing is corrupt, it has not even a CRC byte,
/// or that byte is another than the payload's. Every other frame is taken.
pub proof fn law_reasons_for_refusal(frame: Seq<u8>, data: Seq<u8>)
    ensures
        stuffing::decoded(frame) is None ==> frame_payload(frame) == Err::<Seq<u8>, Error>(
            Error::Cobs,
        ),
        stuffing::decoded(frame) == Some(data) ==> {
            &&& data.len() == 0 ==> frame_payload(frame) == Err::<Seq<u8>, Error>(
                Error::FrameTooShort,
            )
            &&& data.len() > 0 && data.last() != crc8_of(data.drop_last()) ==> frame_payload(frame)
                == Err::<Seq<u8>, Error>(Error::BadCrc)
            &&& data.len() > 0 && data.last() == crc8_of(data.drop_last()) ==> frame_payload(frame)
                == Ok::<Seq<u8>, Error>(data.drop_last())
        },
{
}

/// One bit of the CRC doubles the register, and takes the polynomial away once
/// where the bit that falls out is not the message's. So a byte whose two highest
/// bits are clear is multiplied by the polynomial's low part.
pub proof fn law_crc_polynomial(reg: u8, bit: bool, b: u8)
    ensures
        (reg >= 128) == bit ==> crc_bit(reg, bit) == (2 * reg) % 256,
        (reg >= 128) != bit ==> crc_bit(reg, bit) == ((2 * reg) % 256) as u8 ^ 7,
        b < 64 ==> crc8_of(seq![b]) == b ^ (b << 1u8) ^ (b << 2u8),
{
    assert((reg >= 128) == bit ==> crc_bit(reg, bit) == (2 * reg) % 256) by (bit_vector);
    assert((reg >= 128) != bit ==> crc_bit(reg, bit) == ((2 * reg) % 256) as u8 ^ 7) by (
    bit_vector);
    if b < 64 {
        assert(seq![b].drop_last() =~= Seq::<u8>::empty());
        lemma_shifted(0, b, 8);
        let r = crc_bits(0, b, 8);
        assert(r ^ (b << 8u8) == r && 0 ^ b == b) by (bit_vector);
        let s1 = crc_bit(b, false);
        let s2 = crc_bit(s1, false);
        let s3 = crc_bit(s2, false);
        let s4 = crc_bit(s3, false);
        let s5 = crc_bit(s4, false);
        let s6 = crc_bit(s5, false);
        let s7 = crc_bit(s6, false);
        let s8 = crc_bit(s7, false);
        reveal_with_fuel(shifted, 9);
        assert(shifted(b, 8) == s8);
        assert(s8 == b ^ (b << 1u8) ^ (b << 2u8)) by (bit_vector)
            requires
                b < 64,
                s1 == crc_bit(b, false),
                s2 == crc_bit(s1, false),
                s3 == crc_bit(s2, false),
                s4 == crc_bit(s3, false),
                s5 == crc_bit(s4, false),
                s6 == crc_bit(s5, false),
                s7 == crc_bit(s6, false),
                s8 == crc_bit(s7, false),
        ;
        reveal_with_fuel(crc8_of, 2);
        assert(crc8_of(seq![b]) == crc_bits(0, b, 8));
    }
}

} // verus!
