//! The device's USB serial link: frames in, frames out, and counters of both.

use vstd::prelude::*;

use crate::codec;
use crate::codec::{Decoder, Error};
use crate::stuffing;
use crate::text;

verus! {

/// Upper bound on a single decoded frame, in bytes.
///
/// Sized for a 64x64 RGB565 icon (about 8 KB of pixels plus the overhead of
/// serialization and framing). The decoder sets this much aside up-front, so
/// it is a fixed steady-state cost.
pub const MAX_FRAME_LEN: usize = 12_288;

/// Per-`poll` read budget. Larger = fewer iterations to drain a big icon push,
/// but each poll still completes well under 1 ms of work so the main loop stays
/// responsive.
pub const SCRATCH_LEN: usize = 512;

/// How often one byte is offered to a full FIFO before its frame is dropped.
pub const SPIN_BUDGET: u32 = 20_000;

/// Diagnostic counters, displayed on screen so that one can see what the
/// transport is actually doing without any log output.
#[derive(Debug, Clone, Copy, PartialEq, Eq, Structural)]
pub struct RxStats {
    pub bytes: u32,
    pub ok: u32,
    pub err: u32,
    pub overflow: u32,
    /// Count of outgoing frames dropped because the TX FIFO stayed full past
    /// the per-byte spin budget. Happens when the host isn't reading (e.g. the
    /// companion has exited).
    pub tx_drop: u32,
}

impl Default for RxStats {
    fn default() -> (s: Self)
        ensures
            s == (RxStats { bytes: 0, ok: 0, err: 0, overflow: 0, tx_drop: 0 }),
    {
        RxStats { bytes: 0, ok: 0, err: 0, overflow: 0, tx_drop: 0 }
    }
}

/// A counter that stays at its highest value.
pub open spec fn counted(n: u32, more: int) -> u32 {
    if n + more > u32::MAX {
        u32::MAX
    } else {
        (n + more) as u32
    }
}

/// The counters as text: `t=<tick> b=<bytes> ok=<decoded> er=<errs>
/// of=<overflows>`.
pub open spec fn stats_line(stats: RxStats, tick: u32) -> Seq<char> {
    "t="@ + text::decimal(tick as nat) + " b="@ + text::decimal(stats.bytes as nat) + " ok="@
        + text::decimal(stats.ok as nat) + " er="@ + text::decimal(stats.err as nat) + " of="@
        + text::decimal(stats.overflow as nat)
}

/// The counters as the debug overlay shows them. The `t` counter increments
/// every main-loop iteration: if it stops climbing on-screen, the main loop has
/// hard-locked.
pub fn stats_text(stats: RxStats, tick: u32) -> (line: String)
    ensures
        line@ == stats_line(stats, tick),
{
    let mut line = String::new();
    line.append("t=");
    text::push_decimal(&mut line, tick as u64);
    line.append(" b=");
    text::push_decimal(&mut line, stats.bytes as u64);
    line.append(" ok=");
    text::push_decimal(&mut line, stats.ok as u64);
    line.append(" er=");
    text::push_decimal(&mut line, stats.err as u64);
    line.append(" of=");
    text::push_decimal(&mut line, stats.overflow as u64);
    assert(line@ =~= stats_line(stats, tick));
    line
}

/// The receiving side of the link, and the counters of both sides.
pub struct UsbSerial {
    decoder: Decoder,
    stats: RxStats,
}

/// What a [`UsbSerial`] is at.
#[verifier::ext_equal]
pub struct LinkModel {
    pub buffered: Seq<u8>,
    pub stats: RxStats,
}

impl View for UsbSerial {
    type V = LinkModel;

    closed spec fn view(&self) -> LinkModel {
        LinkModel { buffered: self.decoder@, stats: self.stats }
    }
}

impl LinkModel {
    /// `bytes` are more than the buffer can take.
    pub open spec fn overflows(self, bytes: Seq<u8>) -> bool {
        self.buffered.len() + bytes.len() > MAX_FRAME_LEN
    }

    /// With `bytes` in the buffer, or the buffer emptied where they are too
    /// many.
    pub open spec fn filled(self, bytes: Seq<u8>) -> LinkModel {
        LinkModel {
            buffered: if self.overflows(bytes) {
                Seq::empty()
            } else {
                self.buffered + bytes
            },
            stats: RxStats {
                bytes: counted(self.stats.bytes, bytes.len() as int),
                overflow: counted(
                    self.stats.overflow,
                    if self.overflows(bytes) {
                        1
                    } else {
                        0
                    },
                ),
                ..self.stats
            },
        }
    }

    /// After [`UsbSerial::poll`].
    pub open spec fn polled(self, bytes: Seq<u8>) -> LinkModel {
        let full = self.filled(bytes);
        let next = codec::next_of(full.buffered);
        LinkModel {
            buffered: next.1,
            stats: RxStats {
                err: counted(
                    full.stats.err,
                    if next.0 is Err {
                        1
                    } else {
                        0
                    },
                ),
                ..full.stats
            },
        }
    }

    /// After a payload made sense, or did not.
    pub open spec fn noted(self, sense: bool) -> LinkModel {
        LinkModel {
            stats: if sense {
                RxStats { ok: counted(self.stats.ok, 1), ..self.stats }
            } else {
                RxStats { err: counted(self.stats.err, 1), ..self.stats }
            },
            ..self
        }
    }

    /// After an outgoing frame has been dropped.
    pub open spec fn with_drop(self) -> LinkModel {
        LinkModel {
            stats: RxStats { tx_drop: counted(self.stats.tx_drop, 1), ..self.stats },
            ..self
        }
    }

    /// The payload that [`UsbSerial::poll`] gives.
    pub open spec fn payload(self, bytes: Seq<u8>) -> Option<Seq<u8>> {
        match codec::next_of(self.filled(bytes).buffered).0 {
            Ok(payload) => payload,
            Err(_) => None,
        }
    }
}

impl UsbSerial {
    /// The decoder keeps its bound.
    pub closed spec fn wf(&self) -> bool {
        self.decoder.wf() && self.decoder.limit() == MAX_FRAME_LEN
    }

    /// A link on which nothing has happened.
    pub fn new() -> (u: Self)
        ensures
            u.wf(),
            u@ == (LinkModel {
                buffered: Seq::empty(),
                stats: RxStats { bytes: 0, ok: 0, err: 0, overflow: 0, tx_drop: 0 },
            }),
    {
        UsbSerial { decoder: Decoder::new(MAX_FRAME_LEN), stats: RxStats::default() }
    }

    pub fn stats(&self) -> (s: RxStats)
        ensures
            s == self@.stats,
    {
        self.stats
    }

    /// Take the bytes drained from the RX FIFO and try to decode the next
    /// frame.
    ///
    /// Returns `Some(payload)` once a complete, CRC-valid frame has arrived;
    /// what it means has to go through [`UsbSerial::parsed`]. Call repeatedly,
    /// as multiple frames may already be buffered, with at most `SCRATCH_LEN`
    /// bytes per call so that the main loop always makes progress, even when
    /// the host is pushing bytes continuously.
    pub fn poll(&mut self, bytes: &[u8]) -> (payload: Option<Vec<u8>>)
        requires
            old(self).wf(),
            bytes@.len() <= SCRATCH_LEN,
        ensures
            final(self).wf(),
            final(self)@ == old(self)@.polled(bytes@),
            match payload {
                Some(p) => old(self)@.payload(bytes@) == Some(p@),
                None => old(self)@.payload(bytes@) is None,
            },
    {
        if bytes.len() > 0 {
            self.stats.bytes = self.stats.bytes.saturating_add(bytes.len() as u32);
            if self.decoder.push(bytes).is_err() {
                self.stats.overflow = self.stats.overflow.saturating_add(1);
            }
        }
        assert(self@.buffered =~= old(self)@.filled(bytes@).buffered);
        match self.decoder.next_frame() {
            Ok(payload) => payload,
            Err(_) => {
                self.stats.err = self.stats.err.saturating_add(1);
                None
            },
        }
    }

    /// Count what deserializing a payload gave, and hand the message on.
    pub fn parsed<T>(&mut self, message: Option<T>) -> (r: Option<T>)
        requires
            old(self).wf(),
        ensures
            final(self).wf(),
            r == message,
            final(self)@ == old(self)@.noted(message is Some),
    {
        if message.is_some() {
            self.stats.ok = self.stats.ok.saturating_add(1);
        } else {
            self.stats.err = self.stats.err.saturating_add(1);
        }
        message
    }

    /// Start sending an encoded message. The bytes then have to be offered to
    /// the TX FIFO one by one, and a frame that gets dropped goes to
    /// [`UsbSerial::dropped`].
    pub fn send(&self, encoded: Result<Vec<u8>, Error>) -> (r: Result<Transmit, Error>)
        ensures
            match encoded {
                Ok(frame) => r is Ok && r->Ok_0.wf() && r->Ok_0@ == (TransmitModel {
                    left: frame@,
                    tries: 0,
                }),
                Err(e) => r is Err && r->Err_0 == e,
            },
    {
        match encoded {
            Ok(frame) => Ok(Transmit::new(frame)),
            Err(e) => Err(e),
        }
    }

    /// Count a frame that [`Transmit`] has dropped.
    pub fn dropped(&mut self)
        requires
            old(self).wf(),
        ensures
            final(self).wf(),
            final(self)@ == old(self)@.with_drop(),
    {
        self.stats.tx_drop = self.stats.tx_drop.saturating_add(1);
    }
}

/// How a transmission stands.
#[derive(Debug, Clone, Copy, PartialEq, Eq, Structural)]
pub enum Progress {
    /// There is a byte to offer.
    Offer(u8),
    /// Every byte has been accepted.
    Sent,
    /// A byte has been refused too often.
    Dropped,
}

/// The transmission of one frame, byte by byte, with a bounded spin budget per
/// byte: a host that does not read (e.g. because the companion has exited) must
/// not wedge the main loop.
pub struct Transmit {
    bytes: Vec<u8>,
    next: usize,
    tries: u32,
}

/// What a [`Transmit`] is at: the bytes that have not been accepted, and how
/// often the first of them has been refused.
pub struct TransmitModel {
    pub left: Seq<u8>,
    pub tries: int,
}

impl View for Transmit {
    type V = TransmitModel;

    closed spec fn view(&self) -> TransmitModel {
        TransmitModel { left: self.bytes@.skip(self.next as int), tries: self.tries as int }
    }
}

impl TransmitModel {
    /// How the transmission stands.
    pub open spec fn progress(self) -> Progress {
        if self.left.len() == 0 {
            Progress::Sent
        } else if self.tries >= SPIN_BUDGET {
            Progress::Dropped
        } else {
            Progress::Offer(self.left[0])
        }
    }

    /// After the FIFO took the offered byte, or did not.
    pub open spec fn offered(self, accepted: bool) -> TransmitModel {
        if accepted {
            TransmitModel { left: self.left.skip(1), tries: 0 }
        } else {
            TransmitModel { left: self.left, tries: self.tries + 1 }
        }
    }

    /// How many more offers there can be at most.
    pub open spec fn budget(self) -> int {
        self.left.len() * SPIN_BUDGET - self.tries
    }
}

impl Transmit {
    /// The next byte exists, and its refusals are within the budget.
    pub closed spec fn wf(&self) -> bool {
        self.next <= self.bytes@.len() && self.tries <= SPIN_BUDGET && (self.next
            == self.bytes@.len() ==> self.tries == 0)
    }

    /// The transmission of `frame`.
    pub fn new(frame: Vec<u8>) -> (t: Self)
        ensures
            t.wf(),
            t@ == (TransmitModel { left: frame@, tries: 0 }),
    {
        let t = Transmit { bytes: frame, next: 0, tries: 0 };
        assert(t@.left =~= frame@);
        t
    }

    /// How the transmission stands.
    pub fn progress(&self) -> (p: Progress)
        requires
            self.wf(),
        ensures
            p == self@.progress(),
    {
        if self.next == self.bytes.len() {
            Progress::Sent
        } else if self.tries >= SPIN_BUDGET {
            Progress::Dropped
        } else {
            Progress::Offer(self.bytes[self.next])
        }
    }

    /// The FIFO took the offered byte, or was full.
    pub fn offered(&mut self, accepted: bool)
        requires
            old(self).wf(),
            old(self)@.progress() is Offer,
        ensures
            final(self).wf(),
            final(self)@ == old(self)@.offered(accepted),
    {
        if accepted {
            assert(self.next < self.bytes.len());
            self.next = self.next + 1;
            self.tries = 0;
            assert(self@.left =~= old(self)@.left.skip(1));
        } else {
            self.tries = self.tries + 1;
        }
    }
}

/// Sending ends: every offer, whether the byte is taken or not, uses up some of
/// a budget that is fixed by the frame's length.
pub proof fn law_sending_ends(t: TransmitModel, accepted: bool)
    requires
        t.progress() is Offer,
        0 <= t.tries,
    ensures
        t.offered(accepted).budget() < t.budget(),
        t.offered(accepted).budget() >= 0,
{
    if accepted {
        assert(t.left.skip(1).len() == t.left.len() - 1);
        assert((t.left.len() - 1) * SPIN_BUDGET == t.left.len() * SPIN_BUDGET - SPIN_BUDGET)
            by (nonlinear_arith);
        assert((t.left.len() - 1) * SPIN_BUDGET >= 0) by (nonlinear_arith)
            requires
                t.left.len() >= 1,
        ;
    } else {
        assert(t.left.len() * SPIN_BUDGET >= SPIN_BUDGET) by (nonlinear_arith)
            requires
                t.left.len() >= 1,
        ;
    }
}

/// The buffer never holds more than one frame may have.
pub proof fn law_buffer_is_bounded(u: UsbSerial)
    requires
        u.wf(),
    ensures
        u@.buffered.len() <= MAX_FRAME_LEN,
{
}

/// Frames come out as they were sent, however the bytes are cut up: as long as
/// no terminator has come, what has come stays buffered, and as soon as a frame
/// is there in full, its payload is handed on and what lies behind it stays.
pub proof fn law_frame_is_received(u: LinkModel, bytes: Seq<u8>, payload: Seq<u8>, rest: Seq<u8>)
    requires
        !u.overflows(bytes),
    ensures
        stuffing::zero_free(u.buffered + bytes) ==> {
            &&& u.payload(bytes) is None
            &&& u.polled(bytes).buffered == u.buffered + bytes
        },
        u.buffered + bytes == codec::frame_of(payload) + rest ==> {
            &&& u.payload(bytes) == Some(payload)
            &&& u.polled(bytes).buffered == rest
        },
{
    let all = u.buffered + bytes;
    codec::law_next_is_first_frame(payload, rest);
    if stuffing::zero_free(all) {
        stuffing::lemma_run_of(all, Seq::empty());
        assert(stuffing::after_zeros(all) == all);
    }
}

/// Counters count what has happened, one by one, up to the highest value.
pub proof fn law_counters(n: u32, more: int)
    requires
        0 <= more,
    ensures
        n + more <= u32::MAX ==> counted(n, more) == n + more,
        n + more > u32::MAX ==> counted(n, more) == u32::MAX,
{
}

/// A poll counts the bytes that have come in, that they were too many, and that
/// a frame was bad; it counts neither messages nor dropped frames.
pub proof fn law_poll_counts(u: LinkModel, bytes: Seq<u8>)
    requires
        u.stats.bytes + bytes.len() <= u32::MAX,
        u.stats.overflow < u32::MAX,
        u.stats.err < u32::MAX,
        u.buffered.len() <= 12288,
    ensures
        ({
            let then = u.polled(bytes).stats;
            let too_many = u.buffered.len() + bytes.len() > 12288;
            let all = if too_many {
                Seq::empty()
            } else {
                u.buffered + bytes
            };
            &&& then.bytes == u.stats.bytes + bytes.len()
            &&& then.overflow == u.stats.overflow + (if too_many {
                1int
            } else {
                0
            })
            &&& then.err == u.stats.err + (if codec::next_of(all).0 is Err {
                1int
            } else {
                0
            })
            &&& then.ok == u.stats.ok
            &&& then.tx_drop == u.stats.tx_drop
            &&& u.polled(bytes).buffered == codec::next_of(all).1
            &&& too_many ==> u.payload(bytes) is None && u.polled(bytes).buffered.len() == 0
        }),
{
    assert(stuffing::after_zeros(Seq::<u8>::empty()) =~= Seq::<u8>::empty());
}

/// Bytes are offered in order, each until it is taken: the first one that has
/// not been taken, and the next one only when it has. The frame is dropped where
/// one has been refused as often as it may be.
pub proof fn law_bytes_go_in_order(t: TransmitModel)
    requires
        0 <= t.tries,
    ensures
        t.progress() == Progress::Sent <==> t.left.len() == 0,
        t.progress() == Progress::Dropped <==> t.left.len() > 0 && t.tries >= SPIN_BUDGET,
        t.progress() matches Progress::Offer(b) ==> {
            &&& t.left.len() > 0
            &&& b == t.left[0]
            &&& seq![b] + t.offered(true).left == t.left
            &&& t.offered(true).tries == 0
            &&& t.offered(false).left == t.left
            &&& t.offered(false).tries == t.tries + 1
        },
{
    if t.left.len() > 0 {
        assert(seq![t.left[0]] + t.left.skip(1) =~= t.left);
    }
}

/// Every payload counts either as a message or as an error, and every dropped
/// frame as dropped; nothing else is counted with it, and what is buffered stays.
pub proof fn law_each_is_counted_once(u: LinkModel, sense: bool)
    requires
        u.stats.ok < u32::MAX,
        u.stats.err < u32::MAX,
        u.stats.tx_drop < u32::MAX,
    ensures
        u.noted(true).stats.ok == u.stats.ok + 1,
        u.noted(true).stats.err == u.stats.err,
        u.noted(false).stats.err == u.stats.err + 1,
        u.noted(false).stats.ok == u.stats.ok,
        u.noted(sense).stats.bytes == u.stats.bytes,
        u.noted(sense).stats.overflow == u.stats.overflow,
        u.noted(sense).stats.tx_drop == u.stats.tx_drop,
        u.noted(sense).buffered == u.buffered,
        u.with_drop().stats == (RxStats { tx_drop: (u.stats.tx_drop + 1) as u32, ..u.stats }),
        u.with_drop().buffered == u.buffered,
{
}

} // verus!
