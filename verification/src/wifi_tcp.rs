//! The device's network link: joining, waiting for an address, listening for
//! the companion, and exchanging frames with it.
//!
//! What the radio, the DHCP client and the TCP socket report in the current
//! state comes in by [`WifiTcp::poll`]; what they have to do comes out.

use vstd::prelude::*;

use crate::codec;
use crate::codec::{Decoder, Error};
use crate::messages::{DeviceMessage, DeviceToHost};
use crate::stuffing;
use crate::text;

verus! {

/// The port that the device listens on.
pub const TCP_PORT: u16 = 9000;

/// Upper bound on a single decoded frame, in bytes.
pub const MAX_FRAME_LEN: usize = 12_288;

/// Bytes that one poll takes from the socket at most.
pub const SCRATCH_LEN: usize = 256;

/// Without association for this long, joining is tried again.
pub const ASSOCIATION_MS: u64 = 10_000;

/// Without an address for this long, joining is tried again from scratch.
pub const LEASE_MS: u64 = 15_000;

#[derive(Debug, Clone, Copy, PartialEq, Eq, Structural)]
pub enum WifiTcpState {
    Connecting,
    WaitingForIp,
    Listening,
    Active,
}

/// A change that the DHCP client reports.
#[derive(Debug, Clone, Copy, PartialEq, Eq)]
pub enum Lease {
    /// An address has been obtained.
    Configured([u8; 4]),
    /// The address is no longer valid.
    Deconfigured,
}

/// What the network reports: in each state what that state waits for.
#[derive(Debug, Clone, Copy, PartialEq, Eq)]
pub enum Report<'a> {
    /// In `Connecting`: the radio is associated, or not.
    Radio { connected: bool },
    /// In `WaitingForIp`: what the DHCP client reports, if anything.
    Dhcp(Option<Lease>),
    /// In `Listening`: the socket listens, has a client, or neither.
    Socket { listening: bool, active: bool },
    /// In `Active`: the socket still has its client, or not, and the bytes that
    /// have come in.
    Data { active: bool, bytes: &'a [u8] },
}

/// What the network has to do after a report.
#[derive(Debug, Clone, Copy, PartialEq, Eq, Structural)]
pub enum NetAction {
    Nothing,
    /// Join again.
    Reconnect,
    /// Take the leased address and its router.
    Configure,
    /// Drop the address and the route, and join again.
    Clear,
    /// Have the socket listen.
    Listen,
    /// Abort what is left of the connection.
    Abort,
}

/// The device's network link.
pub struct WifiTcp {
    decoder: Decoder,
    state: WifiTcpState,
    pub connected_ip: Option<heapless::String<16>>,
    pending_event: Option<DeviceToHost>,
    /// When the current Connecting/WaitingForIp state was entered, or its last
    /// retry made. Drives the retry timeout.
    phase_started_ms: u64,
}

/// What a [`WifiTcp`] is at.
#[verifier::ext_equal]
pub struct WifiModel {
    pub state: WifiTcpState,
    pub ip: Option<Seq<char>>,
    pub event: Option<DeviceMessage>,
    pub since: u64,
    pub buffered: Seq<u8>,
}

impl View for WifiTcp {
    type V = WifiModel;

    closed spec fn view(&self) -> WifiModel {
        WifiModel {
            state: self.state,
            ip: match self.connected_ip {
                Some(ip) => Some(text::text16(ip)),
                None => None,
            },
            event: match self.pending_event {
                Some(e) => Some(e@),
                None => None,
            },
            since: self.phase_started_ms,
            buffered: self.decoder@,
        }
    }
}

/// An address in dotted decimal.
pub open spec fn dotted(octets: Seq<u8>) -> Seq<char> {
    text::decimal(octets[0] as nat) + seq!['.'] + text::decimal(octets[1] as nat) + seq!['.']
        + text::decimal(octets[2] as nat) + seq!['.'] + text::decimal(octets[3] as nat)
}

/// An address in dotted decimal. It always fits.
pub fn ip_text(octets: [u8; 4]) -> (ip: heapless::String<16>)
    ensures
        text::text16(ip) == dotted(octets@),
{
    let mut ip = text::new16();
    let (a, b, c, d) = (octets[0], octets[1], octets[2], octets[3]);
    proof {
        text::lemma_decimal_ascii(a as nat);
        text::lemma_decimal_ascii(b as nat);
        text::lemma_decimal_ascii(c as nat);
        text::lemma_decimal_ascii(d as nat);
    }
    text::push_decimal16(&mut ip, a);
    push_dot(&mut ip);
    text::push_decimal16(&mut ip, b);
    push_dot(&mut ip);
    text::push_decimal16(&mut ip, c);
    push_dot(&mut ip);
    text::push_decimal16(&mut ip, d);
    assert(text::text16(ip) =~= dotted(octets@));
    ip
}

fn push_dot(ip: &mut heapless::String<16>)
    requires
        text::ascii(text::text16(*old(ip))),
        text::text16(*old(ip)).len() < 16,
    ensures
        text::text16(*final(ip)) == text::text16(*old(ip)) + seq!['.'],
        text::ascii(text::text16(*final(ip))),
{
    let ghost more = text::text16(*ip).push('.');
    proof {
        text::lemma_ascii_bytes(more);
    }
    let _ = text::push16(ip, '.');
    assert(more =~= text::text16(*old(ip)) + seq!['.']);
}

impl WifiModel {
    /// More than `limit` has passed since the phase began.
    pub open spec fn overdue(self, now_ms: u64, limit: u64) -> bool {
        now_ms - self.since > limit
    }

    /// After [`WifiTcp::poll_connecting`].
    pub open spec fn associated(self, now_ms: u64, connected: bool) -> WifiModel {
        if connected {
            WifiModel { state: WifiTcpState::WaitingForIp, since: now_ms, ..self }
        } else if self.overdue(now_ms, ASSOCIATION_MS) {
            WifiModel { since: now_ms, ..self }
        } else {
            self
        }
    }

    /// After [`WifiTcp::poll_lease`].
    pub open spec fn leased(self, now_ms: u64, lease: Option<Lease>) -> WifiModel {
        match lease {
            Some(Lease::Configured(octets)) => WifiModel {
                state: WifiTcpState::Listening,
                ip: Some(dotted(octets@)),
                event: Some(DeviceMessage::WifiStatus { connected: true, ip: dotted(octets@) }),
                ..self
            },
            Some(Lease::Deconfigured) => WifiModel {
                state: WifiTcpState::Connecting,
                ip: None,
                since: now_ms,
                ..self
            },
            None => if self.overdue(now_ms, LEASE_MS) {
                WifiModel { state: WifiTcpState::Connecting, since: now_ms, ..self }
            } else {
                self
            },
        }
    }

    /// What [`WifiTcp::poll_lease`] asks for.
    pub open spec fn lease_action(self, now_ms: u64, lease: Option<Lease>) -> NetAction {
        match lease {
            Some(Lease::Configured(_)) => NetAction::Configure,
            Some(Lease::Deconfigured) => NetAction::Clear,
            None => if self.overdue(now_ms, LEASE_MS) {
                NetAction::Reconnect
            } else {
                NetAction::Nothing
            },
        }
    }

    /// After [`WifiTcp::poll_listening`].
    pub open spec fn listened(self, active: bool) -> WifiModel {
        WifiModel {
            state: if active {
                WifiTcpState::Active
            } else {
                WifiTcpState::Listening
            },
            ..self
        }
    }

    /// The bytes buffered when `bytes` have come in: all of them, or none where
    /// they are too many.
    pub open spec fn filled(self, bytes: Seq<u8>) -> Seq<u8> {
        if self.buffered.len() + bytes.len() > MAX_FRAME_LEN {
            Seq::empty()
        } else {
            self.buffered + bytes
        }
    }

    /// After [`WifiTcp::poll_active`].
    pub open spec fn fed(self, active: bool, bytes: Seq<u8>) -> WifiModel {
        if !active {
            WifiModel { state: WifiTcpState::Listening, ..self }
        } else {
            WifiModel { buffered: codec::next_of(self.filled(bytes)).1, ..self }
        }
    }

    /// The payload that [`WifiTcp::poll_active`] gives.
    pub open spec fn fed_payload(self, active: bool, bytes: Seq<u8>) -> Option<Seq<u8>> {
        if !active {
            None
        } else {
            match codec::next_of(self.filled(bytes)).0 {
                Ok(payload) => payload,
                Err(_) => None,
            }
        }
    }

    /// The frame is handed to a socket with `free` bytes of room.
    pub open spec fn sends(self, frame: Seq<u8>, free: nat) -> bool {
        self.state == WifiTcpState::Active && frame.len() <= free
    }

    /// The report is what the current state waits for.
    pub open spec fn waits_for(self, report: Report) -> bool {
        match self.state {
            WifiTcpState::Connecting => report is Radio,
            WifiTcpState::WaitingForIp => report is Dhcp,
            WifiTcpState::Listening => report is Socket,
            WifiTcpState::Active => report is Data,
        }
    }

    /// After [`WifiTcp::poll`].
    pub open spec fn polled(self, now_ms: u64, report: Report) -> WifiModel {
        match report {
            Report::Radio { connected } => self.associated(now_ms, connected),
            Report::Dhcp(lease) => self.leased(now_ms, lease),
            Report::Socket { listening: _, active } => self.listened(active),
            Report::Data { active, bytes } => self.fed(active, bytes@),
        }
    }

    /// What [`WifiTcp::poll`] asks for.
    pub open spec fn action(self, now_ms: u64, report: Report) -> NetAction {
        match report {
            Report::Radio { connected } => if !connected && self.overdue(now_ms, ASSOCIATION_MS) {
                NetAction::Reconnect
            } else {
                NetAction::Nothing
            },
            Report::Dhcp(lease) => self.lease_action(now_ms, lease),
            Report::Socket { listening, active } => if !listening && !active {
                NetAction::Listen
            } else {
                NetAction::Nothing
            },
            Report::Data { active, bytes: _ } => if active {
                NetAction::Nothing
            } else {
                NetAction::Abort
            },
        }
    }

    /// The payload that [`WifiTcp::poll`] gives.
    pub open spec fn payload(self, report: Report) -> Option<Seq<u8>> {
        match report {
            Report::Data { active, bytes } => self.fed_payload(active, bytes@),
            _ => None,
        }
    }
}

impl WifiTcp {
    /// The decoder keeps its bound.
    pub closed spec fn wf(&self) -> bool {
        self.decoder.wf() && self.decoder.limit() == MAX_FRAME_LEN
    }

    /// A link whose radio has been told to join at time zero.
    pub fn new() -> (w: Self)
        ensures
            w.wf(),
            w@ == (WifiModel {
                state: WifiTcpState::Connecting,
                ip: None,
                event: None,
                since: 0,
                buffered: Seq::empty(),
            }),
    {
        WifiTcp {
            decoder: Decoder::new(MAX_FRAME_LEN),
            state: WifiTcpState::Connecting,
            connected_ip: None,
            pending_event: None,
            phase_started_ms: 0,
        }
    }

    /// The current state.
    pub fn state(&self) -> (s: WifiTcpState)
        ensures
            s == self@.state,
    {
        self.state
    }

    /// Drive the link for one tick, with what the network reports in the
    /// current state.
    ///
    /// Returns what the network has to do, and the payload of a complete, valid
    /// frame. There is no payload on every tick where no incoming frame is
    /// ready.
    pub fn poll(&mut self, now_ms: u64, report: Report) -> (r: (NetAction, Option<Vec<u8>>))
        requires
            old(self).wf(),
            old(self)@.waits_for(report),
        ensures
            final(self).wf(),
            final(self)@ == old(self)@.polled(now_ms, report),
            r.0 == old(self)@.action(now_ms, report),
            match r.1 {
                Some(p) => old(self)@.payload(report) == Some(p@),
                None => old(self)@.payload(report) is None,
            },
    {
        match report {
            Report::Radio { connected } => {
                if self.poll_connecting(now_ms, connected) {
                    (NetAction::Reconnect, None)
                } else {
                    (NetAction::Nothing, None)
                }
            },
            Report::Dhcp(lease) => (self.poll_lease(now_ms, lease), None),
            Report::Socket { listening, active } => {
                if self.poll_listening(listening, active) {
                    (NetAction::Listen, None)
                } else {
                    (NetAction::Nothing, None)
                }
            },
            Report::Data { active, bytes } => {
                let payload = self.poll_active(active, bytes);
                if active {
                    (NetAction::Nothing, payload)
                } else {
                    (NetAction::Abort, payload)
                }
            },
        }
    }

    /// In `Connecting`: the radio is associated, or not. True means that
    /// joining has to be tried again.
    pub fn poll_connecting(&mut self, now_ms: u64, connected: bool) -> (reconnect: bool)
        requires
            old(self).wf(),
            old(self)@.state == WifiTcpState::Connecting,
        ensures
            final(self).wf(),
            final(self)@ == old(self)@.associated(now_ms, connected),
            reconnect == (!connected && old(self)@.overdue(now_ms, ASSOCIATION_MS)),
    {
        if connected {
            self.phase_started_ms = now_ms;
            self.state = WifiTcpState::WaitingForIp;
            false
        } else if now_ms.saturating_sub(self.phase_started_ms) > ASSOCIATION_MS {
            self.phase_started_ms = now_ms;
            true
        } else {
            false
        }
    }

    /// In `WaitingForIp`: what the DHCP client reports, if anything.
    pub fn poll_lease(&mut self, now_ms: u64, lease: Option<Lease>) -> (action: NetAction)
        requires
            old(self).wf(),
            old(self)@.state == WifiTcpState::WaitingForIp,
        ensures
            final(self).wf(),
            final(self)@ == old(self)@.leased(now_ms, lease),
            action == old(self)@.lease_action(now_ms, lease),
    {
        match lease {
            Some(Lease::Configured(octets)) => {
                let ip = ip_text(octets);
                self.connected_ip = Some(ip.clone());
                self.pending_event = Some(DeviceToHost::WifiStatus { connected: true, ip });
                self.state = WifiTcpState::Listening;
                NetAction::Configure
            },
            Some(Lease::Deconfigured) => {
                self.connected_ip = None;
                self.phase_started_ms = now_ms;
                self.state = WifiTcpState::Connecting;
                NetAction::Clear
            },
            None => {
                if now_ms.saturating_sub(self.phase_started_ms) > LEASE_MS {
                    self.phase_started_ms = now_ms;
                    self.state = WifiTcpState::Connecting;
                    NetAction::Reconnect
                } else {
                    NetAction::Nothing
                }
            },
        }
    }

    /// In `Listening`: the socket listens, has a client, or neither. True means
    /// that the socket has to be told to listen.
    pub fn poll_listening(&mut self, listening: bool, active: bool) -> (listen: bool)
        requires
            old(self).wf(),
            old(self)@.state == WifiTcpState::Listening,
        ensures
            final(self).wf(),
            final(self)@ == old(self)@.listened(active),
            listen == (!listening && !active),
    {
        if active {
            self.state = WifiTcpState::Active;
        }
        !listening && !active
    }

    /// In `Active`: the socket still has its client, or not, and the bytes that
    /// have come in. Without a client the socket has to be aborted.
    ///
    /// Returns the payload of a complete, valid frame.
    pub fn poll_active(&mut self, active: bool, bytes: &[u8]) -> (payload: Option<Vec<u8>>)
        requires
            old(self).wf(),
            old(self)@.state == WifiTcpState::Active,
        ensures
            final(self).wf(),
            final(self)@ == old(self)@.fed(active, bytes@),
            match payload {
                Some(p) => old(self)@.fed_payload(active, bytes@) == Some(p@),
                None => old(self)@.fed_payload(active, bytes@) is None,
            },
    {
        if !active {
            self.state = WifiTcpState::Listening;
            return None;
        }
        if self.decoder.push(bytes).is_err() {
            self.decoder.reset();
        }
        match self.decoder.next_frame() {
            Ok(payload) => payload,
            Err(_) => None,
        }
    }

    /// Consume and return any pending WiFi status event (e.g. IP acquired).
    ///
    /// Returns `Some` once after the IP is first obtained, then `None` until
    /// the next connectivity change.
    pub fn take_event(&mut self) -> (event: Option<DeviceToHost>)
        requires
            old(self).wf(),
        ensures
            final(self).wf(),
            final(self)@ == (WifiModel { event: None, ..old(self)@ }),
            match event {
                Some(e) => old(self)@.event == Some(e@),
                None => old(self)@.event is None,
            },
    {
        self.pending_event.take()
    }

    /// Returns `true` while a TCP client is connected.
    pub fn is_active(&self) -> (r: bool)
        ensures
            r == (self@.state == WifiTcpState::Active),
    {
        self.state == WifiTcpState::Active
    }

    /// The bytes to hand to the socket for an encoded message. Silently drops
    /// the message if it could not be encoded, if no client is connected or if
    /// it does not fit into the `free` bytes of the TCP send buffer: a frame is
    /// never cut.
    pub fn send(&self, encoded: Result<Vec<u8>, Error>, free: usize) -> (bytes: Option<Vec<u8>>)
        ensures
            bytes is Some <==> encoded is Ok && self@.sends(encoded->Ok_0@, free as nat),
            bytes is Some ==> bytes->0@ == encoded->Ok_0@,
    {
        if !self.is_active() {
            return None;
        }
        match encoded {
            Ok(bytes) => if bytes.len() <= free {
                Some(bytes)
            } else {
                None
            },
            Err(_) => None,
        }
    }
}

/// The buffer never holds more than one frame may have.
pub proof fn law_buffer_is_bounded(w: WifiTcp)
    requires
        w.wf(),
    ensures
        w@.buffered.len() <= MAX_FRAME_LEN,
{
}

/// The device reports an address exactly once for each lease: polling raises
/// the event with the lease, taking it clears it, and nothing else raises it.
pub proof fn law_event_once(w: WifiModel, now_ms: u64, report: Report)
    ensures
        w.polled(now_ms, report).event == (match report {
            Report::Dhcp(Some(Lease::Configured(octets))) => Some(
                DeviceMessage::WifiStatus { connected: true, ip: dotted(octets@) },
            ),
            _ => w.event,
        }),
{
}

/// The link after polls at the given times, while the radio never associates.
pub open spec fn unassociated(w: WifiModel, times: Seq<u64>) -> WifiModel
    decreases times.len(),
{
    if times.len() == 0 {
        w
    } else {
        unassociated(w, times.drop_last()).polled(times.last(), Report::Radio { connected: false })
    }
}

/// Of these polls, the one with the given index asks for joining again.
pub open spec fn rejoins(w: WifiModel, times: Seq<u64>, i: int) -> bool {
    unassociated(w, times.take(i)).action(times[i], Report::Radio { connected: false })
        == NetAction::Reconnect
}

/// A link whose network never associates keeps joining, and does nothing else:
/// it is never active and gives no payload, and it tries again exactly on the
/// polls that come more than the waiting time after the last try, which was the
/// start or the last poll that tried again.
pub proof fn law_joining_is_retried(w: WifiModel, times: Seq<u64>, i: int, last: int)
    requires
        w.state == WifiTcpState::Connecting,
        -1 <= last < i < times.len(),
        last >= 0 ==> rejoins(w, times, last),
        forall|j: int| last < j < i ==> !rejoins(w, times, j),
    ensures
        ({
            let before = unassociated(w, times.take(i));
            let silence = Report::Radio { connected: false };
            let tried: u64 = if last >= 0 {
                times[last]
            } else {
                w.since
            };
            &&& before.state == WifiTcpState::Connecting
            &&& before.waits_for(silence)
            &&& before.payload(silence) is None
            &&& before.action(times[i], silence) == (if times[i] - tried > ASSOCIATION_MS {
                NetAction::Reconnect
            } else {
                NetAction::Nothing
            })
        }),
{
    lemma_unassociated(w, times, i, last);
}

proof fn lemma_unassociated(w: WifiModel, times: Seq<u64>, i: int, last: int)
    requires
        w.state == WifiTcpState::Connecting,
        -1 <= last < i <= times.len(),
        last >= 0 ==> rejoins(w, times, last),
        forall|j: int| last < j < i ==> !rejoins(w, times, j),
    ensures
        ({
            let before = unassociated(w, times.take(i));
            &&& before.state == WifiTcpState::Connecting
            &&& before.since == if last >= 0 {
                times[last]
            } else {
                w.since
            }
        }),
    decreases i,
{
    if i > 0 {
        assert(times.take(i).drop_last() =~= times.take(i - 1));
        if last == i - 1 {
            lemma_stays_connecting(w, times, i - 1);
        } else {
            lemma_unassociated(w, times, i - 1, last);
            assert(!rejoins(w, times, i - 1));
        }
    }
}

proof fn lemma_stays_connecting(w: WifiModel, times: Seq<u64>, i: int)
    requires
        w.state == WifiTcpState::Connecting,
        0 <= i <= times.len(),
    ensures
        unassociated(w, times.take(i)).state == WifiTcpState::Connecting,
    decreases i,
{
    if i > 0 {
        assert(times.take(i).drop_last() =~= times.take(i - 1));
        lemma_stays_connecting(w, times, i - 1);
    }
}

/// Joining never waits for good: in either waiting state, once the time is up,
/// the next poll without news starts a new attempt and a new waiting time.
pub proof fn law_retries(w: WifiModel, now_ms: u64)
    ensures
        w.overdue(now_ms, ASSOCIATION_MS) ==> w.associated(now_ms, false).since == now_ms,
        w.overdue(now_ms, LEASE_MS) ==> {
            &&& w.leased(now_ms, None).since == now_ms
            &&& w.leased(now_ms, None).state == WifiTcpState::Connecting
        },
{
}

/// Frames come out as they were sent, however the bytes are cut up: as long as
/// no terminator has come, what has come stays buffered, and as soon as a frame
/// is there in full, the next poll, with new bytes or without, hands its payload
/// on and what lies behind it stays.
pub proof fn law_frame_is_received(
    w: WifiModel,
    now_ms: u64,
    report: Report,
    payload: Seq<u8>,
    rest: Seq<u8>,
)
    requires
        report matches Report::Data { active, bytes } && active && w.buffered.len() + bytes@.len()
            <= MAX_FRAME_LEN,
    ensures
        ({
            let all = w.buffered + report->bytes@;
            &&& stuffing::zero_free(all) ==> {
                &&& w.payload(report) is None
                &&& w.polled(now_ms, report).buffered == all
            }
            &&& all == codec::frame_of(payload) + rest ==> {
                &&& w.payload(report) == Some(payload)
                &&& w.polled(now_ms, report).buffered == rest
            }
        }),
{
    let all = w.buffered + report->bytes@;
    codec::law_next_is_first_frame(payload, rest);
    if stuffing::zero_free(all) {
        stuffing::lemma_run_of(all, Seq::empty());
        assert(stuffing::after_zeros(all) == all);
    }
}

/// How the link goes from state to state: from joining to waiting for an
/// address, from there to listening with the leased address, and to its client
/// and back as that comes and goes. A lost lease, or none in time, starts anew.
pub proof fn law_states_follow(w: WifiModel, now_ms: u64, lease: Option<Lease>, bytes: Seq<u8>)
    ensures
        w.associated(now_ms, true) == (WifiModel {
            state: WifiTcpState::WaitingForIp,
            since: now_ms,
            ..w
        }),
        w.associated(now_ms, false).state == w.state,
        lease matches Some(Lease::Configured(octets)) ==> {
            &&& w.leased(now_ms, lease).state == WifiTcpState::Listening
            &&& w.leased(now_ms, lease).ip == Some(dotted(octets@))
            &&& w.lease_action(now_ms, lease) == NetAction::Configure
        },
        lease matches Some(Lease::Deconfigured) ==> {
            &&& w.leased(now_ms, lease).state == WifiTcpState::Connecting
            &&& w.leased(now_ms, lease).ip is None
            &&& w.leased(now_ms, lease).since == now_ms
            &&& w.lease_action(now_ms, lease) == NetAction::Clear
        },
        lease is None && now_ms - w.since > 15000 ==> {
            &&& w.leased(now_ms, lease) == (WifiModel {
                state: WifiTcpState::Connecting,
                since: now_ms,
                ..w
            })
            &&& w.lease_action(now_ms, lease) == NetAction::Reconnect
        },
        lease is None && now_ms - w.since <= 15000 ==> {
            &&& w.leased(now_ms, lease) == w
            &&& w.lease_action(now_ms, lease) == NetAction::Nothing
        },
        w.listened(true) == (WifiModel { state: WifiTcpState::Active, ..w }),
        w.listened(false) == (WifiModel { state: WifiTcpState::Listening, ..w }),
        w.fed(false, bytes) == (WifiModel { state: WifiTcpState::Listening, ..w }),
        w.fed(true, bytes).state == w.state,
        w.fed(true, bytes).ip == w.ip,
        w.fed_payload(false, bytes) is None,
{
}

/// What the network is asked for: to listen where the socket does neither that
/// nor has a client, to abort where the client is gone, and to join again where
/// more than ten seconds have brought no association.
pub proof fn law_network_is_asked(w: WifiModel, now_ms: u64, report: Report)
    ensures
        match report {
            Report::Radio { connected } => w.action(now_ms, report) == (if !connected && now_ms
                - w.since > 10000 {
                NetAction::Reconnect
            } else {
                NetAction::Nothing
            }),
            Report::Dhcp(lease) => w.action(now_ms, report) == w.lease_action(now_ms, lease),
            Report::Socket { listening, active } => w.action(now_ms, report) == (if listening
                || active {
                NetAction::Nothing
            } else {
                NetAction::Listen
            }),
            Report::Data { active, .. } => w.action(now_ms, report) == (if active {
                NetAction::Nothing
            } else {
                NetAction::Abort
            }),
        },
        !(report is Data) ==> w.payload(report) is None && w.polled(now_ms, report).buffered
            == w.buffered,
{
}

/// Bytes that would make the buffer too long empty it, and give no payload; all
/// others are kept behind what was there.
pub proof fn law_overflow_empties(w: WifiModel, bytes: Seq<u8>)
    ensures
        w.buffered.len() + bytes.len() > 12288 ==> w.fed(true, bytes).buffered.len() == 0
            && w.fed_payload(true, bytes) is None,
        w.buffered.len() + bytes.len() <= 12288 ==> {
            &&& w.fed(true, bytes).buffered == codec::next_of(w.buffered + bytes).1
            &&& codec::next_of(w.buffered + bytes).0 matches Ok(p) ==> w.fed_payload(true, bytes)
                == p
            &&& codec::next_of(w.buffered + bytes).0 is Err ==> w.fed_payload(true, bytes) is None
        },
{
    assert(stuffing::after_zeros(Seq::<u8>::empty()) =~= Seq::<u8>::empty());
}

/// A frame is sent to a client alone, and only where all of it fits.
pub proof fn law_frames_are_not_cut(w: WifiModel, frame: Seq<u8>, free: nat)
    ensures
        w.sends(frame, free) ==> w.state == WifiTcpState::Active && frame.len() <= free,
        w.state == WifiTcpState::Active && frame.len() <= free ==> w.sends(frame, free),
{
}

/// The text of an address has its four numbers in decimal, in order, with a dot
/// between each two.
pub proof fn law_dotted_numbers(octets: Seq<u8>, a: int, b: int, c: int)
    requires
        octets.len() == 4,
        a == text::decimal(octets[0] as nat).len(),
        b == a + 1 + text::decimal(octets[1] as nat).len(),
        c == b + 1 + text::decimal(octets[2] as nat).len(),
    ensures
        ({
            let ip = dotted(octets);
            &&& c < ip.len()
            &&& ip[a] == '.'
            &&& ip[b] == '.'
            &&& ip[c] == '.'
            &&& text::number_of(ip.take(a)) == octets[0]
            &&& text::number_of(ip.subrange(a + 1, b)) == octets[1]
            &&& text::number_of(ip.subrange(b + 1, c)) == octets[2]
            &&& text::number_of(ip.skip(c + 1)) == octets[3]
        }),
{
    let ip = dotted(octets);
    text::law_decimal_means_its_number(octets[0] as nat);
    text::law_decimal_means_its_number(octets[1] as nat);
    text::law_decimal_means_its_number(octets[2] as nat);
    text::law_decimal_means_its_number(octets[3] as nat);
    assert(ip.take(a) =~= text::decimal(octets[0] as nat));
    assert(ip.subrange(a + 1, b) =~= text::decimal(octets[1] as nat));
    assert(ip.subrange(b + 1, c) =~= text::decimal(octets[2] as nat));
    assert(ip.skip(c + 1) =~= text::decimal(octets[3] as nat));
}

} // verus!
