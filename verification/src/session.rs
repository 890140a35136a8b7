//! One status query from beginning to end, as a state machine. The session
//! owns no connection: whoever drives it does the connecting, sending and
//! receiving, tells the session what happened and when, and does what the
//! session answers. Every decision of the protocol is taken here.

use crate::buffer::{frame_parse, frame_wire, BufferState, FrameScan, PacketBuffer};
use crate::packet::{
    body_parse, decode, encode, lemma_decode_encode, Direction, EncodeError, Packet, PacketView,
    Phase, ProtocolVersion,
};
use crate::text::text_fits;
use crate::varint::lemma_scan_width;
use vstd::prelude::*;

verus! {

/// The number of pongs with a foreign payload that a session lets pass. One
/// more fails it.
pub const MAX_STRAY_PONGS: u8 = 8;

/// Why a session failed.
#[derive(Debug, Clone, Copy, PartialEq, Eq, Structural)]
pub enum FailureCause {
    /// The target could not be reached.
    ConnectError,
    /// Sending or receiving failed, the connection was closed, or the driver
    /// reported something the session was not waiting for.
    IoError,
    /// A frame was malformed, or held no packet that the session could take
    /// at that point.
    DecodeError,
    /// More pongs with a foreign payload arrived than a session lets pass.
    StrayOverflow,
    /// The time allowed for the whole query ran out.
    TimeoutError,
}

/// Where a session stands.
#[derive(Debug, Clone, Copy, PartialEq, Eq, Structural)]
pub enum SessionState {
    /// Nothing has happened yet; the driver is connecting.
    Init,
    /// The handshake has been handed to the transport.
    HandshakeSent,
    /// The status request has been handed to the transport.
    StatusRequested,
    /// Waiting for the frame that holds the status.
    AwaitingStatus,
    /// The status is in; the ping has been handed to the transport.
    PingSent,
    /// Waiting for the pong that answers the ping.
    AwaitingPong,
    /// The query is complete.
    Done,
    /// The query was given up.
    Failed(FailureCause),
}

/// What the driver reports.
#[derive(Debug, Clone, PartialEq, Eq)]
pub enum Event {
    /// The connection is open.
    Connected,
    /// The connection could not be opened.
    ConnectFailed,
    /// The bytes of the last `Send` are out.
    Sent,
    /// The transport delivered these bytes.
    Received(Vec<u8>),
    /// Sending or receiving failed, or the other side closed the connection.
    IoFailed,
    /// The driver's timer for the whole query fired.
    DeadlineExceeded,
}

/// What the driver is to do next.
#[derive(Debug, Clone, PartialEq, Eq)]
pub enum Action {
    /// Send these bytes, then report `Sent`.
    Send(Vec<u8>),
    /// Wait for bytes, then report `Received`.
    Receive,
    /// Close the connection: the query is complete.
    Finish,
    /// Close the connection: the query was given up.
    Abort,
}

/// An event as the contracts speak of it.
pub enum EventView {
    Connected,
    ConnectFailed,
    Sent,
    Received(Seq<u8>),
    IoFailed,
    DeadlineExceeded,
}

/// An action as the contracts speak of it.
pub enum ActionView {
    Send(Seq<u8>),
    Receive,
    Finish,
    Abort,
}

impl View for Event {
    type V = EventView;

    open spec fn view(&self) -> EventView {
        match *self {
            Event::Connected => EventView::Connected,
            Event::ConnectFailed => EventView::ConnectFailed,
            Event::Sent => EventView::Sent,
            Event::Received(chunk) => EventView::Received(chunk@),
            Event::IoFailed => EventView::IoFailed,
            Event::DeadlineExceeded => EventView::DeadlineExceeded,
        }
    }
}

impl View for Action {
    type V = ActionView;

    open spec fn view(&self) -> ActionView {
        match *self {
            Action::Send(bytes) => ActionView::Send(bytes@),
            Action::Receive => ActionView::Receive,
            Action::Finish => ActionView::Finish,
            Action::Abort => ActionView::Abort,
        }
    }
}

/// What a completed query found.
#[derive(Debug, Clone, PartialEq, Eq)]
pub struct StatusReply {
    /// The text of the status response. To read it as JSON is the caller's
    /// business.
    pub json_text: String,
    /// The milliseconds between the ping and its pong.
    pub latency: u128,
}

/// A session as the contracts speak of it.
pub struct SessionView {
    pub state: SessionState,
    /// The revision that the session speaks.
    pub version: ProtocolVersion,
    /// The framed handshake, written when the session was made.
    pub handshake: Seq<u8>,
    /// When the session was made, in milliseconds.
    pub started: u128,
    /// The milliseconds allowed for the whole query.
    pub budget: u128,
    /// Bytes received and not yet taken as frames.
    pub pending: Seq<u8>,
    /// The text of the status response, once it is in.
    pub json_text: Option<Seq<char>>,
    /// When the ping was made; it is meaningful once the status is in.
    pub ping_sent_at: u128,
    /// The pongs with a foreign payload seen so far.
    pub strays: u8,
    /// The measured latency, once the query is complete.
    pub latency: Option<u128>,
}

/// The payload of a ping made at `now`: the time, kept below two to the 63
/// so that it is a positive 64-bit number.
pub open spec fn stamp(now: u128) -> i64 {
    (now % 0x8000_0000_0000_0000) as i64
}

/// The milliseconds from `from` to `now`; none if the clock went back.
pub open spec fn elapsed(from: u128, now: u128) -> u128 {
    if now >= from {
        (now - from) as u128
    } else {
        0
    }
}

/// The wire bytes of a packet in a session of the given revision.
pub open spec fn wire_of(p: PacketView, version: ProtocolVersion) -> Seq<u8> {
    frame_wire(p.body(version.revision_of()))
}

impl SessionView {
    /// A session on which nothing has happened yet.
    pub open spec fn fresh(
        version: ProtocolVersion,
        handshake: Seq<u8>,
        started: u128,
        budget: u128,
    ) -> SessionView {
        SessionView {
            state: SessionState::Init,
            version,
            handshake,
            started,
            budget,
            pending: Seq::empty(),
            json_text: None,
            ping_sent_at: 0,
            strays: 0,
            latency: None,
        }
    }

    /// What holds of every session that was made by `Session::new` and told
    /// what happened since: a latency is there exactly when the query is
    /// complete, the status text is in from the ping on and not before, and
    /// no more strays are counted than are let pass.
    pub open spec fn wf(self) -> bool {
        &&& self.strays <= MAX_STRAY_PONGS
        &&& (self.state is Done <==> self.latency is Some)
        &&& (self.state is PingSent || self.state is AwaitingPong || self.state is Done)
            ==> self.json_text is Some
        &&& (self.state is Init || self.state is HandshakeSent || self.state is StatusRequested
            || self.state is AwaitingStatus) ==> self.json_text is None
    }

    /// What the query found, if it is complete.
    pub open spec fn reply(self) -> Option<(Seq<char>, u128)> {
        match (self.state, self.json_text, self.latency) {
            (SessionState::Done, Some(json_text), Some(latency)) => Some((json_text, latency)),
            _ => None,
        }
    }

    /// Whether the session has ended.
    pub open spec fn terminal(self) -> bool {
        self.state is Done || self.state is Failed
    }

    /// Whether the time allowed has run out at `now`.
    pub open spec fn overdue(self, now: u128) -> bool {
        elapsed(self.started, now) >= self.budget
    }

    /// The session given up for `cause`.
    pub open spec fn fail(self, cause: FailureCause) -> (SessionView, ActionView) {
        (SessionView { state: SessionState::Failed(cause), latency: None, ..self }, ActionView::Abort)
    }

    /// The session moved past the first `used` pending bytes.
    pub open spec fn advance(self, used: nat) -> SessionView {
        SessionView { pending: self.pending.subrange(used as int, self.pending.len() as int), ..self }
    }

    /// A session that waits for the status looks at the front of what is
    /// pending. A whole frame has to hold the status response: the session
    /// keeps its text and pings, stamped with the time. Any other frame, and
    /// a front that is no frame, fails the session.
    pub open spec fn await_status(self, now: u128) -> (SessionView, ActionView) {
        match frame_parse(self.pending) {
            FrameScan::Waiting => (self, ActionView::Receive),
            FrameScan::Error => self.fail(FailureCause::DecodeError),
            FrameScan::Ready { body, used } => {
                match body_parse(body, Direction::ClientBound, Phase::Status) {
                    Ok(PacketView::StatusResponse { json_text }) => (
                        SessionView {
                            state: SessionState::PingSent,
                            json_text: Some(json_text),
                            ping_sent_at: now,
                            ..self.advance(used)
                        },
                        ActionView::Send(
                            wire_of(PacketView::Ping { payload: stamp(now) }, self.version),
                        ),
                    ),
                    _ => self.advance(used).fail(FailureCause::DecodeError),
                }
            },
        }
    }

    /// A session that waits for the pong takes the whole frames that are
    /// pending one after the other. The pong with the ping's payload
    /// completes the query; a pong with another payload is a stray; other
    /// packets of the server are passed over; a frame that holds no packet
    /// of the server, and a front that is no frame, fail the session.
    pub open spec fn await_pong(self, now: u128) -> (SessionView, ActionView)
        decreases self.pending.len(),
    {
        match frame_parse(self.pending) {
            FrameScan::Waiting => (self, ActionView::Receive),
            FrameScan::Error => self.fail(FailureCause::DecodeError),
            FrameScan::Ready { body, used } => {
                proof {
                    lemma_scan_width(self.pending, 5);
                }
                let next = self.advance(used);
                match body_parse(body, Direction::ClientBound, Phase::Status) {
                    Err(_) => next.fail(FailureCause::DecodeError),
                    Ok(PacketView::Pong { payload }) => {
                        if payload == stamp(self.ping_sent_at) {
                            (
                                SessionView {
                                    state: SessionState::Done,
                                    latency: Some(elapsed(self.ping_sent_at, now)),
                                    ..next
                                },
                                ActionView::Finish,
                            )
                        } else if self.strays >= MAX_STRAY_PONGS {
                            next.fail(FailureCause::StrayOverflow)
                        } else {
                            (SessionView { strays: (self.strays + 1) as u8, ..next }).await_pong(now)
                        }
                    },
                    Ok(_) => next.await_pong(now),
                }
            },
        }
    }

    /// What the bytes of a send being out means to the session.
    pub open spec fn on_sent(self, now: u128) -> (SessionView, ActionView) {
        match self.state {
            SessionState::HandshakeSent => (
                SessionView { state: SessionState::StatusRequested, ..self },
                ActionView::Send(wire_of(PacketView::StatusRequest, self.version)),
            ),
            SessionState::StatusRequested => (
                SessionView { state: SessionState::AwaitingStatus, ..self },
                ActionView::Receive,
            ),
            SessionState::PingSent => (SessionView {
                state: SessionState::AwaitingPong,
                ..self
            }).await_pong(now),
            _ => self.fail(FailureCause::IoError),
        }
    }

    /// What bytes from the transport mean to the session.
    pub open spec fn on_received(self, chunk: Seq<u8>, now: u128) -> (SessionView, ActionView) {
        let fed = SessionView { pending: self.pending + chunk, ..self };
        match self.state {
            SessionState::AwaitingStatus => fed.await_status(now),
            SessionState::AwaitingPong => fed.await_pong(now),
            _ => self.fail(FailureCause::IoError),
        }
    }

    /// The session after `event` at the time `now`, and what the driver is to
    /// do. A session that has ended stays as it is. Else the time allowed is
    /// looked at first, then the event; an event that the state does not
    /// wait for counts as a fault of the transport.
    pub open spec fn step(self, event: EventView, now: u128) -> (SessionView, ActionView) {
        if self.state is Done {
            (self, ActionView::Finish)
        } else if self.state is Failed {
            (self, ActionView::Abort)
        } else if event is DeadlineExceeded || self.overdue(now) {
            self.fail(FailureCause::TimeoutError)
        } else {
            match event {
                EventView::Connected => {
                    if self.state is Init {
                        (
                            SessionView { state: SessionState::HandshakeSent, ..self },
                            ActionView::Send(self.handshake),
                        )
                    } else {
                        self.fail(FailureCause::IoError)
                    }
                },
                EventView::ConnectFailed => {
                    if self.state is Init {
                        self.fail(FailureCause::ConnectError)
                    } else {
                        self.fail(FailureCause::IoError)
                    }
                },
                EventView::Sent => self.on_sent(now),
                EventView::Received(chunk) => self.on_received(chunk, now),
                _ => self.fail(FailureCause::IoError),
            }
        }
    }
}

/// One status query against one target.
#[derive(Debug)]
pub struct Session {
    state: SessionState,
    version: ProtocolVersion,
    handshake: Vec<u8>,
    started: u128,
    budget: u128,
    buffer: PacketBuffer,
    json_text: Option<String>,
    ping_sent_at: u128,
    strays: u8,
    latency: Option<u128>,
}

/// The text of an optional string.
pub open spec fn text_of(s: Option<String>) -> Option<Seq<char>> {
    match s {
        Some(text) => Some(text@),
        None => None,
    }
}

impl View for Session {
    type V = SessionView;

    closed spec fn view(&self) -> SessionView {
        SessionView {
            state: self.state,
            version: self.version,
            handshake: self.handshake@,
            started: self.started,
            budget: self.budget,
            pending: self.buffer@,
            json_text: text_of(self.json_text),
            ping_sent_at: self.ping_sent_at,
            strays: self.strays,
            latency: self.latency,
        }
    }
}

impl View for StatusReply {
    type V = (Seq<char>, u128);

    open spec fn view(&self) -> (Seq<char>, u128) {
        (self.json_text@, self.latency)
    }
}

/// A reply as the contracts speak of it.
pub open spec fn reply_model(r: Option<StatusReply>) -> Option<(Seq<char>, u128)> {
    match r {
        Some(reply) => Some(reply@),
        None => None,
    }
}

/// The payload of a ping made at `now`.
pub fn stamp_at(now: u128) -> (payload: i64)
    ensures
        payload == stamp(now),
{
    (now % 0x8000_0000_0000_0000) as i64
}

/// The milliseconds from `from` to `now`; none if the clock went back.
pub fn elapsed_between(from: u128, now: u128) -> (d: u128)
    ensures
        d == elapsed(from, now),
{
    if now >= from {
        now - from
    } else {
        0
    }
}

/// Writes a packet that cannot fail to be written.
fn wire(packet: &Packet, version: ProtocolVersion) -> (bytes: Vec<u8>)
    requires
        packet@.fits(),
    ensures
        bytes@ == wire_of(packet@, version),
{
    match encode(packet, version) {
        Ok(bytes) => bytes,
        Err(_) => {
            proof {
                assert(false);
            }
            Vec::new()
        },
    }
}

impl Session {
    /// A session for a query of the server at `address` and `port`, made at
    /// `now` and allowed `budget` milliseconds in all. The handshake is
    /// written here, stamped with `version`; an address that is too long for
    /// the wire is refused.
    pub fn new(address: String, port: u16, version: ProtocolVersion, now: u128, budget: u128) -> (r:
        Result<Session, EncodeError>)
        ensures
            text_fits(address@) ==> r is Ok && r->Ok_0@.wf() && r->Ok_0@ == SessionView::fresh(
                version,
                wire_of(
                    PacketView::Handshake { server_address: address@, server_port: port },
                    version,
                ),
                now,
                budget,
            ),
            !text_fits(address@) ==> r == Err::<Session, EncodeError>(EncodeError::TextTooLong),
    {
        let packet = Packet::Handshake { server_address: address, server_port: port };
        match encode(&packet, version) {
            Err(e) => Err(e),
            Ok(handshake) => Ok(
                Session {
                    state: SessionState::Init,
                    version,
                    handshake,
                    started: now,
                    budget,
                    buffer: PacketBuffer::new(),
                    json_text: None,
                    ping_sent_at: 0,
                    strays: 0,
                    latency: None,
                },
            ),
        }
    }

    /// Where the session stands.
    pub fn state(&self) -> (state: SessionState)
        ensures
            state == self@.state,
    {
        self.state
    }

    /// Whether the session has ended.
    pub fn is_finished(&self) -> (ended: bool)
        ensures
            ended == self@.terminal(),
    {
        match self.state {
            SessionState::Done => true,
            SessionState::Failed(_) => true,
            _ => false,
        }
    }

    /// Why the session failed, if it did.
    pub fn failure(&self) -> (cause: Option<FailureCause>)
        ensures
            cause == match self@.state {
                SessionState::Failed(c) => Some(c),
                _ => None,
            },
    {
        match self.state {
            SessionState::Failed(c) => Some(c),
            _ => None,
        }
    }

    /// What the query found, if it is complete: the text of the status
    /// response and the latency.
    pub fn reply(&self) -> (r: Option<StatusReply>)
        ensures
            reply_model(r) == self@.reply(),
    {
        match self.state {
            SessionState::Done => {
                match (&self.json_text, self.latency) {
                    (Some(text), Some(latency)) => Some(
                        StatusReply { json_text: text.clone(), latency },
                    ),
                    _ => None,
                }
            },
            _ => None,
        }
    }

    /// The milliseconds that are left of the time allowed at `now`: what the
    /// driver sets its timer to.
    pub fn time_left(&self, now: u128) -> (left: u128)
        ensures
            left == if self@.overdue(now) {
                0
            } else {
                (self@.budget - elapsed(self@.started, now)) as u128
            },
    {
        let spent = elapsed_between(self.started, now);
        if spent >= self.budget {
            0
        } else {
            self.budget - spent
        }
    }

    fn give_up(&mut self, cause: FailureCause) -> (action: Action)
        ensures
            final(self)@ == old(self)@.fail(cause).0,
            action@ == old(self)@.fail(cause).1,
    {
        self.state = SessionState::Failed(cause);
        self.latency = None;
        Action::Abort
    }

    fn look_for_status(&mut self, now: u128) -> (action: Action)
        requires
            old(self)@.state is AwaitingStatus,
        ensures
            final(self)@ == old(self)@.await_status(now).0,
            action@ == old(self)@.await_status(now).1,
    {
        match self.buffer.poll() {
            BufferState::Waiting => Action::Receive,
            BufferState::Error => self.give_up(FailureCause::DecodeError),
            BufferState::Ready(frame) => {
                match decode(frame.as_slice(), Direction::ClientBound, Phase::Status) {
                    Ok(Packet::StatusResponse { json_text }) => {
                        let payload = stamp_at(now);
                        let ping = Packet::Ping { payload };
                        self.json_text = Some(json_text);
                        self.ping_sent_at = now;
                        self.state = SessionState::PingSent;
                        Action::Send(wire(&ping, self.version))
                    },
                    _ => self.give_up(FailureCause::DecodeError),
                }
            },
        }
    }

    fn look_for_pong(&mut self, now: u128) -> (action: Action)
        requires
            old(self)@.state is AwaitingPong,
        ensures
            final(self)@ == old(self)@.await_pong(now).0,
            action@ == old(self)@.await_pong(now).1,
    {
        loop
            invariant
                self@.state is AwaitingPong,
                self@.await_pong(now) == old(self)@.await_pong(now),
            decreases self@.pending.len(),
        {
            proof {
                lemma_scan_width(self@.pending, 5);
            }
            match self.buffer.poll() {
                BufferState::Waiting => {
                    return Action::Receive;
                },
                BufferState::Error => {
                    return self.give_up(FailureCause::DecodeError);
                },
                BufferState::Ready(frame) => {
                    match decode(frame.as_slice(), Direction::ClientBound, Phase::Status) {
                        Err(_) => {
                            return self.give_up(FailureCause::DecodeError);
                        },
                        Ok(Packet::Pong { payload }) => {
                            if payload == stamp_at(self.ping_sent_at) {
                                self.latency = Some(elapsed_between(self.ping_sent_at, now));
                                self.state = SessionState::Done;
                                return Action::Finish;
                            } else if self.strays >= MAX_STRAY_PONGS {
                                return self.give_up(FailureCause::StrayOverflow);
                            } else {
                                self.strays = self.strays + 1;
                            }
                        },
                        Ok(_) => {},
                    }
                },
            }
        }
    }

    /// Tells the session what happened, at the time `now` in milliseconds,
    /// and learns what to do next. The session goes where `SessionView::step`
    /// says and nowhere else.
    pub fn step(&mut self, event: Event, now: u128) -> (action: Action)
        ensures
            final(self)@ == old(self)@.step(event@, now).0,
            action@ == old(self)@.step(event@, now).1,
            old(self)@.wf() ==> final(self)@.wf(),
    {
        proof {
            if old(self)@.wf() {
                lemma_step(old(self)@, event@, now);
            }
        }
        match self.state {
            SessionState::Done => {
                return Action::Finish;
            },
            SessionState::Failed(_) => {
                return Action::Abort;
            },
            _ => {},
        }
        let late = elapsed_between(self.started, now) >= self.budget;
        match event {
            Event::DeadlineExceeded => self.give_up(FailureCause::TimeoutError),
            _ if late => self.give_up(FailureCause::TimeoutError),
            Event::Connected => {
                match self.state {
                    SessionState::Init => {
                        self.state = SessionState::HandshakeSent;
                        Action::Send(self.handshake.clone())
                    },
                    _ => self.give_up(FailureCause::IoError),
                }
            },
            Event::ConnectFailed => {
                match self.state {
                    SessionState::Init => self.give_up(FailureCause::ConnectError),
                    _ => self.give_up(FailureCause::IoError),
                }
            },
            Event::Sent => {
                match self.state {
                    SessionState::HandshakeSent => {
                        self.state = SessionState::StatusRequested;
                        Action::Send(wire(&Packet::StatusRequest, self.version))
                    },
                    SessionState::StatusRequested => {
                        self.state = SessionState::AwaitingStatus;
                        Action::Receive
                    },
                    SessionState::PingSent => {
                        self.state = SessionState::AwaitingPong;
                        self.look_for_pong(now)
                    },
                    _ => self.give_up(FailureCause::IoError),
                }
            },
            Event::Received(chunk) => {
                match self.state {
                    SessionState::AwaitingStatus => {
                        self.buffer.extend(chunk.as_slice());
                        self.look_for_status(now)
                    },
                    SessionState::AwaitingPong => {
                        self.buffer.extend(chunk.as_slice());
                        self.look_for_pong(now)
                    },
                    _ => self.give_up(FailureCause::IoError),
                }
            },
            Event::IoFailed => self.give_up(FailureCause::IoError),
        }
    }
}

/// A session that has not ended fails for the time when the driver's timer
/// fires, and when the time allowed has run out at the time of an event,
/// whatever the event is.
pub proof fn lemma_deadline_fails(s: SessionView, event: EventView, now: u128)
    requires
        !s.terminal(),
        event is DeadlineExceeded || s.overdue(now),
    ensures
        s.step(event, now).0.state == SessionState::Failed(FailureCause::TimeoutError),
        s.step(event, now).1 == ActionView::Abort,
{
}

/// A session that has ended stays as it is, whatever it is told.
pub proof fn lemma_ended_stays(s: SessionView, event: EventView, now: u128)
    requires
        s.terminal(),
    ensures
        s.step(event, now).0 == s,
{
}

/// A session that waits for the status and gets the status response pings
/// with the time as payload. When it then learns that the ping is out and
/// gets the pong with that payload, it is complete: it holds the text of the
/// response and the time from ping to pong, which is not negative.
pub proof fn lemma_status_then_pong(
    s: SessionView,
    json_text: Seq<char>,
    t_status: u128,
    t_sent: u128,
    t_pong: u128,
)
    requires
        s.state is AwaitingStatus,
        s.pending.len() == 0,
        text_fits(json_text),
        !s.overdue(t_status),
        !s.overdue(t_sent),
        !s.overdue(t_pong),
    ensures
        ({
            let response = wire_of(PacketView::StatusResponse { json_text }, s.version);
            let pong = wire_of(PacketView::Pong { payload: stamp(t_status) }, s.version);
            let ping = wire_of(PacketView::Ping { payload: stamp(t_status) }, s.version);
            let a = s.step(EventView::Received(response), t_status);
            let b = a.0.step(EventView::Sent, t_sent);
            let c = b.0.step(EventView::Received(pong), t_pong);
            &&& a.0.state is PingSent
            &&& a.1 == ActionView::Send(ping)
            &&& b.0.state is AwaitingPong
            &&& b.1 == ActionView::Receive
            &&& c.0.state is Done
            &&& c.1 == ActionView::Finish
            &&& c.0.json_text == Some(json_text)
            &&& c.0.latency == Some(elapsed(t_status, t_pong))
            &&& elapsed(t_status, t_pong) >= 0
        }),
{
    let status_packet = PacketView::StatusResponse { json_text };
    let pong_packet = PacketView::Pong { payload: stamp(t_status) };
    let response = wire_of(status_packet, s.version);
    let pong = wire_of(pong_packet, s.version);
    let none = Seq::<u8>::empty();
    lemma_decode_encode(status_packet, s.version.revision_of(), none);
    lemma_decode_encode(pong_packet, s.version.revision_of(), none);
    assert(response + none =~= response);
    assert(pong + none =~= pong);
    assert(s.pending + response =~= response);
    let fed = SessionView { pending: s.pending + response, ..s };
    assert(fed.advance(response.len()).pending =~= none);
    let a = s.step(EventView::Received(response), t_status);
    assert(a.0.state is PingSent);
    assert(frame_parse(none) is Waiting);
    let b = a.0.step(EventView::Sent, t_sent);
    assert(b.0.state is AwaitingPong);
    assert(b.0.pending + pong =~= pong);
    let waiting = SessionView { pending: b.0.pending + pong, ..b.0 };
    assert(waiting.advance(pong.len()).pending =~= none);
}

/// The same when status response and pong arrive in one piece: the pong
/// waits in the buffer until the ping is out, and the session is complete as
/// soon as it learns that it is.
pub proof fn lemma_status_and_pong_at_once(
    s: SessionView,
    json_text: Seq<char>,
    t_status: u128,
    t_sent: u128,
)
    requires
        s.state is AwaitingStatus,
        s.pending.len() == 0,
        text_fits(json_text),
        !s.overdue(t_status),
        !s.overdue(t_sent),
    ensures
        ({
            let response = wire_of(PacketView::StatusResponse { json_text }, s.version);
            let pong = wire_of(PacketView::Pong { payload: stamp(t_status) }, s.version);
            let a = s.step(EventView::Received(response + pong), t_status);
            let b = a.0.step(EventView::Sent, t_sent);
            &&& a.0.state is PingSent
            &&& b.0.state is Done
            &&& b.1 == ActionView::Finish
            &&& b.0.json_text == Some(json_text)
            &&& b.0.latency == Some(elapsed(t_status, t_sent))
        }),
{
    let status_packet = PacketView::StatusResponse { json_text };
    let pong_packet = PacketView::Pong { payload: stamp(t_status) };
    let response = wire_of(status_packet, s.version);
    let pong = wire_of(pong_packet, s.version);
    let none = Seq::<u8>::empty();
    lemma_decode_encode(status_packet, s.version.revision_of(), pong);
    lemma_decode_encode(pong_packet, s.version.revision_of(), none);
    assert(pong + none =~= pong);
    let both = response + pong;
    assert(s.pending + both =~= both);
    let fed = SessionView { pending: s.pending + both, ..s };
    assert(fed.advance(response.len()).pending =~= pong);
    let a = s.step(EventView::Received(both), t_status);
    assert(a.0.state is PingSent);
    assert(a.0.pending =~= pong);
    let waiting = SessionView { state: SessionState::AwaitingPong, ..a.0 };
    assert(waiting.advance(pong.len()).pending =~= none);
}

/// How far a state is along the way of a query.
pub open spec fn rank(state: SessionState) -> nat {
    match state {
        SessionState::Init => 0,
        SessionState::HandshakeSent => 1,
        SessionState::StatusRequested => 2,
        SessionState::AwaitingStatus => 3,
        SessionState::PingSent => 4,
        SessionState::AwaitingPong => 5,
        SessionState::Done => 6,
        SessionState::Failed(_) => 7,
    }
}

/// Whether an action is the one that goes with a state: `Finish` with
/// `Done`, `Abort` with `Failed`, and neither with any other.
pub open spec fn action_fits(state: SessionState, action: ActionView) -> bool {
    &&& (state is Done <==> action is Finish)
    &&& (state is Failed <==> action is Abort)
}

/// Whether `after` is a session that `before` can become: the target, the
/// revision and the time allowed stay, the session does not go back, and a
/// status text that is in stays in.
pub open spec fn follows(before: SessionView, after: SessionView) -> bool {
    &&& after.version == before.version
    &&& after.handshake == before.handshake
    &&& after.started == before.started
    &&& after.budget == before.budget
    &&& rank(after.state) >= rank(before.state)
    &&& before.json_text is Some ==> after.json_text == before.json_text
}

/// A session that waits for the pong goes on waiting, completes or fails,
/// and completes with the time since its ping.
pub proof fn lemma_await_pong(s: SessionView, now: u128)
    requires
        s.wf(),
        s.state is AwaitingPong,
    ensures
        s.await_pong(now).0.wf(),
        follows(s, s.await_pong(now).0),
        action_fits(s.await_pong(now).0.state, s.await_pong(now).1),
        s.await_pong(now).0.state is Done ==> s.await_pong(now).0.latency == Some(
            elapsed(s.ping_sent_at, now),
        ),
    decreases s.pending.len(),
{
    if let FrameScan::Ready { body, used } = frame_parse(s.pending) {
        lemma_scan_width(s.pending, 5);
        let next = s.advance(used);
        match body_parse(body, Direction::ClientBound, Phase::Status) {
            Err(_) => {},
            Ok(PacketView::Pong { payload }) => {
                if payload != stamp(s.ping_sent_at) && s.strays < MAX_STRAY_PONGS {
                    lemma_await_pong(SessionView { strays: (s.strays + 1) as u8, ..next }, now);
                }
            },
            Ok(_) => {
                lemma_await_pong(next, now);
            },
        }
    }
}

/// Whatever a session is told, it stays a session: what holds of every
/// session holds after the step, the session has not gone back on its way,
/// and the action is the one that goes with the state it is in.
pub proof fn lemma_step(s: SessionView, event: EventView, now: u128)
    requires
        s.wf(),
    ensures
        s.step(event, now).0.wf(),
        follows(s, s.step(event, now).0),
        action_fits(s.step(event, now).0.state, s.step(event, now).1),
{
    if !s.terminal() && !(event is DeadlineExceeded) && !s.overdue(now) {
        match event {
            EventView::Sent => {
                if s.state is PingSent {
                    lemma_await_pong(SessionView { state: SessionState::AwaitingPong, ..s }, now);
                }
            },
            EventView::Received(chunk) => {
                if s.state is AwaitingPong {
                    lemma_await_pong(SessionView { pending: s.pending + chunk, ..s }, now);
                }
            },
            _ => {},
        }
    }
}

/// A fault of the transport fails a session that has not ended, unless its
/// time has run out, which fails it for the time.
pub proof fn lemma_io_failure_fails(s: SessionView, now: u128)
    requires
        !s.terminal(),
        !s.overdue(now),
    ensures
        s.step(EventView::IoFailed, now).0.state == SessionState::Failed(FailureCause::IoError),
{
}

} // verus!
