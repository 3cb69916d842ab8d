//! The client handshake, as a state machine that the I/O loop drives.
//!
//! A connection starts with the PROXY header, then one opcode byte that picks
//! the service. RS2 and JS5 clients get a one-byte `0` reply (JS5 only after
//! sending the expected client version); ping clients get none. Then the egress
//! connection is opened, the opcode is repeated to it, and the two sockets are
//! relayed. Every failure closes the connection.
//!
//! The machine never performs I/O itself: [`Session::action`] says what to do
//! next, and the caller reports what happened with [`Session::step`].

use bytes::Buf;
use vstd::prelude::*;
use crate::header::{parse_proxy_header, spec_parse_header, HeaderError, ProxiedAddresses, PROXY_EXPECTED_HEADER_BYTES};

verus! {

/// Opcode that opens an RS2 (game) session.
pub const RS2_OPCODE: u8 = 14;

/// Opcode that opens a JS5 (cache download) session.
pub const JS5_OPCODE: u8 = 15;

/// Opcode of a latency probe.
pub const PING_OPCODE: u8 = 200;

/// Length of the client version that a JS5 client sends.
pub const JS5_VERSION_LEN: usize = 4;

/// The byte sent to RS2 and JS5 clients to accept them.
pub const ACCEPT_REPLY: u8 = 0;

/// The services a client can ask for.
#[derive(Debug, Clone, Copy, PartialEq, Eq, Structural)]
pub enum Service {
    Rs2,
    Js5,
    Ping,
}

/// Why a connection was closed during the handshake.
#[derive(Debug, Clone, Copy, PartialEq, Eq, Structural)]
pub enum CloseReason {
    /// Reading the PROXY header failed.
    HeaderUnreadable,
    /// The PROXY header was refused.
    HeaderRejected(HeaderError),
    /// Reading the opcode failed.
    OpcodeUnreadable,
    /// The opcode names no service.
    UnknownOpcode(u8),
    /// Reading the JS5 client version failed.
    VersionUnreadable,
    /// The JS5 client is of another version.
    VersionMismatch { received: u32, expected: u32 },
    /// Sending the accept byte to the client failed.
    ReplyFailed(Service),
    /// Opening the egress connection failed.
    ConnectFailed(Service),
    /// Sending the opcode to the egress failed.
    AnnounceFailed(Service),
}

/// Where a connection stands in the handshake.
#[derive(Debug, Clone, Copy, PartialEq, Eq, Structural)]
pub enum Stage {
    AwaitingHeader,
    AwaitingOpcode,
    AwaitingVersion,
    /// Sending the accept byte to the client.
    Replying(Service),
    /// Opening the egress connection.
    Connecting(Service),
    /// Sending the opcode to the egress.
    Announcing(Service),
    /// Handshake done: bytes are relayed both ways until either side stops.
    Relaying(Service),
    Closed(CloseReason),
}

/// What the I/O loop does next.
#[derive(Debug, Clone, Copy, PartialEq, Eq, Structural)]
pub enum Action {
    /// Read at most this many bytes from the client, in one read.
    Read(usize),
    /// Read one byte from the client.
    ReadByte,
    /// Write this byte to the client.
    Reply(u8),
    /// Open the egress connection.
    Connect,
    /// Write this byte to the egress.
    Announce(u8),
    /// Relay both ways until either side stops.
    Relay,
    /// Drop the client connection.
    Close(CloseReason),
}

/// What came of the last action.
#[derive(Debug)]
pub enum Event {
    /// The bytes that a `Read` returned.
    Received(Vec<u8>),
    /// The byte that a `ReadByte` returned.
    ReceivedByte(u8),
    /// A `Reply` or `Announce` was written.
    Sent,
    /// The egress connection is open.
    Connected,
    /// The action failed or timed out.
    Failed,
}

/// The opcode of a service.
pub open spec fn spec_opcode(s: Service) -> u8 {
    match s {
        Service::Rs2 => RS2_OPCODE,
        Service::Js5 => JS5_OPCODE,
        Service::Ping => PING_OPCODE,
    }
}

/// The service that an opcode names, if any.
pub open spec fn spec_service_for(op: u8) -> Option<Service> {
    if op == RS2_OPCODE {
        Some(Service::Rs2)
    } else if op == JS5_OPCODE {
        Some(Service::Js5)
    } else if op == PING_OPCODE {
        Some(Service::Ping)
    } else {
        None
    }
}

/// The big-endian number in the first four bytes of `b`.
pub open spec fn be32(b: Seq<u8>) -> int
    recommends
        b.len() >= 4,
{
    (b[0] as int) * 0x1000000 + (b[1] as int) * 0x10000 + (b[2] as int) * 0x100 + (b[3] as int)
}

impl Service {
    /// The opcode that selects this service, which is also sent on to the egress.
    pub fn opcode(&self) -> (op: u8)
        ensures
            op == spec_opcode(*self),
    {
        match self {
            Service::Rs2 => RS2_OPCODE,
            Service::Js5 => JS5_OPCODE,
            Service::Ping => PING_OPCODE,
        }
    }

    /// Whether the client is sent the accept byte before relaying.
    pub fn replies(&self) -> (r: bool)
        ensures
            r == (*self != Service::Ping),
    {
        match self {
            Service::Ping => false,
            _ => true,
        }
    }
}

/// The service that an opcode names, if any.
pub fn service_for_opcode(op: u8) -> (res: Option<Service>)
    ensures
        res == spec_service_for(op),
{
    if op == RS2_OPCODE {
        Some(Service::Rs2)
    } else if op == JS5_OPCODE {
        Some(Service::Js5)
    } else if op == PING_OPCODE {
        Some(Service::Ping)
    } else {
        None
    }
}

/// Reads a big-endian `u32` from the first four bytes of `bytes`, with
/// `bytes::Buf::get_u32`. The crate documents the result as the number in the
/// first four bytes in big-endian order, and a panic where fewer than four
/// bytes remain, which `requires` leaves out.
#[verifier::external_body]
fn read_be_u32(bytes: &[u8]) -> (v: u32)
    requires
        bytes@.len() >= 4,
    ensures
        v as int == be32(bytes@),
{
    let mut cursor: &[u8] = bytes;
    cursor.get_u32()
}

/// Decodes the client version that a JS5 client sends.
pub fn decode_js5_version(bytes: &[u8]) -> (v: u32)
    requires
        bytes@.len() >= JS5_VERSION_LEN,
    ensures
        v as int == be32(bytes@),
{
    read_be_u32(bytes)
}

/// The abstract state of a session.
pub struct SessionView {
    pub stage: Stage,
    pub peers: Option<(Seq<u8>, Seq<u8>)>,
    pub expected_version: u32,
}

/// The handshake of one client connection.
pub struct Session {
    stage: Stage,
    peers: Option<ProxiedAddresses>,
    expected_version: u32,
}

impl View for Session {
    type V = SessionView;

    closed spec fn view(&self) -> SessionView {
        SessionView {
            stage: self.stage,
            peers: match self.peers {
                Some(p) => Some(p@),
                None => None,
            },
            expected_version: self.expected_version,
        }
    }
}

/// A fresh connection, waiting for its header.
pub open spec fn initial(expected_version: u32) -> SessionView {
    SessionView { stage: Stage::AwaitingHeader, peers: None, expected_version }
}

/// The action that a stage calls for.
pub open spec fn action_of(stage: Stage) -> Action {
    match stage {
        Stage::AwaitingHeader => Action::Read(PROXY_EXPECTED_HEADER_BYTES),
        Stage::AwaitingOpcode => Action::ReadByte,
        Stage::AwaitingVersion => Action::Read(JS5_VERSION_LEN),
        Stage::Replying(_) => Action::Reply(ACCEPT_REPLY),
        Stage::Connecting(_) => Action::Connect,
        Stage::Announcing(s) => Action::Announce(spec_opcode(s)),
        Stage::Relaying(_) => Action::Relay,
        Stage::Closed(r) => Action::Close(r),
    }
}

/// Whether `e` can be the outcome of the action that `stage` calls for.
pub open spec fn accepts(stage: Stage, e: Event) -> bool {
    match stage {
        Stage::AwaitingHeader => e is Received || e is Failed,
        Stage::AwaitingOpcode => e is ReceivedByte || e is Failed,
        Stage::AwaitingVersion => (e matches Event::Received(b) && b@.len() >= JS5_VERSION_LEN)
            || e is Failed,
        Stage::Replying(_) => e is Sent || e is Failed,
        Stage::Connecting(_) => e is Connected || e is Failed,
        Stage::Announcing(_) => e is Sent || e is Failed,
        Stage::Relaying(_) => false,
        Stage::Closed(_) => false,
    }
}

/// The stage after the first byte that names a service.
pub open spec fn stage_after_opcode(s: Service) -> Stage {
    match s {
        Service::Rs2 => Stage::Replying(Service::Rs2),
        Service::Js5 => Stage::AwaitingVersion,
        Service::Ping => Stage::Connecting(Service::Ping),
    }
}

/// The stage after event `e`, for an accepted event; any other leaves the
/// stage as it is.
pub open spec fn next_stage(stage: Stage, expected_version: u32, e: Event) -> Stage {
    match stage {
        Stage::AwaitingHeader => match e {
            Event::Received(b) => match spec_parse_header(b@) {
                Ok(_) => Stage::AwaitingOpcode,
                Err(err) => Stage::Closed(CloseReason::HeaderRejected(err)),
            },
            Event::Failed => Stage::Closed(CloseReason::HeaderUnreadable),
            _ => stage,
        },
        Stage::AwaitingOpcode => match e {
            Event::ReceivedByte(op) => match spec_service_for(op) {
                Some(s) => stage_after_opcode(s),
                None => Stage::Closed(CloseReason::UnknownOpcode(op)),
            },
            Event::Failed => Stage::Closed(CloseReason::OpcodeUnreadable),
            _ => stage,
        },
        Stage::AwaitingVersion => match e {
            Event::Received(b) => if b@.len() >= JS5_VERSION_LEN {
                if be32(b@) == expected_version {
                    Stage::Replying(Service::Js5)
                } else {
                    Stage::Closed(
                        CloseReason::VersionMismatch {
                            received: be32(b@) as u32,
                            expected: expected_version,
                        },
                    )
                }
            } else {
                stage
            },
            Event::Failed => Stage::Closed(CloseReason::VersionUnreadable),
            _ => stage,
        },
        Stage::Replying(s) => match e {
            Event::Sent => Stage::Connecting(s),
            Event::Failed => Stage::Closed(CloseReason::ReplyFailed(s)),
            _ => stage,
        },
        Stage::Connecting(s) => match e {
            Event::Connected => Stage::Announcing(s),
            Event::Failed => Stage::Closed(CloseReason::ConnectFailed(s)),
            _ => stage,
        },
        Stage::Announcing(s) => match e {
            Event::Sent => Stage::Relaying(s),
            Event::Failed => Stage::Closed(CloseReason::AnnounceFailed(s)),
            _ => stage,
        },
        Stage::Relaying(_) => stage,
        Stage::Closed(_) => stage,
    }
}

/// The session after event `e`: the header's addresses are kept once it
/// decodes.
pub open spec fn next(s: SessionView, e: Event) -> SessionView {
    SessionView {
        stage: next_stage(s.stage, s.expected_version, e),
        peers: match (s.stage, e) {
            (Stage::AwaitingHeader, Event::Received(b)) => match spec_parse_header(b@) {
                Ok(p) => Some(p),
                Err(_) => s.peers,
            },
            _ => s.peers,
        },
        expected_version: s.expected_version,
    }
}


/// The stage that a run of events leads to from `stage`.
pub open spec fn run_stage(stage: Stage, expected_version: u32, es: Seq<Event>) -> Stage
    decreases es.len(),
{
    if es.len() == 0 {
        stage
    } else {
        run_stage(next_stage(stage, expected_version, es[0]), expected_version, es.drop_first())
    }
}

/// Whether each event of `es` is an outcome of the action that the machine
/// called for at that point, starting from `stage`.
pub open spec fn paced(stage: Stage, expected_version: u32, es: Seq<Event>) -> bool
    decreases es.len(),
{
    es.len() == 0 || (accepts(stage, es[0]) && paced(
        next_stage(stage, expected_version, es[0]),
        expected_version,
        es.drop_first(),
    ))
}

/// The events of a successful handshake for `service`: a header that decodes,
/// the service's opcode, for JS5 the expected client version, the accept byte
/// written (not for ping), the egress opened, and the opcode written to it.
pub open spec fn is_handshake(es: Seq<Event>, expected_version: u32, service: Service) -> bool {
    &&& es.len() >= 4
    &&& es[0] matches Event::Received(h) && spec_parse_header(h@) is Ok
    &&& es[1] matches Event::ReceivedByte(op) && op == spec_opcode(service)
    &&& match service {
        Service::Rs2 => es.len() == 5 && es[2] is Sent && es[3] is Connected && es[4] is Sent,
        Service::Js5 => es.len() == 6 && (es[2] matches Event::Received(v) && v@.len()
            >= JS5_VERSION_LEN && be32(v@) == expected_version) && es[3] is Sent
            && es[4] is Connected && es[5] is Sent,
        Service::Ping => es.len() == 4 && es[2] is Connected && es[3] is Sent,
    }
}

/// Once relaying or closed, a session takes no more events.
pub proof fn lemma_finished_takes_nothing(stage: Stage, expected_version: u32, es: Seq<Event>)
    requires
        stage is Relaying || stage is Closed,
        paced(stage, expected_version, es),
    ensures
        es.len() == 0,
{
}

/// A connection is relayed exactly when its handshake succeeded: starting from
/// a fresh connection, a run of events that the machine called for ends in
/// relaying for `service` if and only if the events are those of a successful
/// handshake for that service. In particular the egress is only ever reached
/// with the opcode that the client sent, and a JS5 client only with the
/// expected version.
pub proof fn lemma_relay_iff_handshake(expected_version: u32, es: Seq<Event>, service: Service)
    requires
        paced(Stage::AwaitingHeader, expected_version, es),
    ensures
        run_stage(Stage::AwaitingHeader, expected_version, es) == Stage::Relaying(service)
            <==> is_handshake(es, expected_version, service),
{
    reveal_with_fuel(run_stage, 8);
    reveal_with_fuel(paced, 8);
    if es.len() > 0 {
        let r1 = es.drop_first();
        if r1.len() > 0 {
            let r2 = r1.drop_first();
            assert(r1[0] == es[1]);
            if r2.len() > 0 {
                let r3 = r2.drop_first();
                assert(r2[0] == es[2]);
                if r3.len() > 0 {
                    let r4 = r3.drop_first();
                    assert(r3[0] == es[3]);
                    if r4.len() > 0 {
                        let r5 = r4.drop_first();
                        assert(r4[0] == es[4]);
                        if r5.len() > 0 {
                            let r6 = r5.drop_first();
                            assert(r5[0] == es[5]);
                        }
                    }
                }
            }
        }
    }
}

/// The session that a run of events leads to from `s`.
pub open spec fn run(s: SessionView, es: Seq<Event>) -> SessionView
    decreases es.len(),
{
    if es.len() == 0 {
        s
    } else {
        run(next(s, es[0]), es.drop_first())
    }
}

/// The stage of a run is the run of the stages: the addresses kept on the way
/// do not steer the handshake.
pub proof fn lemma_run_stage(s: SessionView, es: Seq<Event>)
    ensures
        run(s, es).stage == run_stage(s.stage, s.expected_version, es),
        run(s, es).expected_version == s.expected_version,
    decreases es.len(),
{
    if es.len() > 0 {
        lemma_run_stage(next(s, es[0]), es.drop_first());
    }
}

/// A relayed connection carries the addresses of the header it opened with.
pub proof fn lemma_relay_keeps_header_addresses(
    expected_version: u32,
    es: Seq<Event>,
    service: Service,
)
    requires
        is_handshake(es, expected_version, service),
    ensures
        run(initial(expected_version), es).stage == Stage::Relaying(service),
        es[0] matches Event::Received(h) && spec_parse_header(h@) matches Ok(p)
            && run(initial(expected_version), es).peers == Some(p),
{
    reveal_with_fuel(run, 8);
    reveal_with_fuel(run_stage, 8);
    let r1 = es.drop_first();
    let r2 = r1.drop_first();
    let r3 = r2.drop_first();
    let r4 = r3.drop_first();
    assert(r1[0] == es[1]);
    assert(r2[0] == es[2]);
    assert(r3[0] == es[3]);
    if es.len() > 4 {
        let r5 = r4.drop_first();
        assert(r4[0] == es[4]);
        if es.len() > 5 {
            assert(r5[0] == es[5]);
        }
    }
}

impl Session {
    /// A connection that has just been accepted.
    pub fn new(expected_version: u32) -> (s: Session)
        ensures
            s@ == initial(expected_version),
    {
        Session { stage: Stage::AwaitingHeader, peers: None, expected_version }
    }

    /// Where the handshake stands.
    pub fn stage(&self) -> (st: Stage)
        ensures
            st == self@.stage,
    {
        self.stage
    }

    /// The addresses from the header, once it has decoded.
    pub fn peers(&self) -> (p: Option<ProxiedAddresses>)
        ensures
            match p {
                Some(a) => self@.peers == Some(a@),
                None => self@.peers is None,
            },
    {
        self.peers
    }

    /// The JS5 client version that is accepted.
    pub fn expected_version(&self) -> (v: u32)
        ensures
            v == self@.expected_version,
    {
        self.expected_version
    }

    /// What to do next.
    pub fn action(&self) -> (a: Action)
        ensures
            a == action_of(self@.stage),
    {
        match self.stage {
            Stage::AwaitingHeader => Action::Read(PROXY_EXPECTED_HEADER_BYTES),
            Stage::AwaitingOpcode => Action::ReadByte,
            Stage::AwaitingVersion => Action::Read(JS5_VERSION_LEN),
            Stage::Replying(_) => Action::Reply(ACCEPT_REPLY),
            Stage::Connecting(_) => Action::Connect,
            Stage::Announcing(s) => Action::Announce(s.opcode()),
            Stage::Relaying(_) => Action::Relay,
            Stage::Closed(r) => Action::Close(r),
        }
    }

    /// Whether the handshake is over: relaying, or closed.
    pub fn is_finished(&self) -> (r: bool)
        ensures
            r == (self@.stage is Relaying || self@.stage is Closed),
    {
        match self.stage {
            Stage::Relaying(_) | Stage::Closed(_) => true,
            _ => false,
        }
    }

    /// Takes in what came of the last action and returns the next one.
    pub fn step(&mut self, event: Event) -> (a: Action)
        requires
            accepts(old(self)@.stage, event),
        ensures
            final(self)@ == next(old(self)@, event),
            a == action_of(final(self)@.stage),
    {
        match self.stage {
            Stage::AwaitingHeader => {
                match event {
                    Event::Received(bytes) => {
                        match parse_proxy_header(bytes.as_slice()) {
                            Ok(p) => {
                                self.peers = Some(p);
                                self.stage = Stage::AwaitingOpcode;
                            },
                            Err(e) => {
                                self.stage = Stage::Closed(CloseReason::HeaderRejected(e));
                            },
                        }
                    },
                    _ => {
                        self.stage = Stage::Closed(CloseReason::HeaderUnreadable);
                    },
                }
            },
            Stage::AwaitingOpcode => {
                match event {
                    Event::ReceivedByte(op) => {
                        self.stage =
                        match service_for_opcode(op) {
                            Some(Service::Rs2) => Stage::Replying(Service::Rs2),
                            Some(Service::Js5) => Stage::AwaitingVersion,
                            Some(Service::Ping) => Stage::Connecting(Service::Ping),
                            None => Stage::Closed(CloseReason::UnknownOpcode(op)),
                        };
                    },
                    _ => {
                        self.stage = Stage::Closed(CloseReason::OpcodeUnreadable);
                    },
                }
            },
            Stage::AwaitingVersion => {
                match event {
                    Event::Received(bytes) => {
                        let version = decode_js5_version(bytes.as_slice());
                        if version == self.expected_version {
                            self.stage = Stage::Replying(Service::Js5);
                        } else {
                            self.stage =
                            Stage::Closed(
                                CloseReason::VersionMismatch {
                                    received: version,
                                    expected: self.expected_version,
                                },
                            );
                        }
                    },
                    _ => {
                        self.stage = Stage::Closed(CloseReason::VersionUnreadable);
                    },
                }
            },
            Stage::Replying(s) => {
                match event {
                    Event::Sent => {
                        self.stage = Stage::Connecting(s);
                    },
                    _ => {
                        self.stage = Stage::Closed(CloseReason::ReplyFailed(s));
                    },
                }
            },
            Stage::Connecting(s) => {
                match event {
                    Event::Connected => {
                        self.stage = Stage::Announcing(s);
                    },
                    _ => {
                        self.stage = Stage::Closed(CloseReason::ConnectFailed(s));
                    },
                }
            },
            Stage::Announcing(s) => {
                match event {
                    Event::Sent => {
                        self.stage = Stage::Relaying(s);
                    },
                    _ => {
                        self.stage = Stage::Closed(CloseReason::AnnounceFailed(s));
                    },
                }
            },
            Stage::Relaying(_) => {},
            Stage::Closed(_) => {},
        }
        self.action()
    }
}

/// The wire values of the handshake: opcode 14 opens RS2, 15 opens JS5 and
/// 200 a ping, and no other byte names a service; the header is read in one
/// read of 28 bytes, the JS5 version in one of 4; the accept byte is 0; and
/// the opcode sent on to the egress is the one that chose the service.
pub proof fn lemma_handshake_wire_values(op: u8, s: Service)
    ensures
        spec_service_for(14) == Some(Service::Rs2),
        spec_service_for(15) == Some(Service::Js5),
        spec_service_for(200) == Some(Service::Ping),
        op != 14 && op != 15 && op != 200 ==> spec_service_for(op) is None,
        spec_service_for(op) matches Some(t) ==> spec_opcode(t) == op,
        spec_service_for(spec_opcode(s)) == Some(s),
        action_of(Stage::AwaitingHeader) == Action::Read(28),
        action_of(Stage::AwaitingOpcode) == Action::ReadByte,
        action_of(Stage::AwaitingVersion) == Action::Read(4),
        action_of(Stage::Replying(s)) == Action::Reply(0),
        action_of(Stage::Connecting(s)) == Action::Connect,
        action_of(Stage::Announcing(s)) == Action::Announce(spec_opcode(s)),
        action_of(Stage::Relaying(s)) == Action::Relay,
        next_stage(Stage::AwaitingOpcode, 0, Event::ReceivedByte(14)) == Stage::Replying(
            Service::Rs2,
        ),
        next_stage(Stage::AwaitingOpcode, 0, Event::ReceivedByte(15)) == Stage::AwaitingVersion,
        next_stage(Stage::AwaitingOpcode, 0, Event::ReceivedByte(200)) == Stage::Connecting(
            Service::Ping,
        ),
        spec_service_for(op) is None ==> next_stage(
            Stage::AwaitingOpcode,
            0,
            Event::ReceivedByte(op),
        ) == Stage::Closed(CloseReason::UnknownOpcode(op)),
{
}

/// A JS5 client is accepted exactly when the four bytes it sends, read
/// big-endian, are the expected version; otherwise it is closed with the
/// version it sent and the one expected.
pub proof fn lemma_js5_version_check(expected_version: u32, e: Event)
    requires
        e matches Event::Received(b) && b@.len() >= 4,
    ensures
        e matches Event::Received(b) && ({
            let v = b@[0] as int * 16777216 + b@[1] as int * 65536 + b@[2] as int * 256
                + b@[3] as int;
            &&& 0 <= v <= u32::MAX
            &&& v == expected_version ==> next_stage(Stage::AwaitingVersion, expected_version, e)
                == Stage::Replying(Service::Js5)
            &&& v != expected_version ==> next_stage(
                Stage::AwaitingVersion,
                expected_version,
                e,
            ) == Stage::Closed(
                CloseReason::VersionMismatch { received: v as u32, expected: expected_version },
            )
        }),
{
}

/// Every failure closes the connection with a reason that names it: a refused
/// header with the header's own error, and a failed operation with the stage
/// it failed in and, past the opcode, the service.
pub proof fn lemma_failures_close_with_their_reason(v: u32, s: Service, e: Event)
    ensures
        e is Received ==> match spec_parse_header(e->Received_0@) {
            Err(err) => next_stage(Stage::AwaitingHeader, v, e) == Stage::Closed(
                CloseReason::HeaderRejected(err),
            ),
            Ok(_) => next_stage(Stage::AwaitingHeader, v, e) == Stage::AwaitingOpcode,
        },
        next_stage(Stage::AwaitingHeader, v, Event::Failed) == Stage::Closed(
            CloseReason::HeaderUnreadable,
        ),
        next_stage(Stage::AwaitingOpcode, v, Event::Failed) == Stage::Closed(
            CloseReason::OpcodeUnreadable,
        ),
        next_stage(Stage::AwaitingVersion, v, Event::Failed) == Stage::Closed(
            CloseReason::VersionUnreadable,
        ),
        next_stage(Stage::Replying(s), v, Event::Failed) == Stage::Closed(
            CloseReason::ReplyFailed(s),
        ),
        next_stage(Stage::Connecting(s), v, Event::Failed) == Stage::Closed(
            CloseReason::ConnectFailed(s),
        ),
        next_stage(Stage::Announcing(s), v, Event::Failed) == Stage::Closed(
            CloseReason::AnnounceFailed(s),
        ),
        next_stage(Stage::Replying(s), v, Event::Sent) == Stage::Connecting(s),
        next_stage(Stage::Connecting(s), v, Event::Connected) == Stage::Announcing(s),
        next_stage(Stage::Announcing(s), v, Event::Sent) == Stage::Relaying(s),
{
}

} // verus!
