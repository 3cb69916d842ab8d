use rs_proxy::handshake::{
    decode_js5_version, service_for_opcode, Action, CloseReason, Event, Service, Session, Stage,
};
use rs_proxy::header::HeaderError;

const GREETING: [u8; 12] = [0x0d, 0x0a, 0x0d, 0x0a, 0x00, 0x0d, 0x0a, 0x51, 0x55, 0x49, 0x54, 0x0a];

fn good_header() -> Vec<u8> {
    let mut v = GREETING.to_vec();
    v.extend_from_slice(&[0x21, 0x11, 0, 12, 203, 0, 113, 7, 10, 0, 0, 2, 0x9c, 0x40, 0xaa, 0x4a]);
    v
}

fn opened(version: u32) -> Session {
    let mut s = Session::new(version);
    assert_eq!(s.action(), Action::Read(28));
    assert_eq!(s.step(Event::Received(good_header())), Action::ReadByte);
    s
}

#[test]
fn rs2_handshake_replies_then_relays() {
    let mut s = opened(218);
    assert_eq!(s.peers().unwrap().source.0, [203, 0, 113, 7]);
    assert_eq!(s.step(Event::ReceivedByte(14)), Action::Reply(0));
    assert_eq!(s.step(Event::Sent), Action::Connect);
    assert_eq!(s.step(Event::Connected), Action::Announce(14));
    assert_eq!(s.step(Event::Sent), Action::Relay);
    assert_eq!(s.stage(), Stage::Relaying(Service::Rs2));
    assert!(s.is_finished());
}

#[test]
fn js5_handshake_checks_version() {
    let mut s = opened(218);
    assert_eq!(s.step(Event::ReceivedByte(15)), Action::Read(4));
    assert_eq!(s.step(Event::Received(vec![0, 0, 0, 218])), Action::Reply(0));
    assert_eq!(s.step(Event::Sent), Action::Connect);
    assert_eq!(s.step(Event::Connected), Action::Announce(15));
    assert_eq!(s.step(Event::Sent), Action::Relay);
    assert_eq!(s.stage(), Stage::Relaying(Service::Js5));
}

#[test]
fn js5_wrong_version_closes() {
    let mut s = opened(218);
    s.step(Event::ReceivedByte(15));
    let a = s.step(Event::Received(vec![0, 0, 0, 217]));
    assert_eq!(
        a,
        Action::Close(CloseReason::VersionMismatch { received: 217, expected: 218 })
    );
    assert!(s.is_finished());
}

#[test]
fn ping_skips_the_reply() {
    let mut s = opened(1);
    assert_eq!(s.step(Event::ReceivedByte(200)), Action::Connect);
    assert_eq!(s.step(Event::Connected), Action::Announce(200));
    assert_eq!(s.step(Event::Sent), Action::Relay);
}

#[test]
fn unknown_opcode_closes() {
    let mut s = opened(1);
    assert_eq!(
        s.step(Event::ReceivedByte(16)),
        Action::Close(CloseReason::UnknownOpcode(16))
    );
    assert_eq!(s.stage(), Stage::Closed(CloseReason::UnknownOpcode(16)));
}

#[test]
fn refused_header_closes() {
    let mut s = Session::new(1);
    assert_eq!(
        s.step(Event::Received(GREETING.to_vec())),
        Action::Close(CloseReason::HeaderRejected(HeaderError::BufferTooShort))
    );
    assert!(s.peers().is_none());
    let mut s = Session::new(1);
    let mut h = good_header();
    h[12] = 0x20;
    assert_eq!(
        s.step(Event::Received(h)),
        Action::Close(CloseReason::HeaderRejected(HeaderError::Invalid))
    );
}

#[test]
fn failures_close_at_every_stage() {
    let mut s = Session::new(1);
    assert_eq!(s.step(Event::Failed), Action::Close(CloseReason::HeaderUnreadable));
    let mut s = opened(1);
    assert_eq!(s.step(Event::Failed), Action::Close(CloseReason::OpcodeUnreadable));
    let mut s = opened(1);
    s.step(Event::ReceivedByte(15));
    assert_eq!(s.step(Event::Failed), Action::Close(CloseReason::VersionUnreadable));
    let mut s = opened(1);
    s.step(Event::ReceivedByte(14));
    assert_eq!(s.step(Event::Failed), Action::Close(CloseReason::ReplyFailed(Service::Rs2)));
    let mut s = opened(1);
    s.step(Event::ReceivedByte(200));
    assert_eq!(s.step(Event::Failed), Action::Close(CloseReason::ConnectFailed(Service::Ping)));
    let mut s = opened(1);
    s.step(Event::ReceivedByte(14));
    s.step(Event::Sent);
    s.step(Event::Connected);
    assert_eq!(s.step(Event::Failed), Action::Close(CloseReason::AnnounceFailed(Service::Rs2)));
}

#[test]
fn js5_version_is_big_endian() {
    assert_eq!(decode_js5_version(&[0x08, 0x09, 0xA0, 0xA1]), 0x0809A0A1);
    assert_eq!(decode_js5_version(&[0, 0, 0, 218, 99]), 218);
}

#[test]
fn opcodes_name_services() {
    assert_eq!(service_for_opcode(14), Some(Service::Rs2));
    assert_eq!(service_for_opcode(15), Some(Service::Js5));
    assert_eq!(service_for_opcode(200), Some(Service::Ping));
    assert_eq!(service_for_opcode(0), None);
    assert_eq!(Service::Js5.opcode(), 15);
    assert!(Service::Rs2.replies());
    assert!(!Service::Ping.replies());
}

#[test]
fn new_session_expects_its_version() {
    let s = Session::new(218);
    assert_eq!(s.expected_version(), 218);
    assert_eq!(s.stage(), Stage::AwaitingHeader);
    assert!(!s.is_finished());
}
