use rs_proxy::config::{
    check_interval, parse_version, split_bind, timeout_or_default, BindSpecError, NumberError, Watch,
    Watchdog,
    DEFAULT_TIMEOUT,
};
use rs_proxy::transfer::{
    settle, Completion, IoFailure, RelayAction, RelayDirection, RelayEvent, RelaySide, RelayStage,
};

#[test]
fn bind_value_splits_at_its_comma() {
    assert_eq!(split_bind("0.0.0.0:43594,10.0.0.5:43594"), Ok(("0.0.0.0:43594", "10.0.0.5:43594")));
    assert_eq!(split_bind(","), Ok(("", "")));
}

#[test]
fn bind_value_needs_exactly_one_comma() {
    assert_eq!(split_bind("127.0.0.1:1"), Err(BindSpecError::WrongCommaCount(0)));
    assert_eq!(split_bind(""), Err(BindSpecError::WrongCommaCount(0)));
    assert_eq!(split_bind("a,b,c"), Err(BindSpecError::WrongCommaCount(2)));
}

#[test]
fn timeout_falls_back_to_default() {
    assert_eq!(timeout_or_default(None), DEFAULT_TIMEOUT);
    assert_eq!(timeout_or_default(Some("45")), 45);
    assert_eq!(timeout_or_default(Some("+7")), 7);
    assert_eq!(timeout_or_default(Some("abc")), 30);
    assert_eq!(timeout_or_default(Some("")), 30);
    assert_eq!(timeout_or_default(Some("-1")), 30);
    assert_eq!(timeout_or_default(Some("18446744073709551616")), 30);
    assert_eq!(timeout_or_default(Some("18446744073709551615")), u64::MAX);
}

#[test]
fn version_must_be_a_u32() {
    assert_eq!(parse_version("218").unwrap(), 218);
    assert!(parse_version("4294967296").is_err());
    assert!(parse_version(" 218").is_err());
    assert!(parse_version("+").is_err());
}

const SEC: u128 = 1_000_000_000;

#[test]
fn watchdog_decisions() {
    let mut w = Watchdog::new(30);
    assert_eq!(w.look(5 * SEC, 0), Watch::Idle);
    assert_eq!(w.look(30 * SEC, 0), Watch::Idle);
    assert_eq!(w.look(30 * SEC + 1, 0), Watch::Stop);
    assert_eq!(check_interval(30), 5);
    assert_eq!(check_interval(5), 0);
}

#[test]
fn watchdog_clock_restarts_at_activity() {
    let mut w = Watchdog::new(30);
    assert_eq!(w.look(25 * SEC, 2), Watch::Active(2));
    assert_eq!(w.last_active(), 25 * SEC);
    assert_eq!(w.look(50 * SEC, 0), Watch::Idle);
    assert_eq!(w.look(55 * SEC, 0), Watch::Idle);
    assert_eq!(w.look(55 * SEC + 1, 0), Watch::Stop);
    assert_eq!(w.last_active(), 25 * SEC);
    assert_eq!(w.last_look(), 55 * SEC + 1);
}

#[test]
fn watchdog_never_stops_with_connections() {
    let mut w = Watchdog::new(0);
    assert_eq!(w.look(1_000 * SEC, 1), Watch::Active(1));
    assert_eq!(w.look(1_000 * SEC, 0), Watch::Idle);
    assert_eq!(w.look(1_000 * SEC + 1, 0), Watch::Stop);
}

#[test]
fn timed_operations_are_judged() {
    assert_eq!(settle(Completion::Done(4), 4), Ok(4));
    assert_eq!(settle(Completion::Done(5), 4), Ok(5));
    assert_eq!(settle(Completion::Done(0), 1), Err(IoFailure::ShortTransfer));
    assert_eq!(settle(Completion::TimedOut, 1), Err(IoFailure::TimedOut));
    assert_eq!(settle(Completion::Failed, 1), Err(IoFailure::Other));
}

#[test]
fn relay_stops_at_end_of_stream() {
    let mut d = RelayDirection::new();
    assert_eq!(d.action(), RelayAction::Read);
    assert_eq!(d.step(RelayEvent::Read(1024)), RelayAction::Write(1024));
    assert_eq!(d.step(RelayEvent::Wrote), RelayAction::Read);
    assert_eq!(d.step(RelayEvent::Read(7)), RelayAction::Write(7));
    assert_eq!(d.step(RelayEvent::Wrote), RelayAction::Read);
    assert_eq!(d.step(RelayEvent::Read(0)), RelayAction::Finish);
    assert_eq!(d.stage(), RelayStage::Done);
}

#[test]
fn relay_ends_with_the_first_failure() {
    let mut d = RelayDirection::new();
    assert_eq!(d.step(RelayEvent::ReadFailed), RelayAction::Fail(RelaySide::Read));
    let mut d = RelayDirection::new();
    d.step(RelayEvent::Read(3));
    assert_eq!(d.step(RelayEvent::WriteFailed), RelayAction::Fail(RelaySide::Write));
    assert_eq!(d.stage(), RelayStage::Broken(RelaySide::Write));
}

#[test]
fn refused_numbers_report_their_kind() {
    assert_eq!(parse_version(""), Err(NumberError::Empty));
    assert_eq!(parse_version("+"), Err(NumberError::InvalidDigit));
    assert_eq!(parse_version("21a"), Err(NumberError::InvalidDigit));
    assert_eq!(parse_version("-1"), Err(NumberError::InvalidDigit));
    assert_eq!(parse_version("4294967296"), Err(NumberError::PosOverflow));
}
