//! Command-line settings and the idle watchdog.

use std::num::IntErrorKind;
use vstd::prelude::*;

verus! {

/// Seconds without connections after which the proxy stops, unless set.
pub const DEFAULT_TIMEOUT: u64 = 30;

/// How many times per timeout period the watchdog looks at the connections.
pub const CHECKS_PER_TIMEOUT: u64 = 6;

/// Why a decimal number was refused, after std's `IntErrorKind`.
#[derive(Debug, Clone, Copy, PartialEq, Eq, Structural)]
pub enum NumberError {
    /// The text is empty.
    Empty,
    /// The text holds a character that is not a digit, or a sign on its own.
    InvalidDigit,
    /// The number is too large for the type.
    PosOverflow,
    /// Any other kind that std reports (none for unsigned types).
    Other,
}

/// Whether `c` is an ASCII decimal digit.
pub open spec fn is_digit(c: char) -> bool {
    '0' <= c && c <= '9'
}

/// The number that a string of decimal digits writes.
pub open spec fn digits_value(ds: Seq<char>) -> nat
    decreases ds.len(),
{
    if ds.len() == 0 {
        0
    } else {
        digits_value(ds.drop_last()) * 10 + ((ds.last() as nat) - ('0' as nat)) as nat
    }
}

/// The digits of an unsigned number in text form: an optional `+` is dropped.
pub open spec fn unsigned_digits(s: Seq<char>) -> Seq<char> {
    if s.len() > 0 && s[0] == '+' {
        s.drop_first()
    } else {
        s
    }
}

/// The number that `s` writes in decimal, if it is an optional `+` followed by
/// at least one digit and nothing else, and the number is at most `max`.
pub open spec fn decimal_value(s: Seq<char>, max: nat) -> Option<nat> {
    let ds = unsigned_digits(s);
    if ds.len() > 0 && (forall|i: int| 0 <= i < ds.len() ==> is_digit(#[trigger] ds[i]))
        && digits_value(ds) <= max {
        Some(digits_value(ds))
    } else {
        None
    }
}

/// Whether `e` is the error that std documents for refusing `s` as an unsigned
/// number of at most `max`: `Empty` exactly for the empty text, `InvalidDigit`
/// for a sign on its own, `PosOverflow` for digits only whose value is above
/// `max`, and one of the two for text with a character that is not a digit.
pub open spec fn documented_error(s: Seq<char>, max: nat, e: NumberError) -> bool {
    let ds = unsigned_digits(s);
    &&& (e == NumberError::Empty <==> s.len() == 0)
    &&& (s.len() > 0 && ds.len() == 0 ==> e == NumberError::InvalidDigit)
    &&& (ds.len() > 0 && (forall|i: int| 0 <= i < ds.len() ==> is_digit(#[trigger] ds[i]))
        ==> e == NumberError::PosOverflow)
    &&& (s.len() > 0 && ds.len() > 0 && (exists|i: int| 0 <= i < ds.len() && !is_digit(#[trigger] ds[i]))
        ==> e == NumberError::InvalidDigit || e == NumberError::PosOverflow)
}

/// `str::parse::<u64>`, with the kind of its `ParseIntError` told apart. Its
/// documentation (`u64::from_str_radix` with radix 10) accepts an optional `+`
/// followed by digits only, and refuses an empty string, any other character
/// and a value above `u64::MAX`; `IntErrorKind` documents which kind each
/// refusal gets. Which of `InvalidDigit` and `PosOverflow` comes for text that
/// holds both a non-digit and too many digits is not documented, and is left
/// open.
#[verifier::external_body]
fn parse_u64(s: &str) -> (res: Result<u64, NumberError>)
    ensures
        res is Ok <==> decimal_value(s@, u64::MAX as nat) is Some,
        res matches Ok(v) ==> decimal_value(s@, u64::MAX as nat) == Some(v as nat),
        res matches Err(e) ==> documented_error(s@, u64::MAX as nat, e),
{
    match s.parse::<u64>() {
        Ok(v) => Ok(v),
        Err(e) => Err(match e.kind() {
            IntErrorKind::Empty => NumberError::Empty,
            IntErrorKind::InvalidDigit => NumberError::InvalidDigit,
            IntErrorKind::PosOverflow => NumberError::PosOverflow,
            _ => NumberError::Other,
        }),
    }
}

/// `str::parse::<u32>`, as `parse_u64` with a limit of `u32::MAX`.
#[verifier::external_body]
fn parse_u32(s: &str) -> (res: Result<u32, NumberError>)
    ensures
        res is Ok <==> decimal_value(s@, u32::MAX as nat) is Some,
        res matches Ok(v) ==> decimal_value(s@, u32::MAX as nat) == Some(v as nat),
        res matches Err(e) ==> documented_error(s@, u32::MAX as nat, e),
{
    match s.parse::<u32>() {
        Ok(v) => Ok(v),
        Err(e) => Err(match e.kind() {
            IntErrorKind::Empty => NumberError::Empty,
            IntErrorKind::InvalidDigit => NumberError::InvalidDigit,
            IntErrorKind::PosOverflow => NumberError::PosOverflow,
            _ => NumberError::Other,
        }),
    }
}

/// The idle timeout from the `-t` option: its value where it is a decimal
/// `u64`, else the default.
pub fn timeout_or_default(arg: Option<&str>) -> (t: u64)
    ensures
        match arg {
            Some(s) => match decimal_value(s@, u64::MAX as nat) {
                Some(v) => t as nat == v,
                None => t == DEFAULT_TIMEOUT,
            },
            None => t == DEFAULT_TIMEOUT,
        },
{
    match arg {
        Some(s) => match parse_u64(s) {
            Ok(v) => v,
            Err(_) => DEFAULT_TIMEOUT,
        },
        None => DEFAULT_TIMEOUT,
    }
}

/// The game version from the `-v` option, which must be a decimal `u32`; the
/// error says why it is not.
pub fn parse_version(arg: &str) -> (res: Result<u32, NumberError>)
    ensures
        res is Ok <==> decimal_value(arg@, u32::MAX as nat) is Some,
        res matches Ok(v) ==> decimal_value(arg@, u32::MAX as nat) == Some(v as nat),
        res matches Err(e) ==> documented_error(arg@, u32::MAX as nat, e),
{
    parse_u32(arg)
}


/// The number of commas in `s`.
pub open spec fn comma_count(s: Seq<char>) -> nat
    decreases s.len(),
{
    if s.len() == 0 {
        0
    } else {
        comma_count(s.drop_last()) + if s.last() == ',' {
            1nat
        } else {
            0nat
        }
    }
}

/// Why a `-b` value is not a `local,remote` pair.
#[derive(Debug, Clone, Copy, PartialEq, Eq, Structural)]
pub enum BindSpecError {
    /// The value does not hold exactly one comma; it holds this many.
    WrongCommaCount(usize),
}

proof fn lemma_comma_count_push(s: Seq<char>, c: char)
    ensures
        comma_count(s.push(c)) == comma_count(s) + if c == ',' {
            1nat
        } else {
            0nat
        },
{
    assert(s.push(c).drop_last() =~= s);
}

/// Splits a `-b` value, `local,remote`, at its one comma.
pub fn split_bind<'a>(input: &'a str) -> (res: Result<(&'a str, &'a str), BindSpecError>)
    ensures
        match res {
            Ok((local, remote)) => {
                &&& comma_count(input@) == 1
                &&& input@ == local@ + seq![','] + remote@
                &&& forall|i: int| 0 <= i < local@.len() ==> local@[i] != ','
                &&& forall|i: int| 0 <= i < remote@.len() ==> remote@[i] != ','
            },
            Err(BindSpecError::WrongCommaCount(n)) => n == comma_count(input@) && n != 1,
        },
{
    let len = input.unicode_len();
    let mut i: usize = 0;
    let mut commas: usize = 0;
    let mut first: usize = 0;
    while i < len
        invariant
            len == input@.len(),
            i <= len,
            commas == comma_count(input@.subrange(0, i as int)),
            commas <= i,
            commas > 0 ==> first < i && input@[first as int] == ',',
            commas > 0 ==> forall|j: int| 0 <= j < first ==> input@[j] != ',',
            commas == 0 ==> forall|j: int| 0 <= j < i ==> input@[j] != ',',
            commas == 1 ==> forall|j: int| first < j < i ==> input@[j] != ',',
        decreases len - i,
    {
        let c = input.get_char(i);
        proof {
            assert(input@.subrange(0, i + 1) =~= input@.subrange(0, i as int).push(c));
            lemma_comma_count_push(input@.subrange(0, i as int), c);
        }
        if c == ',' {
            if commas == 0 {
                first = i;
            }
            commas = commas + 1;
        }
        i = i + 1;
    }
    assert(input@.subrange(0, len as int) =~= input@);
    if commas != 1 {
        return Err(BindSpecError::WrongCommaCount(commas));
    }
    let local = input.substring_char(0, first);
    let remote = input.substring_char(first + 1, len);
    assert(input@ =~= local@ + seq![','] + remote@);
    assert forall|j: int| 0 <= j < remote@.len() implies remote@[j] != ',' by {
        assert(remote@[j] == input@[first + 1 + j]);
    }
    Ok((local, remote))
}

/// What the idle watchdog does after a look at the connections.
#[derive(Debug, Clone, Copy, PartialEq, Eq, Structural)]
pub enum Watch {
    /// This many connections are open: the idle clock starts again.
    Active(u64),
    /// No connection is open, and the timeout has not run out yet.
    Idle,
    /// No connection is open and the proxy has been idle for longer than the
    /// timeout: it stops.
    Stop,
}

/// Seconds between two looks of the watchdog.
pub fn check_interval(timeout: u64) -> (secs: u64)
    ensures
        secs == timeout / CHECKS_PER_TIMEOUT,
{
    timeout / CHECKS_PER_TIMEOUT
}

/// Nanoseconds in a second.
pub const NANOS_PER_SEC: u128 = 1_000_000_000;

/// The timeout in nanoseconds.
pub open spec fn timeout_nanos(timeout: u64) -> int {
    timeout as int * 1_000_000_000
}

/// The abstract state of the watchdog: times are nanoseconds since it started.
pub struct WatchdogView {
    pub timeout: u64,
    /// The time of the last look that saw a connection, or the start.
    pub last_active: int,
    /// The time of the last look, or the start.
    pub last_look: int,
}

/// The watchdog when the proxy starts.
pub open spec fn watchdog_start(timeout: u64) -> WatchdogView {
    WatchdogView { timeout, last_active: 0, last_look: 0 }
}

/// The decision of a look at time `now` that sees `connections` open.
pub open spec fn decide(s: WatchdogView, now: int, connections: u64) -> Watch {
    if connections > 0 {
        Watch::Active(connections)
    } else if now - s.last_active > timeout_nanos(s.timeout) {
        Watch::Stop
    } else {
        Watch::Idle
    }
}

/// The watchdog after a look at time `now` that sees `connections` open.
pub open spec fn after_look(s: WatchdogView, now: int, connections: u64) -> WatchdogView {
    WatchdogView {
        timeout: s.timeout,
        last_active: if connections > 0 {
            now
        } else {
            s.last_active
        },
        last_look: now,
    }
}

/// The watchdog after a run of looks, each a time and the connections it saw.
pub open spec fn after_looks(s: WatchdogView, looks: Seq<(u128, u64)>) -> WatchdogView
    decreases looks.len(),
{
    if looks.len() == 0 {
        s
    } else {
        after_look(after_looks(s, looks.drop_last()), looks.last().0 as int, looks.last().1)
    }
}

/// The decision of the `i`-th look of a run from the start.
pub open spec fn decision_at(timeout: u64, looks: Seq<(u128, u64)>, i: int) -> Watch {
    decide(after_looks(watchdog_start(timeout), looks.take(i)), looks[i].0 as int, looks[i].1)
}

/// The time of the last look of `looks` that saw a connection, or the start.
pub open spec fn last_active_time(looks: Seq<(u128, u64)>) -> int
    decreases looks.len(),
{
    if looks.len() == 0 {
        0
    } else if looks.last().1 > 0 {
        looks.last().0 as int
    } else {
        last_active_time(looks.drop_last())
    }
}

/// Whether the times of `looks` never go back.
pub open spec fn times_ordered(looks: Seq<(u128, u64)>) -> bool {
    forall|i: int, j: int| 0 <= i <= j < looks.len() ==> looks[i].0 <= looks[j].0
}

/// The idle watchdog: it stops the proxy once no connection has been seen for
/// longer than the timeout.
pub struct Watchdog {
    timeout: u64,
    last_active: u128,
    last_look: u128,
}

impl View for Watchdog {
    type V = WatchdogView;

    closed spec fn view(&self) -> WatchdogView {
        WatchdogView {
            timeout: self.timeout,
            last_active: self.last_active as int,
            last_look: self.last_look as int,
        }
    }
}

impl Watchdog {
    #[verifier::type_invariant]
    spec fn well_formed(self) -> bool {
        self.last_active <= self.last_look
    }

    /// The watchdog when the proxy starts, with the timeout in seconds.
    pub fn new(timeout: u64) -> (w: Watchdog)
        ensures
            w@ == watchdog_start(timeout),
    {
        Watchdog { timeout, last_active: 0, last_look: 0 }
    }

    /// The time of the last look that saw a connection, or of the start, in
    /// nanoseconds since the start.
    pub fn last_active(&self) -> (t: u128)
        ensures
            t == self@.last_active,
    {
        self.last_active
    }

    /// The time of the last look, in nanoseconds since the start.
    pub fn last_look(&self) -> (t: u128)
        ensures
            t == self@.last_look,
    {
        self.last_look
    }

    /// One look at time `now`, in nanoseconds since the start, that sees
    /// `connections` open.
    pub fn look(&mut self, now: u128, connections: u64) -> (w: Watch)
        requires
            now >= old(self)@.last_look,
        ensures
            w == decide(old(self)@, now as int, connections),
            final(self)@ == after_look(old(self)@, now as int, connections),
    {
        proof {
            use_type_invariant(&*self);
        }
        let timeout_ns: u128 = (self.timeout as u128) * NANOS_PER_SEC;
        let decision = if connections > 0 {
            Watch::Active(connections)
        } else if now - self.last_active > timeout_ns {
            Watch::Stop
        } else {
            Watch::Idle
        };
        let last_active = if connections > 0 {
            now
        } else {
            self.last_active
        };
        *self = Watchdog { timeout: self.timeout, last_active, last_look: now };
        decision
    }
}

/// After any run of looks, the watchdog's idle clock starts at the last look
/// that saw a connection, or at the start if none did.
pub proof fn lemma_watchdog_tracks_last_active(timeout: u64, looks: Seq<(u128, u64)>)
    ensures
        after_looks(watchdog_start(timeout), looks).last_active == last_active_time(looks),
        after_looks(watchdog_start(timeout), looks).timeout == timeout,
        looks.len() > 0 ==> after_looks(watchdog_start(timeout), looks).last_look
            == looks.last().0,
    decreases looks.len(),
{
    if looks.len() > 0 {
        lemma_watchdog_tracks_last_active(timeout, looks.drop_last());
    }
}

/// Over any run of looks from the start, the `i`-th look stops the proxy
/// exactly when it sees no connection and more than the timeout has passed
/// since the last look that saw one (or since the start, if none did). So it
/// never stops while a connection is open, nor within the timeout of the
/// start; a look that sees connections reports them.
pub proof fn lemma_watchdog_stops_after_timeout(timeout: u64, looks: Seq<(u128, u64)>, i: int)
    requires
        0 <= i < looks.len(),
    ensures
        decision_at(timeout, looks, i) == Watch::Stop <==> (looks[i].1 == 0 && looks[i].0
            - last_active_time(looks.take(i + 1)) > timeout_nanos(timeout)),
        looks[i].1 > 0 ==> decision_at(timeout, looks, i) == Watch::Active(looks[i].1),
        decision_at(timeout, looks, i) == Watch::Stop ==> looks[i].0 > timeout_nanos(timeout),
{
    let prefix = looks.take(i);
    let upto = looks.take(i + 1);
    lemma_watchdog_tracks_last_active(timeout, prefix);
    assert(upto.drop_last() =~= prefix);
    assert(upto.last() == looks[i]);
    lemma_last_active_bounds(upto);
}

/// Where the looks come in time order, a look that stops the proxy comes more
/// than the timeout after every earlier look that saw a connection.
pub proof fn lemma_watchdog_waits_after_activity(
    timeout: u64,
    looks: Seq<(u128, u64)>,
    i: int,
    j: int,
)
    requires
        times_ordered(looks),
        0 <= j <= i < looks.len(),
        looks[j].1 > 0,
        decision_at(timeout, looks, i) == Watch::Stop,
    ensures
        looks[i].0 - looks[j].0 > timeout_nanos(timeout),
{
    lemma_watchdog_stops_after_timeout(timeout, looks, i);
    let upto = looks.take(i + 1);
    assert(upto[j] == looks[j]);
    lemma_last_active_is_latest(upto, j);
}

/// The last active time is never negative.
proof fn lemma_last_active_bounds(looks: Seq<(u128, u64)>)
    ensures
        last_active_time(looks) >= 0,
    decreases looks.len(),
{
    if looks.len() > 0 {
        lemma_last_active_bounds(looks.drop_last());
    }
}

/// Where times are ordered, no look that saw a connection is later than the
/// last active time.
proof fn lemma_last_active_is_latest(looks: Seq<(u128, u64)>, j: int)
    requires
        0 <= j < looks.len(),
        looks[j].1 > 0,
        forall|a: int, b: int| 0 <= a <= b < looks.len() ==> looks[a].0 <= looks[b].0,
    ensures
        looks[j].0 <= last_active_time(looks),
    decreases looks.len(),
{
    if looks.last().1 > 0 {
        assert(looks[j].0 <= looks[looks.len() - 1].0);
    } else {
        let rest = looks.drop_last();
        assert(j < rest.len());
        assert(rest[j] == looks[j]);
        lemma_last_active_is_latest(rest, j);
    }
}

/// The idle limit is the configured timeout in whole seconds: a look that sees
/// no connection stops the proxy exactly when more than `timeout` seconds have
/// passed since the last look that saw one, and a look that sees connections
/// reports them and restarts the idle clock.
pub proof fn lemma_watchdog_limit_is_the_timeout(s: WatchdogView, now: int, connections: u64)
    ensures
        timeout_nanos(s.timeout) == s.timeout as int * 1_000_000_000,
        connections > 0 ==> decide(s, now, connections) == Watch::Active(connections),
        connections > 0 ==> after_look(s, now, connections).last_active == now,
        connections == 0 ==> (decide(s, now, connections) == Watch::Stop <==> now - s.last_active
            > s.timeout as int * 1_000_000_000),
        connections == 0 ==> (decide(s, now, connections) == Watch::Idle <==> now - s.last_active
            <= s.timeout as int * 1_000_000_000),
        connections == 0 ==> after_look(s, now, connections).last_active == s.last_active,
        after_look(s, now, connections).last_look == now,
        after_look(s, now, connections).timeout == s.timeout,
{
}

} // verus!
