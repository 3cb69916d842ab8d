//! The decisions around single socket operations: how the outcome of a timed
//! read or write is judged, and when the relay loop stops.

use vstd::prelude::*;

verus! {

/// Seconds that a read from a client may take.
pub const DEFAULT_READ_TIMEOUT: u64 = 15;

/// Seconds that a write to a client or to the egress may take.
pub const DEFAULT_WRITE_TIMEOUT: u64 = 15;

/// Size of the buffer each relay direction copies through.
pub const BUFFER_SIZE: usize = 1024;

/// How a timed socket operation ended.
#[derive(Debug, Clone, Copy, PartialEq, Eq, Structural)]
pub enum Completion {
    /// The operation transferred this many bytes.
    Done(usize),
    /// The operation itself reported an error.
    Failed,
    /// The time limit ran out first.
    TimedOut,
}

/// Why a timed socket operation is counted as failed.
#[derive(Debug, Clone, Copy, PartialEq, Eq, Structural)]
pub enum IoFailure {
    /// Fewer bytes were transferred than were asked for.
    ShortTransfer,
    /// The time limit ran out.
    TimedOut,
    /// The operation reported an error.
    Other,
}

/// The judgement of a timed read or write that was meant to move `expected`
/// bytes.
pub open spec fn spec_settle(outcome: Completion, expected: usize) -> Result<usize, IoFailure> {
    match outcome {
        Completion::Done(n) => if n < expected {
            Err(IoFailure::ShortTransfer)
        } else {
            Ok(n)
        },
        Completion::Failed => Err(IoFailure::Other),
        Completion::TimedOut => Err(IoFailure::TimedOut),
    }
}

/// Judges a timed read or write that was meant to move `expected` bytes: it
/// succeeds with the number of bytes moved only if that is at least `expected`.
pub fn settle(outcome: Completion, expected: usize) -> (res: Result<usize, IoFailure>)
    ensures
        res == spec_settle(outcome, expected),
{
    match outcome {
        Completion::Done(size) => {
            if size < expected {
                Err(IoFailure::ShortTransfer)
            } else {
                Ok(size)
            }
        },
        Completion::TimedOut => Err(IoFailure::TimedOut),
        Completion::Failed => Err(IoFailure::Other),
    }
}

/// A write that reports no more bytes than it was handed is judged a success
/// only when it wrote every one of them, in that one write.
pub proof fn lemma_settled_write_is_whole(outcome: Completion, expected: usize)
    requires
        outcome matches Completion::Done(n) ==> n <= expected,
    ensures
        spec_settle(outcome, expected) matches Ok(n) ==> n == expected,
{
}

/// Where one direction of the relay stands.
#[derive(Debug, Clone, Copy, PartialEq, Eq, Structural)]
pub enum RelayStage {
    /// Waiting for bytes from the source side.
    Reading,
    /// Passing on this many bytes just read to the other side.
    Writing(usize),
    /// The source side closed: the direction ends without error.
    Done,
    /// An operation failed: the direction ends with that error.
    Broken(RelaySide),
}

/// Which operation of a relay direction failed.
#[derive(Debug, Clone, Copy, PartialEq, Eq, Structural)]
pub enum RelaySide {
    /// The read from the source side.
    Read,
    /// The write to the other side.
    Write,
}

/// What came of the last operation of a relay direction.
#[derive(Debug, Clone, Copy, PartialEq, Eq, Structural)]
pub enum RelayEvent {
    /// The read returned this many bytes.
    Read(usize),
    /// The read failed.
    ReadFailed,
    /// The write completed; a short count is not retried.
    Wrote,
    /// The write failed.
    WriteFailed,
}

/// What a relay direction does next.
#[derive(Debug, Clone, Copy, PartialEq, Eq, Structural)]
pub enum RelayAction {
    /// Read into the buffer.
    Read,
    /// Write the first this many bytes of the buffer to the other side.
    Write(usize),
    /// End without error.
    Finish,
    /// End with the error of the operation that failed.
    Fail(RelaySide),
}

/// The action that a relay stage calls for.
pub open spec fn relay_action_of(stage: RelayStage) -> RelayAction {
    match stage {
        RelayStage::Reading => RelayAction::Read,
        RelayStage::Writing(n) => RelayAction::Write(n),
        RelayStage::Done => RelayAction::Finish,
        RelayStage::Broken(side) => RelayAction::Fail(side),
    }
}

/// Whether `e` can be the outcome of the action that `stage` calls for.
pub open spec fn relay_accepts(stage: RelayStage, e: RelayEvent) -> bool {
    match stage {
        RelayStage::Reading => e is Read || e is ReadFailed,
        RelayStage::Writing(_) => e is Wrote || e is WriteFailed,
        RelayStage::Done => false,
        RelayStage::Broken(_) => false,
    }
}

/// The stage after an accepted event: a read of zero bytes is the end of the
/// stream, any other read is passed on whole, and any failure ends the
/// direction; other events leave the stage as it is.
pub open spec fn relay_next(stage: RelayStage, e: RelayEvent) -> RelayStage {
    match (stage, e) {
        (RelayStage::Reading, RelayEvent::Read(n)) => if n == 0 {
            RelayStage::Done
        } else {
            RelayStage::Writing(n)
        },
        (RelayStage::Reading, RelayEvent::ReadFailed) => RelayStage::Broken(RelaySide::Read),
        (RelayStage::Writing(_), RelayEvent::Wrote) => RelayStage::Reading,
        (RelayStage::Writing(_), RelayEvent::WriteFailed) => RelayStage::Broken(RelaySide::Write),
        _ => stage,
    }
}

/// The stage that a run of events leads to.
pub open spec fn relay_run(stage: RelayStage, es: Seq<RelayEvent>) -> RelayStage
    decreases es.len(),
{
    if es.len() == 0 {
        stage
    } else {
        relay_run(relay_next(stage, es[0]), es.drop_first())
    }
}

/// Whether each event of `es` is an outcome of the action called for at that
/// point, from `stage`.
pub open spec fn relay_paced(stage: RelayStage, es: Seq<RelayEvent>) -> bool
    decreases es.len(),
{
    es.len() == 0 || (relay_accepts(stage, es[0]) && relay_paced(
        relay_next(stage, es[0]),
        es.drop_first(),
    ))
}

/// Whether a relay stage is an end.
pub open spec fn relay_finished(stage: RelayStage) -> bool {
    stage is Done || stage is Broken
}

/// One direction of the relay, from the source side to the other.
pub struct RelayDirection {
    stage: RelayStage,
}

impl View for RelayDirection {
    type V = RelayStage;

    closed spec fn view(&self) -> RelayStage {
        self.stage
    }
}

impl RelayDirection {
    /// A direction that starts with a read.
    pub fn new() -> (d: RelayDirection)
        ensures
            d@ == RelayStage::Reading,
    {
        RelayDirection { stage: RelayStage::Reading }
    }

    /// Where the direction stands.
    pub fn stage(&self) -> (s: RelayStage)
        ensures
            s == self@,
    {
        self.stage
    }

    /// What to do next.
    pub fn action(&self) -> (a: RelayAction)
        ensures
            a == relay_action_of(self@),
    {
        match self.stage {
            RelayStage::Reading => RelayAction::Read,
            RelayStage::Writing(n) => RelayAction::Write(n),
            RelayStage::Done => RelayAction::Finish,
            RelayStage::Broken(side) => RelayAction::Fail(side),
        }
    }

    /// Takes in what came of the last operation and returns the next one.
    pub fn step(&mut self, event: RelayEvent) -> (a: RelayAction)
        requires
            relay_accepts(old(self)@, event),
        ensures
            final(self)@ == relay_next(old(self)@, event),
            a == relay_action_of(final(self)@),
    {
        self.stage =
        match event {
            RelayEvent::Read(n) => if n == 0 {
                RelayStage::Done
            } else {
                RelayStage::Writing(n)
            },
            RelayEvent::ReadFailed => RelayStage::Broken(RelaySide::Read),
            RelayEvent::Wrote => RelayStage::Reading,
            RelayEvent::WriteFailed => RelayStage::Broken(RelaySide::Write),
        };
        self.action()
    }
}

/// A relay direction ends without error exactly at a read of zero bytes, and
/// otherwise with the first failure, read or write, after which it makes no
/// further operation; every earlier event is a read of some bytes or a
/// completed write.
pub proof fn lemma_relay_ends_at_eof_or_first_failure(stage: RelayStage, es: Seq<RelayEvent>)
    requires
        !relay_finished(stage),
        relay_paced(stage, es),
    ensures
        relay_run(stage, es) == RelayStage::Done <==> (es.len() > 0 && es.last()
            == RelayEvent::Read(0)),
        relay_run(stage, es) == RelayStage::Broken(RelaySide::Read) <==> (es.len() > 0
            && es.last() == RelayEvent::ReadFailed),
        relay_run(stage, es) == RelayStage::Broken(RelaySide::Write) <==> (es.len() > 0
            && es.last() == RelayEvent::WriteFailed),
        forall|i: int|
            0 <= i < es.len() - 1 ==> (#[trigger] es[i] is Wrote || (es[i] matches RelayEvent::Read(
                k,
            ) && k > 0)),
    decreases es.len(),
{
    reveal_with_fuel(relay_paced, 2);
    reveal_with_fuel(relay_run, 2);
    if es.len() > 0 {
        let next = relay_next(stage, es[0]);
        let rest = es.drop_first();
        assert(relay_paced(next, rest));
        if relay_finished(next) {
            assert(rest.len() == 0);
        } else {
            lemma_relay_ends_at_eof_or_first_failure(next, rest);
            if rest.len() > 0 {
                assert(es.last() == rest.last());
            }
            assert forall|i: int| 0 <= i < es.len() - 1 implies (#[trigger] es[i] is Wrote || (
            es[i] matches RelayEvent::Read(k) && k > 0)) by {
                if i > 0 {
                    assert(es[i] == rest[i - 1]);
                }
            }
        }
    }
}

/// A timed operation is judged a success exactly when it moved at least the
/// bytes asked for, and then it reports the count it really moved; a short
/// count, an error and a timeout each give their own failure.
pub proof fn lemma_settle_judges_the_count(n: usize, expected: usize)
    ensures
        spec_settle(Completion::Done(n), expected) is Ok <==> n >= expected,
        spec_settle(Completion::Done(n), expected) matches Ok(m) ==> m == n,
        n < expected ==> spec_settle(Completion::Done(n), expected) == Err::<usize, IoFailure>(
            IoFailure::ShortTransfer,
        ),
        spec_settle(Completion::Failed, expected) == Err::<usize, IoFailure>(IoFailure::Other),
        spec_settle(Completion::TimedOut, expected) == Err::<usize, IoFailure>(
            IoFailure::TimedOut,
        ),
{
}

/// Each read of some bytes is passed on whole and alone: the write that follows
/// carries exactly the count just read. A read of nothing ends the direction,
/// and a completed write leads back to reading.
pub proof fn lemma_relay_passes_on_each_read(n: usize, m: usize)
    ensures
        n > 0 ==> relay_next(RelayStage::Reading, RelayEvent::Read(n)) == RelayStage::Writing(n),
        n > 0 ==> relay_action_of(relay_next(RelayStage::Reading, RelayEvent::Read(n)))
            == RelayAction::Write(n),
        relay_next(RelayStage::Reading, RelayEvent::Read(0)) == RelayStage::Done,
        relay_action_of(RelayStage::Done) == RelayAction::Finish,
        relay_next(RelayStage::Writing(m), RelayEvent::Wrote) == RelayStage::Reading,
        relay_action_of(RelayStage::Reading) == RelayAction::Read,
        relay_next(RelayStage::Reading, RelayEvent::ReadFailed) == RelayStage::Broken(
            RelaySide::Read,
        ),
        relay_next(RelayStage::Writing(m), RelayEvent::WriteFailed) == RelayStage::Broken(
            RelaySide::Write,
        ),
{
}

} // verus!
