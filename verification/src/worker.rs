//! The decisions of the capture worker: when it stops, and what it does with each read.
use vstd::prelude::*;

verus! {

/// The worker gives up once more than this many reads have failed.
pub const MAX_READ_ERRORS: u32 = 10;

/// Why a worker stops.
#[derive(PartialEq, Eq, Structural, Debug)]
pub enum StopReason {
    /// The channel is closed or nobody receives from it any more.
    ChannelClosed,
    /// More than `MAX_READ_ERRORS` reads have failed.
    TooManyErrors,
}

/// What a worker does next, after waiting for the next frame time.
#[derive(PartialEq, Eq, Structural, Debug)]
pub enum WorkerStep {
    /// Stop for this reason.
    Stop(StopReason),
    /// Read a frame from the capture.
    Read,
}

/// The step a worker takes when `error_count` reads have failed so far and the
/// channel is (or is not) closed with `receivers` receivers.
pub open spec fn step_for(error_count: nat, channel_closed: bool, receivers: nat) -> WorkerStep {
    if channel_closed || receivers < 1 {
        WorkerStep::Stop(StopReason::ChannelClosed)
    } else if error_count > MAX_READ_ERRORS {
        WorkerStep::Stop(StopReason::TooManyErrors)
    } else {
        WorkerStep::Read
    }
}

/// The state of a capture worker: how many of its reads have failed.
pub struct CaptureWorker {
    error_count: u32,
}

impl CaptureWorker {
    /// The number of failed reads so far.
    pub closed spec fn errors(self) -> nat {
        self.error_count as nat
    }

    /// A worker that has not read yet.
    pub fn new() -> (r: Self)
        ensures
            r.errors() == 0,
    {
        CaptureWorker { error_count: 0 }
    }

    /// The number of failed reads so far.
    pub fn error_count(&self) -> (r: u32)
        ensures
            r == self.errors(),
    {
        self.error_count
    }

    /// The next step: stop when the channel is closed or unreceived, else stop when
    /// too many reads have failed, else read.
    pub fn next_step(&self, channel_closed: bool, receiver_count: usize) -> (r: WorkerStep)
        ensures
            r == step_for(self.errors(), channel_closed, receiver_count as nat),
            channel_closed || receiver_count == 0 ==> r == WorkerStep::Stop(StopReason::ChannelClosed),
            !channel_closed && receiver_count >= 1 && self.errors() <= MAX_READ_ERRORS ==> r
                == WorkerStep::Read,
            !channel_closed && receiver_count >= 1 && self.errors() > MAX_READ_ERRORS ==> r
                == WorkerStep::Stop(StopReason::TooManyErrors),
    {
        proof {
            law_step_decisions(self.errors(), channel_closed, receiver_count as nat);
        }
        if channel_closed || receiver_count < 1 {
            WorkerStep::Stop(StopReason::ChannelClosed)
        } else if self.error_count > MAX_READ_ERRORS {
            WorkerStep::Stop(StopReason::TooManyErrors)
        } else {
            WorkerStep::Read
        }
    }

    /// Takes in the outcome of a read that `next_step` asked for: a successful read
    /// is published, a failed one is counted.
    pub fn record_read(&mut self, succeeded: bool) -> (publish: bool)
        requires
            old(self).errors() <= MAX_READ_ERRORS,
        ensures
            publish == succeeded,
            final(self).errors() == old(self).errors() + if succeeded { 0nat } else { 1nat },
    {
        if !succeeded {
            self.error_count = self.error_count + 1;
        }
        succeeded
    }
}

/// What a worker does next, for every error count and every channel: it stops
/// because of the channel exactly when the channel is closed or has no receiver; on an
/// open channel with any number of receivers it reads while at most `MAX_READ_ERRORS`
/// reads have failed, and stops for errors once more have failed.
pub proof fn law_step_decisions(error_count: nat, channel_closed: bool, receivers: nat)
    ensures
        channel_closed || receivers == 0 ==> step_for(error_count, channel_closed, receivers)
            == WorkerStep::Stop(StopReason::ChannelClosed),
        !channel_closed && receivers >= 1 && error_count <= MAX_READ_ERRORS ==> step_for(
            error_count,
            channel_closed,
            receivers,
        ) == WorkerStep::Read,
        !channel_closed && receivers >= 1 && error_count > MAX_READ_ERRORS ==> step_for(
            error_count,
            channel_closed,
            receivers,
        ) == WorkerStep::Stop(StopReason::TooManyErrors),
{
}

/// The receiver count does not matter to an open channel: two open channels with
/// receivers give the same step for the same error count.
pub proof fn law_receivers_do_not_change_step(error_count: nat, receivers1: nat, receivers2: nat)
    requires
        receivers1 >= 1,
        receivers2 >= 1,
    ensures
        step_for(error_count, false, receivers1) == step_for(error_count, false, receivers2),
{
    law_step_decisions(error_count, false, receivers1);
    law_step_decisions(error_count, false, receivers2);
}

/// The number of failed reads among `outcomes` (`true` for a read that succeeded).
pub open spec fn failures(outcomes: Seq<bool>) -> nat
    decreases outcomes.len(),
{
    if outcomes.len() == 0 {
        0
    } else {
        failures(outcomes.drop_last()) + if outcomes.last() { 0nat } else { 1nat }
    }
}

/// Every read among `outcomes` was one that the worker asked for on an open channel:
/// before each of them at most `MAX_READ_ERRORS` reads had failed.
pub open spec fn reads_asked_for(outcomes: Seq<bool>) -> bool {
    forall|n: int|
        0 <= n < outcomes.len() ==> step_for(#[trigger] failures(outcomes.take(n)), false, 1)
            == WorkerStep::Read
}

/// A worker never takes in more than `MAX_READ_ERRORS + 1` failed reads: once that
/// many have failed, it stops on its next step whatever the channel says.
pub proof fn law_failed_reads_bounded(outcomes: Seq<bool>)
    requires
        reads_asked_for(outcomes),
    ensures
        failures(outcomes) <= MAX_READ_ERRORS + 1,
        failures(outcomes) == MAX_READ_ERRORS + 1 ==> forall|closed: bool, receivers: nat|
            #[trigger] step_for(failures(outcomes), closed, receivers) is Stop,
{
    if outcomes.len() > 0 {
        let n = outcomes.len() - 1;
        assert(outcomes.take(n as int) =~= outcomes.drop_last());
        assert(step_for(failures(outcomes.take(n as int)), false, 1) == WorkerStep::Read);
    }
}

/// Failed reads only ever add to the count: a read that succeeds does not reset it.
pub proof fn law_failures_monotone(outcomes: Seq<bool>, more: Seq<bool>)
    ensures
        failures(outcomes) <= failures(outcomes + more),
        failures(outcomes + more) == failures(outcomes) + failures(more),
    decreases more.len(),
{
    if more.len() > 0 {
        law_failures_monotone(outcomes, more.drop_last());
        assert((outcomes + more).drop_last() =~= outcomes + more.drop_last());
    } else {
        assert(outcomes + more =~= outcomes);
    }
}

} // verus!
