//! Outcome classification and aggregation for the benchmark runner.
//!
//! The runner sends one encoded query per attempt and waits for a datagram
//! or a timeout. Each attempt walks the state machine `Idle` then `Sent`
//! then one terminal outcome; arrival of any datagram counts as success and
//! the elapsed time is the measurement. The transport itself (socket,
//! clock, sleeping between attempts) lives outside this crate and hands in
//! [`AttemptEvent`]s; everything here is a pure function of its arguments.
//! Durations are whole nanoseconds.

use vstd::prelude::*;

verus! {

/// Why a single attempt failed.
#[derive(Clone, Copy, Debug, PartialEq, Eq, Structural)]
pub enum AttemptFailure {
    /// The query could not be transmitted.
    SendFailed,
    /// No datagram arrived within the configured timeout.
    TimedOut,
    /// A receive-side transport error other than a timeout.
    RecvFailed,
}

/// The outcome of one attempt: the elapsed nanoseconds until the first
/// datagram arrived, or the kind of failure.
#[derive(Clone, Copy, Debug, PartialEq, Eq, Structural)]
pub enum AttemptOutcome {
    /// A datagram arrived after this many nanoseconds.
    Success(u64),
    /// The attempt produced no measurement.
    Failure(AttemptFailure),
}

/// One attempt's position in its lifecycle: not yet sent, sent and awaiting
/// a datagram, or finished with an outcome.
#[derive(Clone, Copy, Debug, PartialEq, Eq, Structural)]
pub enum AttemptState {
    /// Nothing sent yet.
    Idle,
    /// The query went out; a datagram or a timeout is awaited.
    Sent,
    /// The attempt is over; terminal.
    Done(AttemptOutcome),
}

/// What the transport reports back to the state machine.
#[derive(Clone, Copy, Debug, PartialEq, Eq, Structural)]
pub enum AttemptEvent {
    /// The query was handed to the network.
    SendOk,
    /// Transmitting the query failed.
    SendErr,
    /// A datagram arrived after this many nanoseconds.
    Received(u64),
    /// The receive timeout elapsed with no datagram.
    RecvTimedOut,
    /// Receiving failed for another reason.
    RecvErr,
}

/// The attempt state machine: `Idle` moves to `Sent` on a successful send
/// and to a terminal failure on a failed one; `Sent` moves to a terminal
/// outcome on any receive report; a `Done` state absorbs every event, and an
/// event for the wrong phase changes nothing.
pub open spec fn spec_step(s: AttemptState, e: AttemptEvent) -> AttemptState {
    match s {
        AttemptState::Idle => match e {
            AttemptEvent::SendOk => AttemptState::Sent,
            AttemptEvent::SendErr => AttemptState::Done(
                AttemptOutcome::Failure(AttemptFailure::SendFailed),
            ),
            _ => s,
        },
        AttemptState::Sent => match e {
            AttemptEvent::Received(nanos) => AttemptState::Done(AttemptOutcome::Success(nanos)),
            AttemptEvent::RecvTimedOut => AttemptState::Done(
                AttemptOutcome::Failure(AttemptFailure::TimedOut),
            ),
            AttemptEvent::RecvErr => AttemptState::Done(
                AttemptOutcome::Failure(AttemptFailure::RecvFailed),
            ),
            _ => s,
        },
        AttemptState::Done(_) => s,
    }
}

/// Advances one attempt by one transport event, as [`spec_step`] says.
pub fn attempt_step(s: AttemptState, e: AttemptEvent) -> (r: AttemptState)
    ensures
        r == spec_step(s, e),
{
    match s {
        AttemptState::Idle => match e {
            AttemptEvent::SendOk => AttemptState::Sent,
            AttemptEvent::SendErr => AttemptState::Done(
                AttemptOutcome::Failure(AttemptFailure::SendFailed),
            ),
            _ => s,
        },
        AttemptState::Sent => match e {
            AttemptEvent::Received(nanos) => AttemptState::Done(AttemptOutcome::Success(nanos)),
            AttemptEvent::RecvTimedOut => AttemptState::Done(
                AttemptOutcome::Failure(AttemptFailure::TimedOut),
            ),
            AttemptEvent::RecvErr => AttemptState::Done(
                AttemptOutcome::Failure(AttemptFailure::RecvFailed),
            ),
            _ => s,
        },
        AttemptState::Done(_) => s,
    }
}

/// The outcome of a finished attempt; `None` while it is still running.
pub fn attempt_outcome(s: &AttemptState) -> (r: Option<AttemptOutcome>)
    ensures
        match *s {
            AttemptState::Done(o) => r == Some(o),
            _ => r is None,
        },
{
    match s {
        AttemptState::Done(o) => Some(*o),
        _ => None,
    }
}

/// Every terminal state is final: no later event changes a finished attempt.
pub proof fn lemma_terminal_absorbs(s: AttemptState, e: AttemptEvent)
    requires
        s is Done,
    ensures
        spec_step(s, e) == s,
{
}

/// An attempt succeeded.
pub open spec fn is_success(o: AttemptOutcome) -> bool {
    o is Success
}

/// The measured nanoseconds of a successful attempt; a failure measures
/// nothing and contributes zero.
pub open spec fn attempt_nanos(o: AttemptOutcome) -> int {
    match o {
        AttemptOutcome::Success(nanos) => nanos as int,
        AttemptOutcome::Failure(_) => 0,
    }
}

/// How many of the attempts succeeded.
pub open spec fn spec_success_count(s: Seq<AttemptOutcome>) -> int
    decreases s.len(),
{
    if s.len() == 0 {
        0
    } else {
        spec_success_count(s.drop_last()) + if is_success(s.last()) {
            1int
        } else {
            0int
        }
    }
}

/// How many of the attempts failed.
pub open spec fn spec_failure_count(s: Seq<AttemptOutcome>) -> int
    decreases s.len(),
{
    if s.len() == 0 {
        0
    } else {
        spec_failure_count(s.drop_last()) + if is_success(s.last()) {
            0int
        } else {
            1int
        }
    }
}

/// The sum of the successful attempts' nanoseconds.
pub open spec fn spec_sum_nanos(s: Seq<AttemptOutcome>) -> int
    decreases s.len(),
{
    if s.len() == 0 {
        0
    } else {
        spec_sum_nanos(s.drop_last()) + attempt_nanos(s.last())
    }
}

/// A target's summary over all its attempts.
#[derive(Clone, Copy, Debug, PartialEq, Eq, Structural)]
pub struct Aggregate {
    /// Attempts on which a datagram arrived.
    pub success_count: usize,
    /// Attempts that timed out or hit a transport error.
    pub failure_count: usize,
    /// Total nanoseconds over the successful attempts.
    pub sum_nanos: u128,
}

impl Aggregate {
    /// This aggregate is the summary of the attempt sequence `s`.
    pub open spec fn summarizes(self, s: Seq<AttemptOutcome>) -> bool {
        &&& self.success_count == spec_success_count(s)
        &&& self.failure_count == spec_failure_count(s)
        &&& self.sum_nanos == spec_sum_nanos(s)
    }

    /// The mean latency in nanoseconds over the successful attempts, or
    /// `None` when no attempt succeeded and there is no data to average.
    pub fn mean_nanos(&self) -> (r: Option<u128>)
        ensures
            self.success_count == 0 ==> r is None,
            self.success_count > 0 ==> r == Some((self.sum_nanos / self.success_count as u128)),
    {
        if self.success_count == 0 {
            None
        } else {
            Some(self.sum_nanos / self.success_count as u128)
        }
    }
}

/// Successes and failures partition the attempts: the two counts always add
/// up to the number of attempts made.
pub proof fn lemma_counts_partition(s: Seq<AttemptOutcome>)
    ensures
        spec_success_count(s) + spec_failure_count(s) == s.len(),
    decreases s.len(),
{
    if s.len() > 0 {
        lemma_counts_partition(s.drop_last());
    }
}

/// The counts never go negative and never exceed the number of attempts.
pub proof fn lemma_counts_bounds(s: Seq<AttemptOutcome>)
    ensures
        0 <= spec_success_count(s) <= s.len(),
        0 <= spec_failure_count(s) <= s.len(),
    decreases s.len(),
{
    if s.len() > 0 {
        lemma_counts_bounds(s.drop_last());
    }
}

/// The summed nanoseconds stay under the number of successes times the
/// largest single measurement.
pub proof fn lemma_sum_bound(s: Seq<AttemptOutcome>)
    ensures
        0 <= spec_sum_nanos(s) <= spec_success_count(s) * 0xffff_ffff_ffff_ffffint,
    decreases s.len(),
{
    if s.len() > 0 {
        lemma_sum_bound(s.drop_last());
        lemma_counts_bounds(s.drop_last());
        let c = spec_success_count(s.drop_last());
        if is_success(s.last()) {
            assert(c * 0xffff_ffff_ffff_ffffint + 0xffff_ffff_ffff_ffffint == (c + 1)
                * 0xffff_ffff_ffff_ffffint) by (nonlinear_arith);
        }
    }
}

/// A run where every attempt failed has no successes, as many failures as
/// attempts, and an empty sum: its mean is explicit "no data", never a
/// division by zero.
pub proof fn lemma_all_failures(s: Seq<AttemptOutcome>)
    requires
        forall|i: int| 0 <= i < s.len() ==> !is_success(#[trigger] s[i]),
    ensures
        spec_success_count(s) == 0,
        spec_failure_count(s) == s.len(),
        spec_sum_nanos(s) == 0,
    decreases s.len(),
{
    if s.len() > 0 {
        assert(!is_success(s[s.len() - 1]));
        lemma_all_failures(s.drop_last());
    }
}

/// Summarizes one target's attempts: counts the successes and failures and
/// sums the successful measurements.
pub fn aggregate_of(attempts: &Vec<AttemptOutcome>) -> (r: Aggregate)
    ensures
        r.summarizes(attempts@),
{
    let mut agg = Aggregate { success_count: 0, failure_count: 0, sum_nanos: 0 };
    let mut j: usize = 0;
    proof {
        assert(attempts@.take(0) =~= Seq::<AttemptOutcome>::empty());
    }
    while j < attempts.len()
        invariant
            j <= attempts@.len(),
            agg.summarizes(attempts@.take(j as int)),
        decreases attempts@.len() - j,
    {
        proof {
            assert(attempts@.take(j + 1).drop_last() =~= attempts@.take(j as int));
            assert(attempts@.take(j + 1).last() == attempts@[j as int]);
            lemma_counts_bounds(attempts@.take(j as int));
            lemma_sum_bound(attempts@.take(j as int));
        }
        match attempts[j] {
            AttemptOutcome::Success(nanos) => {
                proof {
                    let c = spec_success_count(attempts@.take(j as int));
                    assert(c * 0xffff_ffff_ffff_ffffint + 0xffff_ffff_ffff_ffffint <= (c + 1)
                        * 0xffff_ffff_ffff_ffffint < 0xffff_ffff_ffff_ffff_ffff_ffff_ffff_ffffint)
                        by (nonlinear_arith)
                        requires
                            0 <= c <= 0xffff_ffff_ffff_ffffint,
                    ;
                }
                agg.success_count = agg.success_count + 1;
                agg.sum_nanos = agg.sum_nanos + nanos as u128;
            },
            AttemptOutcome::Failure(_) => {
                agg.failure_count = agg.failure_count + 1;
            },
        }
        j += 1;
    }
    proof {
        assert(attempts@.take(attempts@.len() as int) =~= attempts@);
    }
    agg
}

/// Summarizes a whole run: one aggregate per target, in the order the
/// targets' attempt records come in, however many attempts failed.
pub fn run_aggregates(outcomes: &Vec<Vec<AttemptOutcome>>) -> (r: Vec<Aggregate>)
    ensures
        r@.len() == outcomes@.len(),
        forall|i: int|
            0 <= i < r@.len() ==> (#[trigger] r@[i]).summarizes(outcomes@[i]@),
{
    let mut r: Vec<Aggregate> = Vec::new();
    let mut t: usize = 0;
    while t < outcomes.len()
        invariant
            t <= outcomes@.len(),
            r@.len() == t,
            forall|i: int| 0 <= i < t ==> (#[trigger] r@[i]).summarizes(outcomes@[i]@),
        decreases outcomes@.len() - t,
    {
        let agg = aggregate_of(&outcomes[t]);
        r.push(agg);
        t += 1;
    }
    r
}

/// What one run needs: the resolver endpoints to measure, in order, and the
/// fixed query and pacing they share.
pub struct BenchConfig {
    /// Resolver endpoints, each a `host:port` string, in report order.
    pub targets: Vec<String>,
    /// The hostname every query asks about.
    pub hostname: String,
    /// Attempts per target.
    pub repetitions: u16,
    /// Per-attempt receive timeout, in milliseconds.
    pub timeout_millis: u64,
    /// The local `address:port` to bind the one shared socket to.
    pub local_bind: String,
}

} // verus!
