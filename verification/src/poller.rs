//! Bounded-retry confirmation polling.
//!
//! After submission the flow repeatedly queries the submission's status,
//! up to a fixed budget of polls with a fixed delay before each. A poll
//! observing commitment `Confirmed` or better ends the wait at once; a
//! missing record, a `Processed` commitment or a failed query consumes one
//! retry and the wait goes on; an exhausted budget times the wait out.

use vstd::prelude::*;

verus! {

/// Retry budget of the confirmation poller.
pub const CONFIRM_RETRIES: usize = 20;

/// Delay before each status poll, in milliseconds.
pub const CONFIRM_DELAY_MS: u64 = 500;

/// A ledger-defined confidence tier for a submitted transaction.
#[derive(Clone, Copy, Debug, PartialEq, Eq, Structural)]
pub enum CommitmentLevel {
    Processed,
    Confirmed,
    Finalized,
}

/// The order of the tiers: `Processed < Confirmed < Finalized`.
pub open spec fn spec_rank(c: CommitmentLevel) -> int {
    match c {
        CommitmentLevel::Processed => 0,
        CommitmentLevel::Confirmed => 1,
        CommitmentLevel::Finalized => 2,
    }
}

/// What one status poll observed.
#[derive(Clone, Copy, Debug, PartialEq, Eq, Structural)]
pub enum PollStatus {
    /// The ledger has no record of the signature yet.
    NoRecord,
    /// The ledger reports the given commitment level.
    Commitment(CommitmentLevel),
    /// The status query itself failed; transient, consumes one retry.
    QueryError,
}

/// An observation ends the wait exactly when it reports commitment
/// `Confirmed` or higher; `Processed` alone does not suffice.
pub open spec fn spec_poll_accepts(s: PollStatus) -> bool {
    s matches PollStatus::Commitment(c) && spec_rank(c) >= spec_rank(CommitmentLevel::Confirmed)
}

/// Outcome of a confirmation wait.
#[derive(Clone, Copy, Debug, PartialEq, Eq, Structural)]
pub enum ConfirmOutcome {
    Confirmed,
    TimedOut,
}

/// The observation of poll `i` against a status script; a poll past the end
/// of the script observes no record.
pub open spec fn spec_poll_at(polls: Seq<PollStatus>, i: int) -> PollStatus {
    if 0 <= i < polls.len() {
        polls[i]
    } else {
        PollStatus::NoRecord
    }
}

/// Whether one of the first `k` observations ends the wait.
pub open spec fn spec_confirmed_within(polls: Seq<PollStatus>, k: int) -> bool {
    exists|i: int| 0 <= i < k && spec_poll_accepts(#[trigger] spec_poll_at(polls, i))
}

/// Decides one observation.
pub fn poll_accepts(s: &PollStatus) -> (r: bool)
    ensures
        r == spec_poll_accepts(*s),
{
    match s {
        PollStatus::Commitment(CommitmentLevel::Confirmed) => true,
        PollStatus::Commitment(CommitmentLevel::Finalized) => true,
        _ => false,
    }
}

/// One confirmation wait: counts the polls made and decides when to stop.
/// The caller performs the delay and the status query before each step and
/// hands the observation in; the fixed budget bounds the wait.
pub struct ConfirmationPoller {
    polls_made: usize,
}

impl ConfirmationPoller {
    /// Number of polls recorded so far.
    pub closed spec fn spec_polls_made(&self) -> int {
        self.polls_made as int
    }

    pub fn new() -> (r: Self)
        ensures
            r.spec_polls_made() == 0,
    {
        ConfirmationPoller { polls_made: 0 }
    }

    pub fn polls_made(&self) -> (r: usize)
        ensures
            r == self.spec_polls_made(),
    {
        self.polls_made
    }

    /// Records one observation. The wait ends `Confirmed` exactly when the
    /// observation is accepted, and `TimedOut` exactly when instead the
    /// budget is now exhausted; otherwise it goes on.
    pub fn on_status(&mut self, s: &PollStatus) -> (r: Option<ConfirmOutcome>)
        requires
            old(self).spec_polls_made() < CONFIRM_RETRIES,
        ensures
            final(self).spec_polls_made() == old(self).spec_polls_made() + 1,
            r == (if spec_poll_accepts(*s) {
                Some(ConfirmOutcome::Confirmed)
            } else if old(self).spec_polls_made() + 1 == CONFIRM_RETRIES {
                Some(ConfirmOutcome::TimedOut)
            } else {
                None::<ConfirmOutcome>
            }),
    {
        self.polls_made = self.polls_made + 1;
        if poll_accepts(s) {
            Some(ConfirmOutcome::Confirmed)
        } else if self.polls_made == CONFIRM_RETRIES {
            Some(ConfirmOutcome::TimedOut)
        } else {
            None
        }
    }
}

/// Runs a whole confirmation wait against a script of observations, and
/// returns the outcome with the exact number of polls made: `Confirmed` on
/// the first accepted observation, with no further polls; `TimedOut` after
/// the full budget when no observation within the budget is accepted.
pub fn confirm_signature(polls: &Vec<PollStatus>) -> (r: (ConfirmOutcome, usize))
    ensures
        1 <= r.1 <= CONFIRM_RETRIES,
        r.0 is Confirmed <==> spec_confirmed_within(polls@, CONFIRM_RETRIES as int),
        r.0 is Confirmed ==> spec_poll_accepts(spec_poll_at(polls@, r.1 - 1))
            && !spec_confirmed_within(polls@, r.1 - 1),
        r.0 is TimedOut ==> r.1 == CONFIRM_RETRIES,
{
    let mut poller = ConfirmationPoller::new();
    let mut i: usize = 0;
    loop
        invariant
            0 <= i < CONFIRM_RETRIES,
            poller.spec_polls_made() == i,
            !spec_confirmed_within(polls@, i as int),
        decreases CONFIRM_RETRIES - i,
    {
        let s = if i < polls.len() {
            polls[i]
        } else {
            PollStatus::NoRecord
        };
        assert(s == spec_poll_at(polls@, i as int));
        match poller.on_status(&s) {
            Some(oc) => {
                return (oc, i + 1);
            },
            None => {
                i = i + 1;
            },
        }
    }
}

} // verus!
