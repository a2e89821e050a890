use wallet_adapter::poller::{
    confirm_signature, CommitmentLevel, ConfirmOutcome, ConfirmationPoller, PollStatus,
    CONFIRM_RETRIES,
};

fn script_confirmed_at(k: usize, level: CommitmentLevel) -> Vec<PollStatus> {
    let mut polls = vec![PollStatus::NoRecord; k - 1];
    polls.push(PollStatus::Commitment(level));
    polls
}

#[test]
fn confirmed_on_kth_poll_takes_exactly_k_polls() {
    for k in [1usize, 3, 5, 20] {
        let polls = script_confirmed_at(k, CommitmentLevel::Confirmed);
        let (outcome, used) = confirm_signature(&polls);
        assert_eq!(outcome, ConfirmOutcome::Confirmed);
        assert_eq!(used, k);
    }
}

#[test]
fn finalized_counts_as_confirmed() {
    let polls = script_confirmed_at(4, CommitmentLevel::Finalized);
    let (outcome, used) = confirm_signature(&polls);
    assert_eq!(outcome, ConfirmOutcome::Confirmed);
    assert_eq!(used, 4);
}

#[test]
fn processed_alone_never_confirms() {
    let polls = vec![PollStatus::Commitment(CommitmentLevel::Processed); CONFIRM_RETRIES];
    let (outcome, used) = confirm_signature(&polls);
    assert_eq!(outcome, ConfirmOutcome::TimedOut);
    assert_eq!(used, CONFIRM_RETRIES);
}

#[test]
fn no_record_times_out_after_full_budget() {
    let polls = vec![PollStatus::NoRecord; CONFIRM_RETRIES];
    let (outcome, used) = confirm_signature(&polls);
    assert_eq!(outcome, ConfirmOutcome::TimedOut);
    assert_eq!(used, CONFIRM_RETRIES);
}

#[test]
fn query_errors_consume_budget_without_ending_the_wait() {
    let mut polls = vec![PollStatus::QueryError; 6];
    polls.push(PollStatus::Commitment(CommitmentLevel::Confirmed));
    let (outcome, used) = confirm_signature(&polls);
    assert_eq!(outcome, ConfirmOutcome::Confirmed);
    assert_eq!(used, 7);
}

#[test]
fn short_script_reads_as_no_record_and_times_out() {
    let polls = vec![PollStatus::Commitment(CommitmentLevel::Processed); 3];
    let (outcome, used) = confirm_signature(&polls);
    assert_eq!(outcome, ConfirmOutcome::TimedOut);
    assert_eq!(used, CONFIRM_RETRIES);
}

#[test]
fn confirmation_past_the_budget_is_missed() {
    let mut polls = vec![PollStatus::NoRecord; CONFIRM_RETRIES];
    polls.push(PollStatus::Commitment(CommitmentLevel::Finalized));
    let (outcome, used) = confirm_signature(&polls);
    assert_eq!(outcome, ConfirmOutcome::TimedOut);
    assert_eq!(used, CONFIRM_RETRIES);
}

#[test]
fn stepwise_poller_counts_and_stops() {
    let mut poller = ConfirmationPoller::new();
    assert_eq!(poller.polls_made(), 0);
    for i in 1..CONFIRM_RETRIES {
        let step = poller.on_status(&PollStatus::NoRecord);
        assert_eq!(poller.polls_made(), i);
        assert!(step.is_none());
    }
    let last = poller.on_status(&PollStatus::NoRecord);
    assert_eq!(last, Some(ConfirmOutcome::TimedOut));
    assert_eq!(poller.polls_made(), CONFIRM_RETRIES);
}

#[test]
fn stepwise_poller_confirms_immediately() {
    let mut poller = ConfirmationPoller::new();
    let step = poller.on_status(&PollStatus::Commitment(CommitmentLevel::Confirmed));
    assert_eq!(step, Some(ConfirmOutcome::Confirmed));
    assert_eq!(poller.polls_made(), 1);
}
