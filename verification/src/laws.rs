use vstd::prelude::*;

use crate::commands::{spec_poll_decision, spec_withdraw_result};
use crate::decimal::Decimal;
use crate::error::GovError;
use crate::math::ratio_floor;
use crate::store::{sum_shares, vkey, Governance};
use crate::types::{PollStatus, RejectReason};

verus! {

/// Share conservation: in every well-formed state the holders' shares sum
/// exactly to the global `total_share` counter. Every operation of the
/// engine requires and re-establishes well-formedness, so the equality
/// holds after any sequence of deposits and withdrawals.
pub proof fn lemma_share_conservation(gov: Governance)
    requires
        gov.wf(),
    ensures
        sum_shares(gov.bank@) == gov.state.total_share,
{
}

/// No over-withdraw: when a withdrawal goes through, the burned share
/// never dips into the share equivalent of the holder's largest
/// still-active vote weight; what remains on the account covers it.
pub proof fn lemma_no_over_withdraw(
    total_share: u128,
    total_deposit: u128,
    balance: u128,
    user_share: u128,
    locked_balance: u128,
    amount: Option<u128>,
)
    ensures
        spec_withdraw_result(
            total_share,
            total_deposit,
            balance,
            user_share,
            locked_balance,
            amount,
        ) matches Ok(ws_wa) ==> ws_wa.0 <= user_share && user_share - ws_wa.0 >= ratio_floor(
            locked_balance,
            total_share,
            (balance - total_deposit) as u128,
        ),
{
}

/// Single vote: in every well-formed state, no two stored vote records
/// share a (poll, voter) key, so at most one record ever exists per pair.
/// `cast_vote` refuses a second vote instead of updating the first.
pub proof fn lemma_single_vote(gov: Governance, i: int, j: int)
    requires
        gov.wf(),
        0 <= i < gov.poll_voters@.len(),
        0 <= j < gov.poll_voters@.len(),
        i != j,
    ensures
        vkey(gov.poll_voters@[i]) != vkey(gov.poll_voters@[j]),
{
    if i < j {
        crate::store::lemma_vkey_lt_ne(vkey(gov.poll_voters@[i]), vkey(gov.poll_voters@[j]));
    } else {
        crate::store::lemma_vkey_lt_ne(vkey(gov.poll_voters@[j]), vkey(gov.poll_voters@[i]));
    }
}

/// Deterministic tally: the resolution of a poll is a function of its
/// tally, the quorum denominator and the configured fractions alone. Two
/// resolutions that see the same numbers reach the same status and
/// reason. `end_poll` promises its outcome equals this function.
pub proof fn lemma_tally_deterministic(
    tallied: u128,
    yes: u128,
    staked_weight: u128,
    quorum: Decimal,
    threshold: Decimal,
    d1: (PollStatus, Option<RejectReason>),
    d2: (PollStatus, Option<RejectReason>),
)
    requires
        d1 == spec_poll_decision(tallied, yes, staked_weight, quorum, threshold),
        d2 == spec_poll_decision(tallied, yes, staked_weight, quorum, threshold),
    ensures
        d1 == d2,
{
}

/// Snapshot guard, first half: while a poll is in progress and inside the
/// snapshot window, a snapshot attempt on a poll whose staked amount is
/// already recorded fails as already occurred — so the call after a
/// successful one always does.
pub proof fn lemma_snapshot_once(gov: Governance, now: u64, poll_id: u64, token_balance: u128)
    requires
        gov.polls_view().contains_key(poll_id),
        gov.polls_view()[poll_id].status == PollStatus::InProgress,
        (if gov.polls_view()[poll_id].end_time > now {
            gov.polls_view()[poll_id].end_time - now
        } else {
            0
        }) <= gov.config.snapshot_period,
        gov.polls_view()[poll_id].staked_amount is Some,
    ensures
        crate::commands::spec_snapshot_result(gov, now, poll_id, token_balance) == Err::<
            u128,
            GovError,
        >(GovError::SnapshotAlreadyOccurred),
{
}

/// Snapshot guard, second half: outside the window — more than
/// `snapshot_period` before the poll's end — a snapshot attempt on an
/// in-progress poll always fails with the window error.
pub proof fn lemma_snapshot_window(gov: Governance, now: u64, poll_id: u64, token_balance: u128)
    requires
        gov.polls_view().contains_key(poll_id),
        gov.polls_view()[poll_id].status == PollStatus::InProgress,
        (if gov.polls_view()[poll_id].end_time > now {
            gov.polls_view()[poll_id].end_time - now
        } else {
            0
        }) > gov.config.snapshot_period,
    ensures
        crate::commands::spec_snapshot_result(gov, now, poll_id, token_balance) == Err::<
            u128,
            GovError,
        >(GovError::SnapshotWindowNotOpen),
{
}

/// Batch ordering: whatever order a poll's batch items were attached in,
/// the dispatched batch is non-decreasing in its position key; ties keep
/// their attachment order by construction of the stable sort. The batch
/// builder promises its output equals that sort.
pub proof fn lemma_batch_ordering(s: Seq<crate::types::OutMsg>)
    ensures
        crate::batch::sorted_by_order(crate::batch::stable_sort_by_order(s)),
        crate::batch::stable_sort_by_order(s).len() == s.len(),
{
    crate::batch::lemma_stable_sort_sorted(s);
}

} // verus!
