use vstd::prelude::*;

use crate::decimal::{Decimal, DECIMAL_FRACTIONAL};
use crate::error::GovError;
use crate::math::{checked_mul_ratio, ratio_floor};
use crate::store::{
    abytes, bank_map, lemma_bank_map_attained, lemma_bank_map_share_bound, load_bank,
    may_load_bank, may_load_poll, polls_map, polls_sorted, remove_poll_voter, skey, store_bank,
    store_poll, store_poll_indexer, vkey, vkey_lt, voters_map, voters_sorted, Governance,
};
use crate::types::{Config, ExecuteData, MigrateData, OutMsg, Poll, PollExecuteMsg, PollMigrateMsg, PollStatus, RejectReason, State, TokenManager, VoteOption, VoterInfo};
use crate::validate::{validate_quorum, validate_threshold};

verus! {

/// Sets up a fresh engine: validated fractions, an unregistered pooled
/// token, zeroed counters and empty tables.
pub fn instantiate(
    sender: String,
    quorum: Decimal,
    threshold: Decimal,
    voting_period: u64,
    timelock_period: u64,
    proposal_deposit: u128,
    snapshot_period: u64,
) -> (r: Result<Governance, GovError>)
    ensures
        quorum.atomics > DECIMAL_FRACTIONAL ==> r == Err::<Governance, GovError>(
            GovError::InvalidQuorum,
        ),
        quorum.atomics <= DECIMAL_FRACTIONAL && threshold.atomics > DECIMAL_FRACTIONAL ==> r
            == Err::<Governance, GovError>(GovError::InvalidThreshold),
        r is Ok <==> quorum.atomics <= DECIMAL_FRACTIONAL && threshold.atomics
            <= DECIMAL_FRACTIONAL,
        r matches Ok(gov) ==> quorum.atomics <= DECIMAL_FRACTIONAL && threshold.atomics
            <= DECIMAL_FRACTIONAL && gov.wf() && gov.index_consistent() && gov.config.owner
            == sender && gov.config.psi_token@ == Seq::<char>::empty() && gov.config.quorum
            == quorum && gov.config.threshold == threshold && gov.config.voting_period
            == voting_period && gov.config.timelock_period == timelock_period
            && gov.config.proposal_deposit == proposal_deposit && gov.config.snapshot_period
            == snapshot_period && gov.state == (State {
            poll_count: 0,
            total_share: 0,
            total_deposit: 0,
        }) && gov.polls@.len() == 0 && gov.poll_indexer@.len() == 0 && gov.bank@.len() == 0
            && gov.poll_voters@.len() == 0 && gov.tmp_poll_id is None && gov.utility is None,
{
    let check_q = validate_quorum(quorum);
    if let Err(e) = check_q {
        return Err(e);
    }
    let check_t = validate_threshold(threshold);
    if let Err(e) = check_t {
        return Err(e);
    }
    let gov = Governance {
        config: Config {
            owner: sender,
            psi_token: String::new(),
            quorum,
            threshold,
            voting_period,
            timelock_period,
            proposal_deposit,
            snapshot_period,
        },
        state: State { poll_count: 0, total_share: 0, total_deposit: 0 },
        polls: Vec::new(),
        poll_indexer: Vec::new(),
        bank: Vec::new(),
        poll_voters: Vec::new(),
        tmp_poll_id: None,
        utility: None,
        utility_locks: Vec::new(),
    };
    Ok(gov)
}

/// Registers the pooled token once; a second registration is refused.
pub fn register_token(gov: &mut Governance, psi_token: String) -> (r: Result<(), GovError>)
    requires
        old(gov).wf(),
    ensures
        final(gov).wf(),
        skey(old(gov).config.psi_token@).len() != 0 ==> r == Err::<(), GovError>(GovError::Unauthorized)
            && *final(gov) == *old(gov),
        skey(old(gov).config.psi_token@).len() == 0 ==> r == Ok::<(), GovError>(()) && final(gov).config
            == (Config { psi_token: psi_token, ..old(gov).config }) && final(gov).state == old(gov).state && final(gov).polls == old(gov).polls && final(gov).poll_indexer == old(gov).poll_indexer && final(gov).bank == old(gov).bank && final(gov).poll_voters == old(gov).poll_voters && final(gov).tmp_poll_id == old(gov).tmp_poll_id,
{
    if gov.config.psi_token.as_str().as_bytes().len() != 0 {
        return Err(GovError::Unauthorized);
    }
    gov.config.psi_token = psi_token;
    Ok(())
}

/// Applies an owner-gated configuration change: each given field replaces
/// the stored one, the rest stay.
pub fn update_config(
    gov: &mut Governance,
    sender: &String,
    owner: Option<String>,
    quorum: Option<Decimal>,
    threshold: Option<Decimal>,
    voting_period: Option<u64>,
    timelock_period: Option<u64>,
    proposal_deposit: Option<u128>,
    snapshot_period: Option<u64>,
) -> (r: Result<(), GovError>)
    requires
        old(gov).wf(),
    ensures
        final(gov).wf(),
        skey(sender@) != skey(old(gov).config.owner@) ==> r == Err::<(), GovError>(
            GovError::Unauthorized,
        ) && *final(gov) == *old(gov),
        skey(sender@) == skey(old(gov).config.owner@) ==> r == Ok::<(), GovError>(()) && final(gov).config.owner == (if owner is Some {
            owner->0
        } else {
            old(gov).config.owner
        }) && final(gov).config.quorum == (if quorum is Some {
            quorum->0
        } else {
            old(gov).config.quorum
        }) && final(gov).config.threshold == (if threshold is Some {
            threshold->0
        } else {
            old(gov).config.threshold
        }) && final(gov).config.voting_period == (if voting_period is Some {
            voting_period->0
        } else {
            old(gov).config.voting_period
        }) && final(gov).config.timelock_period == (if timelock_period is Some {
            timelock_period->0
        } else {
            old(gov).config.timelock_period
        }) && final(gov).config.proposal_deposit == (if proposal_deposit is Some {
            proposal_deposit->0
        } else {
            old(gov).config.proposal_deposit
        }) && final(gov).config.snapshot_period == (if snapshot_period is Some {
            snapshot_period->0
        } else {
            old(gov).config.snapshot_period
        }) && final(gov).config.psi_token == old(gov).config.psi_token && final(gov).state == old(gov).state && final(gov).polls == old(gov).polls && final(gov).poll_indexer == old(gov).poll_indexer && final(gov).bank == old(gov).bank && final(gov).poll_voters == old(gov).poll_voters && final(gov).tmp_poll_id == old(gov).tmp_poll_id,
{
    if !crate::keys::str_bytes_eq(sender.as_str(), gov.config.owner.as_str()) {
        return Err(GovError::Unauthorized);
    }
    if let Some(owner) = owner {
        gov.config.owner = owner;
    }
    if let Some(quorum) = quorum {
        gov.config.quorum = quorum;
    }
    if let Some(threshold) = threshold {
        gov.config.threshold = threshold;
    }
    if let Some(voting_period) = voting_period {
        gov.config.voting_period = voting_period;
    }
    if let Some(timelock_period) = timelock_period {
        gov.config.timelock_period = timelock_period;
    }
    if let Some(proposal_deposit) = proposal_deposit {
        gov.config.proposal_deposit = proposal_deposit;
    }
    if let Some(snapshot_period) = snapshot_period {
        gov.config.snapshot_period = snapshot_period;
    }
    Ok(())
}

/// The share mint that a deposit yields, or the error that rejects it. The
/// pool balance is taken after the deposited tokens arrived, so the
/// exchange rate is computed against `balance - total_deposit - amount`;
/// an empty pool or an empty share supply mints one share per token.
pub open spec fn spec_stake_result(
    total_share: u128,
    total_deposit: u128,
    balance: u128,
    amount: u128,
) -> Result<u128, GovError> {
    if amount == 0 {
        Err(GovError::InsufficientFundsSent)
    } else if total_deposit + amount > u128::MAX {
        Err(GovError::Overflow)
    } else if (balance as int) < total_deposit + amount {
        Err(GovError::Overflow)
    } else {
        let total_balance = (balance - total_deposit - amount) as u128;
        let sh = if total_balance == 0 || total_share == 0 {
            amount as int
        } else {
            ratio_floor(amount, total_share, total_balance)
        };
        if sh > u128::MAX {
            Err(GovError::Overflow)
        } else if total_share + sh > u128::MAX {
            Err(GovError::Overflow)
        } else {
            Ok(sh as u128)
        }
    }
}

/// Deposits `amount` of the pooled token for `sender` and mints shares at
/// the current exchange rate. `token_balance` is the pool's balance as
/// read after the deposit arrived.
pub fn stake_voting_tokens(
    gov: &mut Governance,
    sender: &String,
    amount: u128,
    token_balance: u128,
) -> (r: Result<u128, GovError>)
    requires
        old(gov).wf(),
    ensures
        final(gov).wf(),
        r == spec_stake_result(
            old(gov).state.total_share,
            old(gov).state.total_deposit,
            token_balance,
            amount,
        ),
        r is Err ==> *final(gov) == *old(gov),
        r matches Ok(share) ==> {
            let k = skey(sender@);
            let m = old(gov).bank_view();
            &&& final(gov).state.total_share == old(gov).state.total_share + share
            &&& final(gov).state.total_deposit == old(gov).state.total_deposit
            &&& final(gov).state.poll_count == old(gov).state.poll_count
            &&& final(gov).bank_view().contains_key(k)
            &&& final(gov).bank_view()[k].share == (if m.contains_key(k) {
                m[k].share as int
            } else {
                0
            }) + share
            &&& final(gov).bank_view()[k].locked_balance@ == (if m.contains_key(k) {
                m[k].locked_balance@
            } else {
                Seq::<(u64, crate::types::VoterInfo)>::empty()
            })
            &&& final(gov).bank_view().remove(k) == m.remove(k)
            &&& final(gov).config == old(gov).config
            &&& final(gov).polls == old(gov).polls
            &&& final(gov).poll_indexer == old(gov).poll_indexer
            &&& final(gov).poll_voters == old(gov).poll_voters
            &&& final(gov).tmp_poll_id == old(gov).tmp_poll_id
        },
{
    if amount == 0 {
        return Err(GovError::InsufficientFundsSent);
    }
    let dep_plus = match gov.state.total_deposit.checked_add(amount) {
        Some(v) => v,
        None => {
            return Err(GovError::Overflow);
        },
    };
    if token_balance < dep_plus {
        return Err(GovError::Overflow);
    }
    let total_balance = token_balance - dep_plus;
    let share: u128 = if total_balance == 0 || gov.state.total_share == 0 {
        amount
    } else {
        match checked_mul_ratio(amount, gov.state.total_share, total_balance) {
            Ok(v) => v,
            Err(_) => {
                return Err(GovError::Overflow);
            },
        }
    };
    let new_total = match gov.state.total_share.checked_add(share) {
        Some(v) => v,
        None => {
            return Err(GovError::Overflow);
        },
    };
    let tm = load_bank(&gov.bank, sender.as_str());
    proof {
        if bank_map(gov.bank@).contains_key(skey(sender@)) {
            lemma_bank_map_share_bound(gov.bank@, skey(sender@));
        }
    }
    let new_tm = TokenManager { share: tm.share + share, locked_balance: tm.locked_balance };
    store_bank(&mut gov.bank, sender, new_tm);
    gov.state.total_share = new_total;
    proof {
        if bank_map(old(gov).bank@).contains_key(skey(sender@)) {
            lemma_bank_map_attained(old(gov).bank@, skey(sender@));
        }
    }
    Ok(share)
}

/// The lock entries that still back an `InProgress` poll.
pub open spec fn retained_locks(s: Seq<(u64, VoterInfo)>, pm: Map<u64, Poll>) -> Seq<
    (u64, VoterInfo),
>
    decreases s.len(),
{
    if s.len() == 0 {
        Seq::empty()
    } else {
        let rest = retained_locks(s.drop_last(), pm);
        if pm.contains_key(s.last().0) && pm[s.last().0].status == PollStatus::InProgress {
            rest.push(s.last())
        } else {
            rest
        }
    }
}

/// The largest balance among a holder's lock entries. This is a maximum,
/// not a sum: one staked balance may back several concurrent votes.
pub open spec fn max_locked(s: Seq<(u64, VoterInfo)>) -> u128
    decreases s.len(),
{
    if s.len() == 0 {
        0u128
    } else if s.last().1.balance > max_locked(s.drop_last()) {
        s.last().1.balance
    } else {
        max_locked(s.drop_last())
    }
}

/// Whether the lock list names this poll and the poll is no longer
/// `InProgress` (so its vote records are due for pruning).
pub open spec fn lock_dropped(s: Seq<(u64, VoterInfo)>, pm: Map<u64, Poll>, pid: u64) -> bool {
    (exists|j: int| 0 <= j < s.len() && s[j].0 == pid) && pm.contains_key(pid) && pm[pid].status
        != PollStatus::InProgress
}

proof fn lemma_retained_locks_subset(s: Seq<(u64, VoterInfo)>, pm: Map<u64, Poll>)
    ensures
        forall|j: int|
            0 <= j < retained_locks(s, pm).len() ==> s.contains(#[trigger] retained_locks(s, pm)[j]),
    decreases s.len(),
{
    if s.len() > 0 {
        lemma_retained_locks_subset(s.drop_last(), pm);
        assert forall|j: int|
            0 <= j < retained_locks(s, pm).len() implies s.contains(
            #[trigger] retained_locks(s, pm)[j],
        ) by {
            let r = retained_locks(s, pm);
            let rest = retained_locks(s.drop_last(), pm);
            if j < rest.len() {
                assert(s.drop_last().contains(rest[j]));
                let w = choose|w: int| 0 <= w < s.drop_last().len() && s.drop_last()[w] == rest[j];
                assert(s[w] == rest[j]);
            } else {
                assert(r[j] == s.last());
                assert(s[s.len() - 1] == s.last());
            }
        }
    }
}

/// Drops lock entries whose poll is no longer `InProgress` and returns the
/// largest balance still locked. Only the given account copy is touched;
/// the caller prunes the matching vote records when it commits.
pub fn compute_locked_balance(polls: &Vec<Poll>, tm: &mut TokenManager) -> (locked: u128)
    requires
        polls_sorted(polls@),
        forall|j: int|
            0 <= j < old(tm).locked_balance@.len() ==> polls_map(polls@).contains_key(
                #[trigger] old(tm).locked_balance@[j].0,
            ),
    ensures
        final(tm).share == old(tm).share,
        final(tm).locked_balance@ == retained_locks(old(tm).locked_balance@, polls_map(polls@)),
        locked == max_locked(final(tm).locked_balance@),
{
    let ghost pm = polls_map(polls@);
    let ghost s = tm.locked_balance@;
    let mut retained: Vec<(u64, VoterInfo)> = Vec::new();
    let mut maxv: u128 = 0;
    let mut i: usize = 0;
    proof {
        assert(s.take(0) =~= Seq::<(u64, VoterInfo)>::empty());
    }
    while i < tm.locked_balance.len()
        invariant
            polls_sorted(polls@),
            pm == polls_map(polls@),
            s == tm.locked_balance@,
            forall|j: int| 0 <= j < s.len() ==> pm.contains_key(#[trigger] s[j].0),
            i <= s.len(),
            retained@ == retained_locks(s.take(i as int), pm),
            maxv == max_locked(retained@),
        decreases s.len() - i,
    {
        let pid = tm.locked_balance[i].0;
        let vi = tm.locked_balance[i].1;
        let keep: bool = match may_load_poll(polls, pid) {
            Some(p) => p.status == PollStatus::InProgress,
            None => {
                proof {
                    assert(pm.contains_key(s[i as int].0));
                }
                false
            },
        };
        proof {
            assert(s.take(i + 1 as int).drop_last() =~= s.take(i as int));
            assert(s.take(i + 1 as int).last() == s[i as int]);
        }
        if keep {
            let ghost r0 = retained@;
            retained.push((pid, vi));
            if vi.balance > maxv {
                maxv = vi.balance;
            }
            proof {
                assert(retained@.drop_last() =~= r0);
            }
        }
        i = i + 1;
    }
    proof {
        assert(s.take(s.len() as int) =~= s);
    }
    tm.locked_balance = retained;
    maxv
}

/// Whether a vote record survives pruning for the given voter: it goes
/// only when it is that voter's and its poll has left `InProgress`.
pub open spec fn keep_voter(
    e: (u64, String, VoterInfo),
    pm: Map<u64, Poll>,
    locked: Seq<(u64, VoterInfo)>,
    vb: Seq<u8>,
) -> bool {
    !(abytes(e.1) == vb && lock_dropped(locked, pm, e.0))
}

/// The vote records left after pruning this voter's dropped locks.
pub open spec fn pruned_voters(
    s: Seq<(u64, String, VoterInfo)>,
    pm: Map<u64, Poll>,
    locked: Seq<(u64, VoterInfo)>,
    vb: Seq<u8>,
) -> Seq<(u64, String, VoterInfo)>
    decreases s.len(),
{
    if s.len() == 0 {
        Seq::empty()
    } else {
        let rest = pruned_voters(s.drop_last(), pm, locked, vb);
        if keep_voter(s.last(), pm, locked, vb) {
            rest.push(s.last())
        } else {
            rest
        }
    }
}

proof fn lemma_pruned_voters_props(
    s: Seq<(u64, String, VoterInfo)>,
    pm: Map<u64, Poll>,
    locked: Seq<(u64, VoterInfo)>,
    vb: Seq<u8>,
)
    requires
        voters_sorted(s),
    ensures
        voters_sorted(pruned_voters(s, pm, locked, vb)),
        forall|j: int|
            0 <= j < pruned_voters(s, pm, locked, vb).len() ==> s.contains(
                #[trigger] pruned_voters(s, pm, locked, vb)[j],
            ),
        forall|k: (u64, Seq<u8>)|
            voters_map(pruned_voters(s, pm, locked, vb)).contains_key(k) <==> (voters_map(
                s,
            ).contains_key(k) && !(k.1 == vb && lock_dropped(locked, pm, k.0))),
        forall|k: (u64, Seq<u8>)|
            voters_map(pruned_voters(s, pm, locked, vb)).contains_key(k)
                ==> voters_map(pruned_voters(s, pm, locked, vb))[k] == voters_map(s)[k],
    decreases s.len(),
{
    let p = pruned_voters(s, pm, locked, vb);
    if s.len() > 0 {
        let dl = s.drop_last();
        let rest = pruned_voters(dl, pm, locked, vb);
        lemma_pruned_voters_props(dl, pm, locked, vb);
        // every element of the pruned front comes from the front, so its key
        // is below the last key
        assert forall|j: int| 0 <= j < rest.len() implies vkey_lt(
            vkey(#[trigger] rest[j]),
            vkey(s.last()),
        ) by {
            assert(dl.contains(rest[j]));
            let w = choose|w: int| 0 <= w < dl.len() && dl[w] == rest[j];
            assert(vkey_lt(vkey(s[w]), vkey(s.last())));
        }
        assert forall|j: int| 0 <= j < rest.len() implies vkey(#[trigger] rest[j]) != vkey(
            s.last(),
        ) by {
            crate::store::lemma_vkey_lt_ne(vkey(rest[j]), vkey(s.last()));
        }
        assert forall|j: int| 0 <= j < dl.len() implies vkey(#[trigger] dl[j]) != vkey(
            s.last(),
        ) by {
            crate::store::lemma_vkey_lt_ne(vkey(s[j]), vkey(s.last()));
        }
        crate::store::lemma_voters_map_absent(rest, vkey(s.last()));
        crate::store::lemma_voters_map_absent(dl, vkey(s.last()));
        if keep_voter(s.last(), pm, locked, vb) {
            assert(p == rest.push(s.last()));
            assert(p.drop_last() =~= rest);
            assert forall|x: int, y: int| 0 <= x < y < p.len() implies vkey_lt(
                vkey(p[x]),
                vkey(p[y]),
            ) by {
                if y < rest.len() {
                    assert(p[x] == rest[x] && p[y] == rest[y]);
                } else {
                    assert(p[y] == s.last());
                    assert(p[x] == rest[x]);
                }
            }
            assert forall|j: int| 0 <= j < p.len() implies s.contains(#[trigger] p[j]) by {
                if j < rest.len() {
                    let w = choose|w: int| 0 <= w < dl.len() && dl[w] == rest[j];
                    assert(s[w] == p[j]);
                } else {
                    assert(s[s.len() - 1] == p[j]);
                }
            }
        } else {
            assert(p == rest);
            assert forall|j: int| 0 <= j < p.len() implies s.contains(#[trigger] p[j]) by {
                let w = choose|w: int| 0 <= w < dl.len() && dl[w] == p[j];
                assert(s[w] == p[j]);
            }
        }
    }
}

/// Decides whether this lock list names the poll and the poll has left
/// `InProgress`.
fn lock_is_dropped(polls: &Vec<Poll>, locked_old: &Vec<(u64, VoterInfo)>, pid: u64) -> (r: bool)
    requires
        polls_sorted(polls@),
        forall|j: int|
            0 <= j < locked_old@.len() ==> polls_map(polls@).contains_key(
                #[trigger] locked_old@[j].0,
            ),
    ensures
        r == lock_dropped(locked_old@, polls_map(polls@), pid),
{
    let ghost pm = polls_map(polls@);
    let mut found = false;
    let mut i: usize = 0;
    while i < locked_old.len()
        invariant
            i <= locked_old@.len(),
            found == exists|j: int| 0 <= j < i && locked_old@[j].0 == pid,
        decreases locked_old@.len() - i,
    {
        if locked_old[i].0 == pid {
            found = true;
        }
        i = i + 1;
    }
    if !found {
        return false;
    }
    match may_load_poll(polls, pid) {
        Some(p) => {
            if p.status == PollStatus::InProgress {
                false
            } else {
                true
            }
        },
        None => {
            proof {
                let w = choose|j: int| 0 <= j < locked_old@.len() && locked_old@[j].0 == pid;
                assert(pm.contains_key(locked_old@[w].0));
            }
            false
        },
    }
}

/// Deletes this voter's records for every lock entry whose poll is no
/// longer `InProgress`.
pub fn prune_poll_voters(
    voters: &mut Vec<(u64, String, VoterInfo)>,
    polls: &Vec<Poll>,
    locked_old: &Vec<(u64, VoterInfo)>,
    voter: &String,
)
    requires
        voters_sorted(old(voters)@),
        polls_sorted(polls@),
        forall|j: int|
            0 <= j < locked_old@.len() ==> polls_map(polls@).contains_key(
                #[trigger] locked_old@[j].0,
            ),
    ensures
        voters_sorted(final(voters)@),
        forall|k: (u64, Seq<u8>)|
            voters_map(final(voters)@).contains_key(k) <==> (voters_map(old(voters)@).contains_key(
                k,
            ) && !(k.1 == skey(voter@) && lock_dropped(locked_old@, polls_map(polls@), k.0))),
        forall|k: (u64, Seq<u8>)|
            voters_map(final(voters)@).contains_key(k) ==> voters_map(final(voters)@)[k]
                == voters_map(old(voters)@)[k],
{
    let ghost pm = polls_map(polls@);
    let ghost s = voters@;
    let ghost vb = skey(voter@);
    let mut built: Vec<(u64, String, VoterInfo)> = Vec::new();
    let mut i: usize = 0;
    proof {
        assert(s.take(0) =~= Seq::<(u64, String, VoterInfo)>::empty());
    }
    while i < voters.len()
        invariant
            voters@ == s,
            polls_sorted(polls@),
            pm == polls_map(polls@),
            vb == skey(voter@),
            forall|j: int|
                0 <= j < locked_old@.len() ==> pm.contains_key(#[trigger] locked_old@[j].0),
            i <= s.len(),
            built@ == pruned_voters(s.take(i as int), pm, locked_old@, vb),
        decreases s.len() - i,
    {
        let e_pid = voters[i].0;
        let e_addr_matches = crate::keys::str_bytes_eq(voters[i].1.as_str(), voter.as_str());
        let dropped = lock_is_dropped(polls, locked_old, e_pid);
        proof {
            assert(s.take(i + 1 as int).drop_last() =~= s.take(i as int));
            assert(s.take(i + 1 as int).last() == s[i as int]);
        }
        if !(e_addr_matches && dropped) {
            let pid = voters[i].0;
            let addr = voters[i].1.clone();
            let info = voters[i].2;
            let ghost b0 = built@;
            built.push((pid, addr, info));
            proof {
                assert(built@.drop_last() =~= b0);
                assert(built@.last() == s[i as int]);
                assert(keep_voter(s[i as int], pm, locked_old@, vb));
            }
        } else {
            proof {
                assert(!keep_voter(s[i as int], pm, locked_old@, vb));
            }
        }
        i = i + 1;
    }
    proof {
        assert(s.take(s.len() as int) =~= s);
        lemma_pruned_voters_props(s, pm, locked_old@, vb);
    }
    *voters = built;
}

/// What a withdrawal pays out: the share burn and the token amount, or the
/// rejection. A zero request is refused outright; a positive one burns at
/// least one share. `locked_balance` is the holder's largest still-active
/// vote weight; the share equivalent of that weight can never be
/// withdrawn. Conversions floor, so the ledger always rounds against the
/// holder.
pub open spec fn spec_withdraw_result(
    total_share: u128,
    total_deposit: u128,
    balance: u128,
    user_share: u128,
    locked_balance: u128,
    amount: Option<u128>,
) -> Result<(u128, u128), GovError> {
    if balance < total_deposit {
        Err(GovError::Overflow)
    } else {
        let total_balance = (balance - total_deposit) as u128;
        if total_balance == 0 {
            Err(GovError::DivideByZero)
        } else if ratio_floor(locked_balance, total_share, total_balance) > u128::MAX {
            Err(GovError::Overflow)
        } else {
            let locked_share = ratio_floor(locked_balance, total_share, total_balance);
            match amount {
                Some(a) => {
                    if a == 0 {
                        Err(GovError::ZeroWithdrawal)
                    } else if ratio_floor(a, total_share, total_balance) > u128::MAX {
                        Err(GovError::Overflow)
                    } else {
                        let ws = if ratio_floor(a, total_share, total_balance) > 1 {
                            ratio_floor(a, total_share, total_balance)
                        } else {
                            1
                        };
                        if locked_share + ws > user_share {
                            Err(GovError::WithdrawTooMany)
                        } else {
                            Ok((ws as u128, a))
                        }
                    }
                },
                None => {
                    if locked_share > user_share {
                        Err(GovError::WithdrawTooMany)
                    } else if total_share == 0 {
                        Err(GovError::DivideByZero)
                    } else {
                        let ws = (user_share - locked_share) as u128;
                        Ok((ws, ratio_floor(ws, (balance - total_deposit) as u128, total_share) as u128))
                    }
                },
            }
        }
    }
}

/// Burns shares for `sender` and schedules the equivalent token transfer.
/// With no amount given, everything above the locked share leaves; with an
/// amount, at least one share is burned. The derived token amount can
/// differ from the request by flooring, always in the protocol's favor.
pub fn withdraw_voting_tokens(
    gov: &mut Governance,
    sender: &String,
    amount: Option<u128>,
    token_balance: u128,
) -> (r: Result<OutMsg, GovError>)
    requires
        old(gov).wf(),
    ensures
        final(gov).wf(),
        r is Err ==> *final(gov) == *old(gov),
        !old(gov).bank_view().contains_key(skey(sender@)) ==> r == Err::<OutMsg, GovError>(
            GovError::NothingStaked,
        ),
        old(gov).bank_view().contains_key(skey(sender@)) ==> {
            let k = skey(sender@);
            let m = old(gov).bank_view();
            let pm = polls_map(old(gov).polls@);
            let pruned = retained_locks(m[k].locked_balance@, pm);
            let res = spec_withdraw_result(
                old(gov).state.total_share,
                old(gov).state.total_deposit,
                token_balance,
                m[k].share,
                max_locked(pruned),
                amount,
            );
            &&& (r is Err <==> res is Err)
            &&& (r matches Err(e) ==> res == Err::<(u128, u128), GovError>(e))
            &&& (r matches Ok(msg) ==> {
                let ws = res->Ok_0.0;
                let wa = res->Ok_0.1;
                &&& msg == (OutMsg::Transfer {
                    token: old(gov).config.psi_token,
                    recipient: *sender,
                    amount: wa,
                })
                &&& final(gov).state.total_share == old(gov).state.total_share - ws
                &&& final(gov).state.total_deposit == old(gov).state.total_deposit
                &&& final(gov).state.poll_count == old(gov).state.poll_count
                &&& final(gov).bank_view().contains_key(k)
                &&& final(gov).bank_view()[k].share == m[k].share - ws
                &&& final(gov).bank_view()[k].locked_balance@ == pruned
                &&& final(gov).bank_view().remove(k) == m.remove(k)
                &&& (forall|vk: (u64, Seq<u8>)|
                    final(gov).voters_view().contains_key(vk) <==> (old(gov).voters_view().contains_key(vk) && !(vk.1 == k && lock_dropped(
                        m[k].locked_balance@,
                        pm,
                        vk.0,
                    ))))
                &&& (forall|vk: (u64, Seq<u8>)|
                    final(gov).voters_view().contains_key(vk) ==> final(gov).voters_view()[vk]
                        == old(gov).voters_view()[vk])
                &&& final(gov).config == old(gov).config
                &&& final(gov).polls == old(gov).polls
                &&& final(gov).poll_indexer == old(gov).poll_indexer
                &&& final(gov).tmp_poll_id == old(gov).tmp_poll_id
            })
        },
{
    let ghost k = skey(sender@);
    let mut tm = match may_load_bank(&gov.bank, sender.as_str()) {
        Some(tm) => tm,
        None => {
            return Err(GovError::NothingStaked);
        },
    };
    proof {
        lemma_bank_map_attained(gov.bank@, k);
        let i = choose|i: int|
            0 <= i < gov.bank@.len() && abytes(#[trigger] gov.bank@[i].0) == k && gov.bank@[i].1
                == bank_map(gov.bank@)[k];
        assert(forall|j: int|
            0 <= j < tm.locked_balance@.len() ==> polls_map(gov.polls@).contains_key(
                #[trigger] tm.locked_balance@[j].0,
            ));
        lemma_bank_map_share_bound(gov.bank@, k);
    }
    let ghost locked_old = tm.locked_balance@;
    let locked_copy = crate::store::copy_locked(&tm.locked_balance);
    let locked_balance = compute_locked_balance(&gov.polls, &mut tm);
    if token_balance < gov.state.total_deposit {
        return Err(GovError::Overflow);
    }
    let total_balance = token_balance - gov.state.total_deposit;
    if total_balance == 0 {
        return Err(GovError::DivideByZero);
    }
    let locked_share = match checked_mul_ratio(locked_balance, gov.state.total_share, total_balance) {
        Ok(v) => v,
        Err(_) => {
            return Err(GovError::Overflow);
        },
    };
    let user_share = tm.share;
    let (withdraw_share, withdraw_amount): (u128, u128) = match amount {
        Some(a) => {
            if a == 0 {
                return Err(GovError::ZeroWithdrawal);
            }
            let ratio = match checked_mul_ratio(a, gov.state.total_share, total_balance) {
                Ok(v) => v,
                Err(_) => {
                    return Err(GovError::Overflow);
                },
            };
            let ws = if ratio > 1 {
                ratio
            } else {
                1
            };
            let over = match locked_share.checked_add(ws) {
                Some(v) => v > user_share,
                None => true,
            };
            if over {
                return Err(GovError::WithdrawTooMany);
            }
            (ws, a)
        },
        None => {
            if locked_share > user_share {
                return Err(GovError::WithdrawTooMany);
            }
            if gov.state.total_share == 0 {
                return Err(GovError::DivideByZero);
            }
            let ws = user_share - locked_share;
            proof {
                vstd::arithmetic::mul::lemma_mul_inequality(
                    ws as int,
                    gov.state.total_share as int,
                    total_balance as int,
                );
                vstd::arithmetic::div_mod::lemma_div_is_ordered(
                    ws * total_balance,
                    gov.state.total_share * total_balance,
                    gov.state.total_share as int,
                );
                vstd::arithmetic::div_mod::lemma_div_multiples_vanish(
                    total_balance as int,
                    gov.state.total_share as int,
                );
            }
            let wa = match checked_mul_ratio(ws, total_balance, gov.state.total_share) {
                Ok(v) => v,
                Err(_) => {
                    return Err(GovError::DivideByZero);
                },
            };
            (ws, wa)
        },
    };
    proof {
        lemma_retained_locks_subset(locked_old, polls_map(gov.polls@));
        if bank_map(old(gov).bank@).contains_key(k) {
            lemma_bank_map_attained(old(gov).bank@, k);
        }
    }
    prune_poll_voters(&mut gov.poll_voters, &gov.polls, &locked_copy, sender);
    let new_tm = TokenManager { share: user_share - withdraw_share, locked_balance: tm.locked_balance };
    store_bank(&mut gov.bank, sender, new_tm);
    gov.state.total_share = gov.state.total_share - withdraw_share;
    let token = gov.config.psi_token.clone();
    let recipient = sender.clone();
    Ok(OutMsg::Transfer { token, recipient, amount: withdraw_amount })
}

/// Opens a new poll: validated fields, the next sequential id, a voting
/// window of `voting_period` from now, and the deposit locked until
/// resolution.
pub fn create_poll(
    gov: &mut Governance,
    now: u64,
    proposer: String,
    deposit_amount: u128,
    title: String,
    description: String,
    link: Option<String>,
    execute_msgs: Option<Vec<PollExecuteMsg>>,
    migrate_msgs: Option<Vec<PollMigrateMsg>>,
) -> (r: Result<u64, GovError>)
    requires
        old(gov).wf(),
    ensures
        final(gov).wf(),
        r is Err ==> *final(gov) == *old(gov),
        r matches Err(e) ==> e == (if !(crate::validate::MIN_TITLE_LENGTH <= skey(title@).len()
            <= crate::validate::MAX_TITLE_LENGTH) {
            GovError::InvalidTitle
        } else if !(crate::validate::MIN_DESC_LENGTH <= skey(description@).len()
            <= crate::validate::MAX_DESC_LENGTH) {
            GovError::InvalidDescription
        } else if !crate::validate::link_valid(link) {
            GovError::InvalidLink
        } else if deposit_amount < old(gov).config.proposal_deposit {
            GovError::InsufficientProposalDeposit(old(gov).config.proposal_deposit)
        } else {
            GovError::Overflow
        }),
        r is Ok <==> (crate::validate::MIN_TITLE_LENGTH <= skey(title@).len()
            <= crate::validate::MAX_TITLE_LENGTH) && (crate::validate::MIN_DESC_LENGTH <= skey(
            description@,
        ).len() <= crate::validate::MAX_DESC_LENGTH) && crate::validate::link_valid(link)
            && deposit_amount >= old(gov).config.proposal_deposit && old(gov).state.poll_count + 1
            <= u64::MAX && old(gov).state.total_deposit + deposit_amount <= u128::MAX && now + old(gov).config.voting_period <= u64::MAX,
        r matches Ok(poll_id) ==> {
            let p = final(gov).polls_view()[poll_id];
            &&& poll_id == old(gov).state.poll_count + 1
            &&& !old(gov).polls_view().contains_key(poll_id)
            &&& final(gov).polls_view().contains_key(poll_id)
            &&& final(gov).polls_view().remove(poll_id) == old(gov).polls_view().remove(poll_id)
            &&& p.id == poll_id
            &&& p.creator == proposer
            &&& p.status == PollStatus::InProgress
            &&& p.yes_votes == 0
            &&& p.no_votes == 0
            &&& p.end_time == now + old(gov).config.voting_period
            &&& p.title == title
            &&& p.description == description
            &&& p.link == link
            &&& p.deposit_amount == deposit_amount
            &&& p.total_balance_at_end_poll is None
            &&& p.staked_amount is None
            &&& (p.execute_data is Some <==> execute_msgs is Some)
            &&& (execute_msgs matches Some(ms) ==> {
                let ed = p.execute_data->0;
                &&& ed@.len() == ms@.len()
                &&& (forall|i: int|
                    0 <= i < ms@.len() ==> (#[trigger] ed@[i]).order == ms@[i].order && ed@[i].contract
                        == ms@[i].contract && ed@[i].msg@ == ms@[i].msg@)
            })
            &&& (p.migrate_data is Some <==> migrate_msgs is Some)
            &&& (migrate_msgs matches Some(ms) ==> {
                let md = p.migrate_data->0;
                &&& md@.len() == ms@.len()
                &&& (forall|i: int|
                    0 <= i < ms@.len() ==> (#[trigger] md@[i]).order == ms@[i].order && md@[i].contract
                        == ms@[i].contract && md@[i].new_code_id == ms@[i].new_code_id && md@[i].msg@
                        == ms@[i].msg@)
            })
            &&& final(gov).state.poll_count == poll_id
            &&& final(gov).state.total_deposit == old(gov).state.total_deposit + deposit_amount
            &&& final(gov).state.total_share == old(gov).state.total_share
            &&& final(gov).index_view() == old(gov).index_view().insert(
                (PollStatus::InProgress, poll_id),
            )
            &&& final(gov).bank == old(gov).bank
            &&& final(gov).poll_voters == old(gov).poll_voters
            &&& final(gov).config == old(gov).config
            &&& final(gov).tmp_poll_id == old(gov).tmp_poll_id
            &&& (old(gov).index_consistent() ==> final(gov).index_consistent())
        },
{
    if let Err(e) = crate::validate::validate_title(title.as_str()) {
        return Err(e);
    }
    if let Err(e) = crate::validate::validate_description(description.as_str()) {
        return Err(e);
    }
    if let Err(e) = crate::validate::validate_link(&link) {
        return Err(e);
    }
    if deposit_amount < gov.config.proposal_deposit {
        return Err(GovError::InsufficientProposalDeposit(gov.config.proposal_deposit));
    }
    let poll_id = match gov.state.poll_count.checked_add(1) {
        Some(v) => v,
        None => {
            return Err(GovError::Overflow);
        },
    };
    let new_total_deposit = match gov.state.total_deposit.checked_add(deposit_amount) {
        Some(v) => v,
        None => {
            return Err(GovError::Overflow);
        },
    };
    let end_time = match now.checked_add(gov.config.voting_period) {
        Some(v) => v,
        None => {
            return Err(GovError::Overflow);
        },
    };
    let execute_data: Option<Vec<ExecuteData>> = match &execute_msgs {
        Some(ms) => {
            let mut data: Vec<ExecuteData> = Vec::new();
            let mut i: usize = 0;
            while i < ms.len()
                invariant
                    i <= ms@.len(),
                    data@.len() == i,
                    forall|j: int|
                        0 <= j < i ==> (#[trigger] data@[j]).order == ms@[j].order
                            && data@[j].contract == ms@[j].contract && data@[j].msg@ == ms@[j].msg@,
                decreases ms@.len() - i,
            {
                data.push(
                    ExecuteData {
                        order: ms[i].order,
                        contract: ms[i].contract.clone(),
                        msg: crate::store::copy_bytes(&ms[i].msg),
                    },
                );
                i = i + 1;
            }
            Some(data)
        },
        None => None,
    };
    let migrate_data: Option<Vec<MigrateData>> = match &migrate_msgs {
        Some(ms) => {
            let mut data: Vec<MigrateData> = Vec::new();
            let mut i: usize = 0;
            while i < ms.len()
                invariant
                    i <= ms@.len(),
                    data@.len() == i,
                    forall|j: int|
                        0 <= j < i ==> (#[trigger] data@[j]).order == ms@[j].order
                            && data@[j].contract == ms@[j].contract && data@[j].new_code_id
                            == ms@[j].new_code_id && data@[j].msg@ == ms@[j].msg@,
                decreases ms@.len() - i,
            {
                data.push(
                    MigrateData {
                        order: ms[i].order,
                        contract: ms[i].contract.clone(),
                        new_code_id: ms[i].new_code_id,
                        msg: crate::store::copy_bytes(&ms[i].msg),
                    },
                );
                i = i + 1;
            }
            Some(data)
        },
        None => None,
    };
    let new_poll = Poll {
        id: poll_id,
        creator: proposer,
        status: PollStatus::InProgress,
        yes_votes: 0,
        no_votes: 0,
        end_time,
        title,
        description,
        link,
        execute_data,
        migrate_data,
        deposit_amount,
        total_balance_at_end_poll: None,
        staked_amount: None,
    };
    proof {
        assert forall|j: int| 0 <= j < gov.polls@.len() implies #[trigger] gov.polls@[j].id
            != poll_id by {
            assert(gov.polls@[j].id <= gov.state.poll_count);
        }
        crate::store::lemma_polls_map_absent(gov.polls@, poll_id);
    }
    let ghost old_polls_view = polls_map(gov.polls@);
    let ghost old_index_view = crate::store::idx_set(gov.poll_indexer@);
    store_poll(&mut gov.polls, new_poll);
    store_poll_indexer(&mut gov.poll_indexer, PollStatus::InProgress, poll_id);
    gov.state.poll_count = poll_id;
    gov.state.total_deposit = new_total_deposit;
    proof {
        assert(polls_map(gov.polls@).remove(poll_id) =~= old_polls_view.remove(poll_id));
        if old(gov).index_consistent() {
            assert forall|e: (PollStatus, u64)| #[trigger]
                crate::store::idx_set(gov.poll_indexer@).contains(e) <==> (polls_map(
                gov.polls@,
            ).contains_key(e.1) && polls_map(gov.polls@)[e.1].status == e.0) by {
                assert(old(gov).index_view().contains(e) == (old(gov).polls_view().contains_key(
                    e.1,
                ) && old(gov).polls_view()[e.1].status == e.0));
                assert(crate::store::idx_set(gov.poll_indexer@) == old_index_view.insert(
                    (PollStatus::InProgress, poll_id),
                ));
                if e.1 == poll_id {
                    assert(!old_polls_view.contains_key(poll_id));
                    assert(polls_map(gov.polls@)[poll_id].status == PollStatus::InProgress);
                    if e.0 == PollStatus::InProgress {
                        assert(e == (PollStatus::InProgress, poll_id));
                    }
                }
            }
        }
    }
    Ok(poll_id)
}

/// Freezes the quorum denominator for a poll: only while it is in
/// progress, only within `snapshot_period` of its end, and only once.
pub fn snapshot_poll(gov: &mut Governance, now: u64, poll_id: u64, token_balance: u128) -> (r:
    Result<u128, GovError>)
    requires
        old(gov).wf(),
    ensures
        final(gov).wf(),
        r is Err ==> *final(gov) == *old(gov),
        r == spec_snapshot_result(*old(gov), now, poll_id, token_balance),
        r matches Ok(staked) ==> {
            let p0 = old(gov).polls_view()[poll_id];
            &&& final(gov).polls_view() == old(gov).polls_view().insert(
                poll_id,
                (Poll { staked_amount: Some(staked), ..p0 }),
            )
            &&& final(gov).state == old(gov).state
            &&& final(gov).bank == old(gov).bank
            &&& final(gov).poll_voters == old(gov).poll_voters
            &&& final(gov).poll_indexer == old(gov).poll_indexer
            &&& final(gov).config == old(gov).config
            &&& final(gov).tmp_poll_id == old(gov).tmp_poll_id
            &&& (old(gov).index_consistent() ==> final(gov).index_consistent())
        },
{
    let i = match crate::store::find_poll_index(&gov.polls, poll_id) {
        Some(i) => i,
        None => {
            return Err(GovError::PollNotFound);
        },
    };
    proof {
        crate::store::lemma_polls_map_index(gov.polls@, i as int);
    }
    if !(gov.polls[i].status == PollStatus::InProgress) {
        return Err(GovError::PollNotInProgress);
    }
    let end_time = gov.polls[i].end_time;
    let time_to_end = if end_time > now {
        end_time - now
    } else {
        0
    };
    if time_to_end > gov.config.snapshot_period {
        return Err(GovError::SnapshotWindowNotOpen);
    }
    if gov.polls[i].staked_amount.is_some() {
        return Err(GovError::SnapshotAlreadyOccurred);
    }
    if token_balance < gov.state.total_deposit {
        return Err(GovError::Overflow);
    }
    let staked_amount = token_balance - gov.state.total_deposit;
    let ghost s0 = gov.polls@;
    let p = &mut gov.polls[i];
    p.staked_amount = Some(staked_amount);
    proof {
        crate::store::lemma_polls_map_update(s0, i as int, gov.polls@[i as int]);
        assert(polls_map(gov.polls@) =~= polls_map(s0).insert(
            poll_id,
            gov.polls@[i as int],
        ));
        if old(gov).index_consistent() {
            assert forall|e: (PollStatus, u64)| #[trigger]
                crate::store::idx_set(gov.poll_indexer@).contains(e) <==> (polls_map(
                gov.polls@,
            ).contains_key(e.1) && polls_map(gov.polls@)[e.1].status == e.0) by {
                assert(old(gov).index_view().contains(e) == (old(gov).polls_view().contains_key(
                    e.1,
                ) && old(gov).polls_view()[e.1].status == e.0));
                assert(gov.poll_indexer@ == old(gov).poll_indexer@);
                assert(polls_map(gov.polls@) == polls_map(s0).insert(
                    poll_id,
                    gov.polls@[i as int],
                ));
                assert(gov.polls@[i as int].status == s0[i as int].status);
                assert(old(gov).polls_view()[poll_id] == s0[i as int]);
            }
        }
    }
    Ok(staked_amount)
}

/// What a snapshot attempt returns, over the state it sees.
pub open spec fn spec_snapshot_result(
    gov: Governance,
    now: u64,
    poll_id: u64,
    token_balance: u128,
) -> Result<u128, GovError> {
    if !gov.polls_view().contains_key(poll_id) {
        Err(GovError::PollNotFound)
    } else {
        let p = gov.polls_view()[poll_id];
        if p.status != PollStatus::InProgress {
            Err(GovError::PollNotInProgress)
        } else if (if p.end_time > now {
            p.end_time - now
        } else {
            0
        }) > gov.config.snapshot_period {
            Err(GovError::SnapshotWindowNotOpen)
        } else if p.staked_amount is Some {
            Err(GovError::SnapshotAlreadyOccurred)
        } else if token_balance < gov.state.total_deposit {
            Err(GovError::Overflow)
        } else {
            Ok((token_balance - gov.state.total_deposit) as u128)
        }
    }
}

/// What a vote attempt returns, over the state it sees.
pub open spec fn spec_cast_vote_result(
    gov: Governance,
    now: u64,
    voter: Seq<char>,
    poll_id: u64,
    amount: u128,
    token_balance: u128,
) -> Result<(), GovError> {
    if poll_id == 0 || gov.state.poll_count < poll_id || !gov.polls_view().contains_key(poll_id) {
        Err(GovError::PollNotFound)
    } else {
        let p = gov.polls_view()[poll_id];
        if p.status != PollStatus::InProgress || now > p.end_time {
            Err(GovError::PollNotInProgress)
        } else if gov.voters_view().contains_key((poll_id, skey(voter))) {
            Err(GovError::AlreadyVoted)
        } else if token_balance < gov.state.total_deposit {
            Err(GovError::Overflow)
        } else {
            let total_balance = (token_balance - gov.state.total_deposit) as u128;
            let share = if gov.bank_view().contains_key(skey(voter)) {
                gov.bank_view()[skey(voter)].share
            } else {
                0u128
            };
            let balance_of = if gov.state.total_share == 0 {
                0
            } else {
                ratio_floor(share, total_balance, gov.state.total_share)
            };
            if balance_of < amount {
                Err(GovError::InsufficientStaked)
            } else if (if p.yes_votes >= p.no_votes {
                p.yes_votes
            } else {
                p.no_votes
            }) + amount > u128::MAX {
                Err(GovError::Overflow)
            } else {
                Ok(())
            }
        }
    }
}

/// Records a vote: one per (poll, voter), weighted by no more than the
/// voter's staked balance, and locks that weight behind the vote. The
/// first vote inside the snapshot window freezes the quorum denominator,
/// exactly as an explicit snapshot would.
pub fn cast_vote(
    gov: &mut Governance,
    now: u64,
    voter: &String,
    poll_id: u64,
    vote: VoteOption,
    amount: u128,
    token_balance: u128,
) -> (r: Result<(), GovError>)
    requires
        old(gov).wf(),
    ensures
        final(gov).wf(),
        r is Err ==> *final(gov) == *old(gov),
        r == spec_cast_vote_result(*old(gov), now, voter@, poll_id, amount, token_balance),
        r is Ok ==> {
            let k = (poll_id, skey(voter@));
            let p0 = old(gov).polls_view()[poll_id];
            let total_balance = (token_balance - old(gov).state.total_deposit) as u128;
            let snap = p0.staked_amount is None && p0.end_time - now
                <= old(gov).config.snapshot_period;
            let p1 = final(gov).polls_view()[poll_id];
            &&& final(gov).polls_view().contains_key(poll_id)
            &&& final(gov).polls_view().remove(poll_id) == old(gov).polls_view().remove(poll_id)
            &&& p1 == (Poll {
                yes_votes: if vote == VoteOption::Yes {
                    (p0.yes_votes + amount) as u128
                } else {
                    p0.yes_votes
                },
                no_votes: if vote == VoteOption::No {
                    (p0.no_votes + amount) as u128
                } else {
                    p0.no_votes
                },
                staked_amount: if snap {
                    Some(total_balance)
                } else {
                    p0.staked_amount
                },
                ..p0
            })
            &&& final(gov).voters_view() == old(gov).voters_view().insert(
                k,
                (VoterInfo { vote, balance: amount }),
            )
            &&& final(gov).bank_view().contains_key(skey(voter@))
            &&& final(gov).bank_view()[skey(voter@)].share == (if old(gov).bank_view().contains_key(skey(voter@)) {
                old(gov).bank_view()[skey(voter@)].share
            } else {
                0u128
            })
            &&& final(gov).bank_view()[skey(voter@)].locked_balance@ == (if old(gov).bank_view().contains_key(skey(voter@)) {
                old(gov).bank_view()[skey(voter@)].locked_balance@
            } else {
                Seq::<(u64, VoterInfo)>::empty()
            }).push((poll_id, VoterInfo { vote, balance: amount }))
            &&& final(gov).bank_view().remove(skey(voter@)) == old(gov).bank_view().remove(
                skey(voter@),
            )
            &&& final(gov).state == old(gov).state
            &&& final(gov).poll_indexer == old(gov).poll_indexer
            &&& final(gov).config == old(gov).config
            &&& final(gov).tmp_poll_id == old(gov).tmp_poll_id
            &&& (old(gov).index_consistent() ==> final(gov).index_consistent())
        },
{
    if poll_id == 0 || gov.state.poll_count < poll_id {
        return Err(GovError::PollNotFound);
    }
    let i = match crate::store::find_poll_index(&gov.polls, poll_id) {
        Some(i) => i,
        None => {
            return Err(GovError::PollNotFound);
        },
    };
    proof {
        crate::store::lemma_polls_map_index(gov.polls@, i as int);
    }
    if !(gov.polls[i].status == PollStatus::InProgress) || now > gov.polls[i].end_time {
        return Err(GovError::PollNotInProgress);
    }
    if crate::store::load_poll_voter(&gov.poll_voters, poll_id, voter.as_str()).is_some() {
        return Err(GovError::AlreadyVoted);
    }
    if token_balance < gov.state.total_deposit {
        return Err(GovError::Overflow);
    }
    let total_balance = token_balance - gov.state.total_deposit;
    let tm = load_bank(&gov.bank, voter.as_str());
    proof {
        if bank_map(gov.bank@).contains_key(skey(voter@)) {
            lemma_bank_map_share_bound(gov.bank@, skey(voter@));
        }
    }
    let balance_of: u128 = if gov.state.total_share == 0 {
        0
    } else {
        proof {
            vstd::arithmetic::mul::lemma_mul_inequality(
                tm.share as int,
                gov.state.total_share as int,
                total_balance as int,
            );
            vstd::arithmetic::div_mod::lemma_div_is_ordered(
                tm.share * total_balance,
                gov.state.total_share * total_balance,
                gov.state.total_share as int,
            );
            vstd::arithmetic::div_mod::lemma_div_multiples_vanish(
                total_balance as int,
                gov.state.total_share as int,
            );
        }
        match checked_mul_ratio(tm.share, total_balance, gov.state.total_share) {
            Ok(v) => v,
            Err(_) => 0,
        }
    };
    if balance_of < amount {
        return Err(GovError::InsufficientStaked);
    }
    let higher = if gov.polls[i].yes_votes >= gov.polls[i].no_votes {
        gov.polls[i].yes_votes
    } else {
        gov.polls[i].no_votes
    };
    if higher.checked_add(amount).is_none() {
        return Err(GovError::Overflow);
    }
    let info = VoterInfo { vote, balance: amount };
    let ghost bank0 = gov.bank@;
    proof {
        if bank_map(bank0).contains_key(skey(voter@)) {
            lemma_bank_map_attained(bank0, skey(voter@));
        }
    }
    let mut locked = tm.locked_balance;
    locked.push((poll_id, info));
    let new_tm = TokenManager { share: tm.share, locked_balance: locked };
    store_bank(&mut gov.bank, voter, new_tm);
    crate::store::store_poll_voter(&mut gov.poll_voters, poll_id, voter, info);
    let end_time = gov.polls[i].end_time;
    let snapshot_needed = end_time - now <= gov.config.snapshot_period && gov.polls[i].staked_amount.is_none();
    let ghost s0 = gov.polls@;
    let p = &mut gov.polls[i];
    if vote == VoteOption::Yes {
        p.yes_votes = p.yes_votes + amount;
    } else {
        p.no_votes = p.no_votes + amount;
    }
    if snapshot_needed {
        p.staked_amount = Some(total_balance);
    }
    proof {
        crate::store::lemma_polls_map_update(s0, i as int, gov.polls@[i as int]);
        assert(polls_map(gov.polls@) =~= polls_map(s0).insert(poll_id, gov.polls@[i as int]));
        assert(polls_map(gov.polls@).remove(poll_id) =~= polls_map(s0).remove(poll_id));
        if old(gov).index_consistent() {
            assert forall|e: (PollStatus, u64)| #[trigger]
                crate::store::idx_set(gov.poll_indexer@).contains(e) <==> (polls_map(
                gov.polls@,
            ).contains_key(e.1) && polls_map(gov.polls@)[e.1].status == e.0) by {
                assert(old(gov).index_view().contains(e) == (old(gov).polls_view().contains_key(
                    e.1,
                ) && old(gov).polls_view()[e.1].status == e.0));
                assert(gov.polls@[i as int].status == s0[i as int].status);
                assert(old(gov).polls_view()[poll_id] == s0[i as int]);
            }
        }
    }
    Ok(())
}

/// What resolving a poll yields: the terminal status, the reason when it
/// was rejected, and the deposit refund when one is owed.
#[derive(Clone, Debug, PartialEq)]
pub struct EndPollOutcome {
    pub status: PollStatus,
    pub rejected_reason: Option<RejectReason>,
    pub refund: Option<OutMsg>,
}

/// The tally rule: a poll needs `quorum` of the staked weight to have
/// voted at all, and then more than `threshold` of the cast votes in
/// favor. Both ratios are floored to eighteen decimal places before the
/// comparison. A fixed tally always resolves the same way.
pub open spec fn spec_poll_decision(
    tallied: u128,
    yes: u128,
    staked_weight: u128,
    quorum: Decimal,
    threshold: Decimal,
) -> (PollStatus, Option<RejectReason>) {
    let quorum_ratio = if staked_weight == 0 {
        0int
    } else {
        ratio_floor(tallied, DECIMAL_FRACTIONAL, staked_weight)
    };
    if tallied == 0 || quorum_ratio < quorum.atomics {
        (PollStatus::Rejected, Some(RejectReason::QuorumNotReached))
    } else if ratio_floor(yes, DECIMAL_FRACTIONAL, tallied) > threshold.atomics {
        (PollStatus::Passed, None)
    } else {
        (PollStatus::Rejected, Some(RejectReason::ThresholdNotReached))
    }
}

/// The quorum denominator a resolving poll uses: zero while no shares
/// exist at all, else its snapshot when one was taken, else the live pool
/// balance less the locked deposits.
pub open spec fn spec_staked_weight(
    p: Poll,
    total_share: u128,
    total_deposit: u128,
    token_balance: u128,
) -> int {
    if total_share == 0 {
        0
    } else {
        match p.staked_amount {
            Some(s) => s as int,
            None => token_balance - total_deposit,
        }
    }
}

/// What resolving a poll returns, over the state it sees.
pub open spec fn spec_end_poll_result(
    gov: Governance,
    now: u64,
    poll_id: u64,
    token_balance: u128,
) -> Result<(PollStatus, Option<RejectReason>), GovError> {
    if !gov.polls_view().contains_key(poll_id) {
        Err(GovError::PollNotFound)
    } else {
        let p = gov.polls_view()[poll_id];
        if p.status != PollStatus::InProgress {
            Err(GovError::PollNotInProgress)
        } else if p.end_time > now {
            Err(GovError::VotingPeriodNotExpired)
        } else if p.yes_votes + p.no_votes > u128::MAX {
            Err(GovError::Overflow)
        } else if spec_staked_weight(p, gov.state.total_share, gov.state.total_deposit, token_balance) < 0 {
            Err(GovError::Overflow)
        } else {
            let tallied = (p.yes_votes + p.no_votes) as u128;
            let staked_weight = spec_staked_weight(p, gov.state.total_share, gov.state.total_deposit, token_balance)
                as u128;
            if staked_weight != 0 && ratio_floor(tallied, DECIMAL_FRACTIONAL, staked_weight)
                > u128::MAX {
                Err(GovError::Overflow)
            } else if gov.state.total_deposit < p.deposit_amount {
                Err(GovError::Overflow)
            } else {
                Ok(
                    spec_poll_decision(
                        tallied,
                        p.yes_votes,
                        staked_weight,
                        gov.config.quorum,
                        gov.config.threshold,
                    ),
                )
            }
        }
    }
}

/// Resolves a poll whose voting window has elapsed. The deposit is
/// refunded exactly when quorum was reached, whether or not the poll
/// passed; a poll rejected for want of quorum forfeits it.
pub fn end_poll(gov: &mut Governance, now: u64, poll_id: u64, token_balance: u128) -> (r: Result<
    EndPollOutcome,
    GovError,
>)
    requires
        old(gov).wf(),
    ensures
        final(gov).wf(),
        r is Err ==> *final(gov) == *old(gov),
        r is Err <==> spec_end_poll_result(*old(gov), now, poll_id, token_balance) is Err,
        r matches Err(e) ==> Err::<(PollStatus, Option<RejectReason>), GovError>(e)
            == spec_end_poll_result(*old(gov), now, poll_id, token_balance),
        r matches Ok(out) ==> {
            let p0 = old(gov).polls_view()[poll_id];
            let staked_weight = spec_staked_weight(
                p0,
                old(gov).state.total_share,
                old(gov).state.total_deposit,
                token_balance,
            ) as u128;
            let decision = spec_end_poll_result(*old(gov), now, poll_id, token_balance)->Ok_0;
            let p1 = final(gov).polls_view()[poll_id];
            &&& out.status == decision.0
            &&& out.rejected_reason == decision.1
            &&& out.refund == (if decision.1 != Some(RejectReason::QuorumNotReached)
                && p0.deposit_amount != 0 {
                Some(
                    OutMsg::Transfer {
                        token: old(gov).config.psi_token,
                        recipient: p0.creator,
                        amount: p0.deposit_amount,
                    },
                )
            } else {
                None::<OutMsg>
            })
            &&& final(gov).polls_view().contains_key(poll_id)
            &&& final(gov).polls_view().remove(poll_id) == old(gov).polls_view().remove(poll_id)
            &&& p1 == (Poll {
                status: decision.0,
                total_balance_at_end_poll: Some(staked_weight),
                ..p0
            })
            &&& final(gov).index_view() == old(gov).index_view().remove(
                (PollStatus::InProgress, poll_id),
            ).insert((decision.0, poll_id))
            &&& final(gov).state.total_deposit == old(gov).state.total_deposit
                - p0.deposit_amount
            &&& final(gov).state.total_share == old(gov).state.total_share
            &&& final(gov).state.poll_count == old(gov).state.poll_count
            &&& final(gov).bank == old(gov).bank
            &&& final(gov).poll_voters == old(gov).poll_voters
            &&& final(gov).config == old(gov).config
            &&& final(gov).tmp_poll_id == old(gov).tmp_poll_id
            &&& (old(gov).index_consistent() ==> final(gov).index_consistent())
        },
{
    let i = match crate::store::find_poll_index(&gov.polls, poll_id) {
        Some(i) => i,
        None => {
            return Err(GovError::PollNotFound);
        },
    };
    proof {
        crate::store::lemma_polls_map_index(gov.polls@, i as int);
    }
    if !(gov.polls[i].status == PollStatus::InProgress) {
        return Err(GovError::PollNotInProgress);
    }
    if gov.polls[i].end_time > now {
        return Err(GovError::VotingPeriodNotExpired);
    }
    let yes = gov.polls[i].yes_votes;
    let no = gov.polls[i].no_votes;
    let tallied = match yes.checked_add(no) {
        Some(v) => v,
        None => {
            return Err(GovError::Overflow);
        },
    };
    let staked_weight: u128 = if gov.state.total_share == 0 {
        0
    } else {
        match gov.polls[i].staked_amount {
            Some(s) => s,
            None => {
                if token_balance < gov.state.total_deposit {
                    return Err(GovError::Overflow);
                }
                token_balance - gov.state.total_deposit
            },
        }
    };
    let quorum_ratio: u128 = if staked_weight == 0 {
        0
    } else {
        match checked_mul_ratio(tallied, DECIMAL_FRACTIONAL, staked_weight) {
            Ok(v) => v,
            Err(_) => {
                return Err(GovError::Overflow);
            },
        }
    };
    let deposit_amount = gov.polls[i].deposit_amount;
    if gov.state.total_deposit < deposit_amount {
        return Err(GovError::Overflow);
    }
    let quorum_reached: bool = !(tallied == 0 || quorum_ratio < gov.config.quorum.atomics);
    let status: PollStatus;
    let rejected_reason: Option<RejectReason>;
    if !quorum_reached {
        status = PollStatus::Rejected;
        rejected_reason = Some(RejectReason::QuorumNotReached);
    } else {
        proof {
            vstd::arithmetic::mul::lemma_mul_inequality(
                yes as int,
                tallied as int,
                DECIMAL_FRACTIONAL as int,
            );
            vstd::arithmetic::div_mod::lemma_div_is_ordered(
                yes * DECIMAL_FRACTIONAL,
                tallied * DECIMAL_FRACTIONAL,
                tallied as int,
            );
            vstd::arithmetic::div_mod::lemma_div_multiples_vanish(
                DECIMAL_FRACTIONAL as int,
                tallied as int,
            );
        }
        let yes_ratio: u128 = match checked_mul_ratio(yes, DECIMAL_FRACTIONAL, tallied) {
            Ok(v) => v,
            Err(_) => 0,
        };
        if yes_ratio > gov.config.threshold.atomics {
            status = PollStatus::Passed;
            rejected_reason = None;
        } else {
            status = PollStatus::Rejected;
            rejected_reason = Some(RejectReason::ThresholdNotReached);
        }
    }
    let refund: Option<OutMsg> = if quorum_reached && deposit_amount != 0 {
        Some(
            OutMsg::Transfer {
                token: gov.config.psi_token.clone(),
                recipient: gov.polls[i].creator.clone(),
                amount: deposit_amount,
            },
        )
    } else {
        None
    };
    let ghost s0 = gov.polls@;
    let ghost idx0 = crate::store::idx_set(gov.poll_indexer@);
    crate::store::remove_poll_indexer(&mut gov.poll_indexer, PollStatus::InProgress, poll_id);
    store_poll_indexer(&mut gov.poll_indexer, status, poll_id);
    let p = &mut gov.polls[i];
    p.status = status;
    p.total_balance_at_end_poll = Some(staked_weight);
    gov.state.total_deposit = gov.state.total_deposit - deposit_amount;
    proof {
        crate::store::lemma_polls_map_update(s0, i as int, gov.polls@[i as int]);
        assert(polls_map(gov.polls@) =~= polls_map(s0).insert(poll_id, gov.polls@[i as int]));
        assert(polls_map(gov.polls@).remove(poll_id) =~= polls_map(s0).remove(poll_id));
        if old(gov).index_consistent() {
            assert forall|e: (PollStatus, u64)| #[trigger]
                crate::store::idx_set(gov.poll_indexer@).contains(e) <==> (polls_map(
                gov.polls@,
            ).contains_key(e.1) && polls_map(gov.polls@)[e.1].status == e.0) by {
                assert(old(gov).index_view().contains(e) == (old(gov).polls_view().contains_key(
                    e.1,
                ) && old(gov).polls_view()[e.1].status == e.0));
                assert(crate::store::idx_set(gov.poll_indexer@) == idx0.remove(
                    (PollStatus::InProgress, poll_id),
                ).insert((status, poll_id)));
                assert(old(gov).polls_view()[poll_id] == s0[i as int]);
                assert(gov.polls@[i as int].status == status);
                if e.1 == poll_id {
                    if e.0 == status {
                        assert(e == (status, poll_id));
                    } else if e.0 == PollStatus::InProgress {
                        assert(e == (PollStatus::InProgress, poll_id));
                    }
                }
            }
        }
    }
    Ok(EndPollOutcome { status, rejected_reason, refund })
}

/// What a dispatch attempt returns, over the state it sees.
pub open spec fn spec_execute_poll_result(gov: Governance, now: u64, poll_id: u64) -> Result<
    (),
    GovError,
> {
    if !gov.polls_view().contains_key(poll_id) {
        Err(GovError::PollNotFound)
    } else {
        let p = gov.polls_view()[poll_id];
        if p.status != PollStatus::Passed {
            Err(GovError::PollNotPassed)
        } else if p.end_time + gov.config.timelock_period > u64::MAX {
            Err(GovError::Overflow)
        } else if p.end_time + gov.config.timelock_period > now {
            Err(GovError::TimelockNotExpired)
        } else if !p.spec_contain_messages() {
            Err(GovError::NoExecuteData)
        } else {
            Ok(())
        }
    }
}

/// Starts dispatching a passed poll's batch once its timelock elapsed: the
/// poll moves to `Executed`, its id fills the single-slot pending
/// register, and the returned self-call carries the batch as one unit so
/// that any downstream failure is observable.
pub fn execute_poll(gov: &mut Governance, now: u64, poll_id: u64) -> (r: Result<OutMsg, GovError>)
    requires
        old(gov).wf(),
    ensures
        final(gov).wf(),
        r is Err ==> *final(gov) == *old(gov),
        r is Err <==> spec_execute_poll_result(*old(gov), now, poll_id) is Err,
        r matches Err(e) ==> Err::<(), GovError>(e) == spec_execute_poll_result(
            *old(gov),
            now,
            poll_id,
        ),
        r matches Ok(msg) ==> {
            let p0 = old(gov).polls_view()[poll_id];
            &&& msg == (OutMsg::ExecutePollMsgs { poll_id })
            &&& final(gov).polls_view().contains_key(poll_id)
            &&& final(gov).polls_view().remove(poll_id) == old(gov).polls_view().remove(poll_id)
            &&& final(gov).polls_view()[poll_id] == (Poll { status: PollStatus::Executed, ..p0 })
            &&& final(gov).index_view() == old(gov).index_view().remove(
                (PollStatus::Passed, poll_id),
            ).insert((PollStatus::Executed, poll_id))
            &&& final(gov).tmp_poll_id == Some(poll_id)
            &&& final(gov).state == old(gov).state
            &&& final(gov).bank == old(gov).bank
            &&& final(gov).poll_voters == old(gov).poll_voters
            &&& final(gov).config == old(gov).config
            &&& (old(gov).index_consistent() ==> final(gov).index_consistent())
        },
{
    let i = match crate::store::find_poll_index(&gov.polls, poll_id) {
        Some(i) => i,
        None => {
            return Err(GovError::PollNotFound);
        },
    };
    proof {
        crate::store::lemma_polls_map_index(gov.polls@, i as int);
    }
    if !(gov.polls[i].status == PollStatus::Passed) {
        return Err(GovError::PollNotPassed);
    }
    let unlock = match gov.polls[i].end_time.checked_add(gov.config.timelock_period) {
        Some(v) => v,
        None => {
            return Err(GovError::Overflow);
        },
    };
    if unlock > now {
        return Err(GovError::TimelockNotExpired);
    }
    if !gov.polls[i].contain_messages() {
        return Err(GovError::NoExecuteData);
    }
    let ghost s0 = gov.polls@;
    let ghost idx0 = crate::store::idx_set(gov.poll_indexer@);
    crate::store::remove_poll_indexer(&mut gov.poll_indexer, PollStatus::Passed, poll_id);
    store_poll_indexer(&mut gov.poll_indexer, PollStatus::Executed, poll_id);
    let p = &mut gov.polls[i];
    p.status = PollStatus::Executed;
    gov.tmp_poll_id = Some(poll_id);
    proof {
        crate::store::lemma_polls_map_update(s0, i as int, gov.polls@[i as int]);
        assert(polls_map(gov.polls@) =~= polls_map(s0).insert(poll_id, gov.polls@[i as int]));
        assert(polls_map(gov.polls@).remove(poll_id) =~= polls_map(s0).remove(poll_id));
        if old(gov).index_consistent() {
            assert forall|e: (PollStatus, u64)| #[trigger]
                crate::store::idx_set(gov.poll_indexer@).contains(e) <==> (polls_map(
                gov.polls@,
            ).contains_key(e.1) && polls_map(gov.polls@)[e.1].status == e.0) by {
                assert(old(gov).index_view().contains(e) == (old(gov).polls_view().contains_key(
                    e.1,
                ) && old(gov).polls_view()[e.1].status == e.0));
                assert(crate::store::idx_set(gov.poll_indexer@) == idx0.remove(
                    (PollStatus::Passed, poll_id),
                ).insert((PollStatus::Executed, poll_id)));
                assert(old(gov).polls_view()[poll_id] == s0[i as int]);
                if e.1 == poll_id {
                    if e.0 == PollStatus::Executed {
                        assert(e == (PollStatus::Executed, poll_id));
                    } else if e.0 == PollStatus::Passed {
                        assert(e == (PollStatus::Passed, poll_id));
                    }
                }
            }
        }
    }
    Ok(OutMsg::ExecutePollMsgs { poll_id })
}

/// The plain-value reductions of a poll's direct-call batch items.
pub open spec fn exec_keys(d: Seq<ExecuteData>) -> Seq<(u64, Seq<char>, Seq<u8>, Option<u64>)>
    decreases d.len(),
{
    if d.len() == 0 {
        Seq::empty()
    } else {
        exec_keys(d.drop_last()).push(
            (d.last().order, d.last().contract@, d.last().msg@, None::<u64>),
        )
    }
}

/// The plain-value reductions of a poll's upgrade batch items.
pub open spec fn mig_keys(d: Seq<MigrateData>) -> Seq<(u64, Seq<char>, Seq<u8>, Option<u64>)>
    decreases d.len(),
{
    if d.len() == 0 {
        Seq::empty()
    } else {
        mig_keys(d.drop_last()).push(
            (d.last().order, d.last().contract@, d.last().msg@, Some(d.last().new_code_id)),
        )
    }
}

/// A poll's whole batch, direct calls first, then upgrades, reduced to
/// plain values in the order they were attached.
pub open spec fn poll_batch_keys(p: Poll) -> Seq<(u64, Seq<char>, Seq<u8>, Option<u64>)> {
    (match p.execute_data {
        Some(d) => exec_keys(d@),
        None => Seq::empty(),
    }) + (match p.migrate_data {
        Some(d) => mig_keys(d@),
        None => Seq::empty(),
    })
}

/// The batch a poll dispatches: its items merged and stable-sorted by
/// their position key, ties in attachment order.
pub fn execute_poll_messages(gov: &Governance, poll_id: u64) -> (r: Result<Vec<OutMsg>, GovError>)
    requires
        gov.wf(),
    ensures
        r is Err <==> !gov.polls_view().contains_key(poll_id),
        r is Err ==> r == Err::<Vec<OutMsg>, GovError>(GovError::PollNotFound),
        r matches Ok(msgs) ==> crate::batch::out_keys(msgs@) == crate::batch::stable_sort_keys(
            poll_batch_keys(gov.polls_view()[poll_id]),
        ) && crate::batch::sorted_by_order(msgs@) && (forall|i: int|
            0 <= i < msgs@.len() ==> (#[trigger] msgs@[i]) is Execute || msgs@[i] is Migrate),
{
    let poll = match crate::store::may_load_poll(&gov.polls, poll_id) {
        Some(p) => p,
        None => {
            return Err(GovError::PollNotFound);
        },
    };
    let mut merged: Vec<OutMsg> = Vec::new();
    proof {
        assert(crate::batch::out_keys(merged@) =~= Seq::<
            (u64, Seq<char>, Seq<u8>, Option<u64>),
        >::empty());
    }
    let ghost ek: Seq<(u64, Seq<char>, Seq<u8>, Option<u64>)> = match &poll.execute_data {
        Some(d) => exec_keys(d@),
        None => Seq::empty(),
    };
    match &poll.execute_data {
        Some(d) => {
            let mut i: usize = 0;
            proof {
                assert(exec_keys(d@.take(0)) =~= Seq::<
                    (u64, Seq<char>, Seq<u8>, Option<u64>),
                >::empty());
            }
            while i < d.len()
                invariant
                    i <= d@.len(),
                    ek == exec_keys(d@),
                    crate::batch::out_keys(merged@) == exec_keys(d@.take(i as int)),
                    forall|j: int|
                        0 <= j < merged@.len() ==> (#[trigger] merged@[j]) is Execute
                            || merged@[j] is Migrate,
                decreases d@.len() - i,
            {
                let ghost m0 = merged@;
                merged.push(
                    OutMsg::Execute {
                        order: d[i].order,
                        contract: d[i].contract.clone(),
                        msg: crate::store::copy_bytes(&d[i].msg),
                    },
                );
                proof {
                    assert(merged@.drop_last() =~= m0);
                    assert(d@.take(i + 1 as int).drop_last() =~= d@.take(i as int));
                    assert(d@.take(i + 1 as int).last() == d@[i as int]);
                }
                i = i + 1;
            }
            proof {
                assert(d@.take(d@.len() as int) =~= d@);
            }
        },
        None => {},
    }
    proof {
        assert(crate::batch::out_keys(merged@) == ek);
    }
    match &poll.migrate_data {
        Some(d) => {
            let mut i: usize = 0;
            proof {
                assert(mig_keys(d@.take(0)) =~= Seq::<
                    (u64, Seq<char>, Seq<u8>, Option<u64>),
                >::empty());
                assert(ek + mig_keys(d@.take(0)) =~= ek);
            }
            while i < d.len()
                invariant
                    i <= d@.len(),
                    crate::batch::out_keys(merged@) == ek + mig_keys(d@.take(i as int)),
                    forall|j: int|
                        0 <= j < merged@.len() ==> (#[trigger] merged@[j]) is Execute
                            || merged@[j] is Migrate,
                decreases d@.len() - i,
            {
                let ghost m0 = merged@;
                merged.push(
                    OutMsg::Migrate {
                        order: d[i].order,
                        contract: d[i].contract.clone(),
                        new_code_id: d[i].new_code_id,
                        msg: crate::store::copy_bytes(&d[i].msg),
                    },
                );
                proof {
                    assert(merged@.drop_last() =~= m0);
                    assert(d@.take(i + 1 as int).drop_last() =~= d@.take(i as int));
                    assert(d@.take(i + 1 as int).last() == d@[i as int]);
                    assert(ek + mig_keys(d@.take(i + 1 as int)) =~= (ek + mig_keys(
                        d@.take(i as int),
                    )).push(
                        (
                            d@[i as int].order,
                            d@[i as int].contract@,
                            d@[i as int].msg@,
                            Some(d@[i as int].new_code_id),
                        ),
                    ));
                }
                i = i + 1;
            }
            proof {
                assert(d@.take(d@.len() as int) =~= d@);
            }
        },
        None => {
            proof {
                assert(ek + Seq::<(u64, Seq<char>, Seq<u8>, Option<u64>)>::empty() =~= ek);
            }
        },
    }
    proof {
        assert(crate::batch::out_keys(merged@) == poll_batch_keys(
            polls_map(gov.polls@)[poll_id],
        ));
        crate::batch::lemma_out_keys_sort(merged@);
        crate::batch::lemma_stable_sort_members(merged@);
    }
    let ghost mv = merged@;
    let msgs = crate::batch::sort_batch(merged);
    proof {
        assert forall|i: int|
            0 <= i < msgs@.len() implies (#[trigger] msgs@[i]) is Execute || msgs@[i]
            is Migrate by {
            assert(mv.contains(msgs@[i]));
            let w = choose|w: int| 0 <= w < mv.len() && mv[w] == msgs@[i];
        }
    }
    Ok(msgs)
}

/// Marks a poll `Failed` after the dispatcher reported that its batch did
/// not go through.
pub fn fail_poll(gov: &mut Governance, poll_id: u64) -> (r: Result<(), GovError>)
    requires
        old(gov).wf(),
    ensures
        final(gov).wf(),
        r is Err ==> *final(gov) == *old(gov),
        r is Err <==> !old(gov).polls_view().contains_key(poll_id),
        r is Err ==> r == Err::<(), GovError>(GovError::PollNotFound),
        r is Ok ==> {
            let p0 = old(gov).polls_view()[poll_id];
            &&& final(gov).polls_view().contains_key(poll_id)
            &&& final(gov).polls_view().remove(poll_id) == old(gov).polls_view().remove(poll_id)
            &&& final(gov).polls_view()[poll_id] == (Poll { status: PollStatus::Failed, ..p0 })
            &&& final(gov).index_view() == old(gov).index_view().remove(
                (PollStatus::Executed, poll_id),
            ).insert((PollStatus::Failed, poll_id))
            &&& final(gov).state == old(gov).state
            &&& final(gov).bank == old(gov).bank
            &&& final(gov).poll_voters == old(gov).poll_voters
            &&& final(gov).config == old(gov).config
            &&& final(gov).tmp_poll_id == old(gov).tmp_poll_id
            &&& (old(gov).index_consistent() && p0.status == PollStatus::Executed ==> final(gov).index_consistent())
        },
{
    let i = match crate::store::find_poll_index(&gov.polls, poll_id) {
        Some(i) => i,
        None => {
            return Err(GovError::PollNotFound);
        },
    };
    proof {
        crate::store::lemma_polls_map_index(gov.polls@, i as int);
    }
    let ghost s0 = gov.polls@;
    let ghost idx0 = crate::store::idx_set(gov.poll_indexer@);
    crate::store::remove_poll_indexer(&mut gov.poll_indexer, PollStatus::Executed, poll_id);
    store_poll_indexer(&mut gov.poll_indexer, PollStatus::Failed, poll_id);
    let p = &mut gov.polls[i];
    p.status = PollStatus::Failed;
    proof {
        crate::store::lemma_polls_map_update(s0, i as int, gov.polls@[i as int]);
        assert(polls_map(gov.polls@) =~= polls_map(s0).insert(poll_id, gov.polls@[i as int]));
        assert(polls_map(gov.polls@).remove(poll_id) =~= polls_map(s0).remove(poll_id));
        if old(gov).index_consistent() && s0[i as int].status == PollStatus::Executed {
            assert forall|e: (PollStatus, u64)| #[trigger]
                crate::store::idx_set(gov.poll_indexer@).contains(e) <==> (polls_map(
                gov.polls@,
            ).contains_key(e.1) && polls_map(gov.polls@)[e.1].status == e.0) by {
                assert(old(gov).index_view().contains(e) == (old(gov).polls_view().contains_key(
                    e.1,
                ) && old(gov).polls_view()[e.1].status == e.0));
                assert(crate::store::idx_set(gov.poll_indexer@) == idx0.remove(
                    (PollStatus::Executed, poll_id),
                ).insert((PollStatus::Failed, poll_id)));
                assert(old(gov).polls_view()[poll_id] == s0[i as int]);
                if e.1 == poll_id {
                    if e.0 == PollStatus::Failed {
                        assert(e == (PollStatus::Failed, poll_id));
                    } else if e.0 == PollStatus::Executed {
                        assert(e == (PollStatus::Executed, poll_id));
                    }
                }
            }
        }
    }
    Ok(())
}

/// Resolves the dispatcher's failure callback: reads the pending-poll
/// register, marks that poll `Failed`, and clears the register.
pub fn on_execution_failed(gov: &mut Governance) -> (r: Result<u64, GovError>)
    requires
        old(gov).wf(),
    ensures
        final(gov).wf(),
        r is Err ==> *final(gov) == *old(gov),
        old(gov).tmp_poll_id is None ==> r == Err::<u64, GovError>(GovError::NoPendingPoll),
        old(gov).tmp_poll_id matches Some(pid) && !old(gov).polls_view().contains_key(pid) ==> r
            == Err::<u64, GovError>(GovError::PollNotFound),
        old(gov).tmp_poll_id is Some && old(gov).polls_view().contains_key(
            old(gov).tmp_poll_id->0,
        ) ==> r == Ok::<u64, GovError>(old(gov).tmp_poll_id->0),
        r matches Ok(pid) ==> {
            let p0 = old(gov).polls_view()[pid];
            &&& old(gov).tmp_poll_id == Some(pid)
            &&& final(gov).tmp_poll_id is None
            &&& final(gov).polls_view().contains_key(pid)
            &&& final(gov).polls_view().remove(pid) == old(gov).polls_view().remove(pid)
            &&& final(gov).polls_view()[pid] == (Poll { status: PollStatus::Failed, ..p0 })
            &&& final(gov).index_view() == old(gov).index_view().remove(
                (PollStatus::Executed, pid),
            ).insert((PollStatus::Failed, pid))
            &&& final(gov).state == old(gov).state
            &&& final(gov).bank == old(gov).bank
            &&& final(gov).poll_voters == old(gov).poll_voters
            &&& final(gov).config == old(gov).config
            &&& (old(gov).index_consistent() && p0.status == PollStatus::Executed ==> final(gov).index_consistent())
        },
{
    let pid = match gov.tmp_poll_id {
        Some(pid) => pid,
        None => {
            return Err(GovError::NoPendingPoll);
        },
    };
    match fail_poll(gov, pid) {
        Ok(_) => {
            gov.tmp_poll_id = None;
            Ok(pid)
        },
        Err(e) => Err(e),
    }
}

/// Lets a passed poll that carries no batch lapse unused once its
/// execution window has gone by.
pub fn expire_poll(gov: &mut Governance, now: u64, poll_id: u64) -> (r: Result<(), GovError>)
    requires
        old(gov).wf(),
    ensures
        final(gov).wf(),
        r is Err ==> *final(gov) == *old(gov),
        r matches Err(e) ==> e == (if !old(gov).polls_view().contains_key(poll_id) {
            GovError::PollNotFound
        } else if old(gov).polls_view()[poll_id].status != PollStatus::Passed {
            GovError::PollNotPassed
        } else if old(gov).polls_view()[poll_id].spec_contain_messages() {
            GovError::PollHasExecuteData
        } else if old(gov).polls_view()[poll_id].end_time + old(gov).config.timelock_period
            > u64::MAX {
            GovError::Overflow
        } else {
            GovError::ExpireWindowNotReached
        }),
        r is Ok <==> old(gov).polls_view().contains_key(poll_id) && old(gov).polls_view()[poll_id].status == PollStatus::Passed && !old(gov).polls_view()[poll_id].spec_contain_messages() && old(gov).polls_view()[poll_id].end_time + old(gov).config.timelock_period <= u64::MAX && now >= old(gov).polls_view()[poll_id].end_time
            + old(gov).config.timelock_period,
        r is Ok ==> {
            let p0 = old(gov).polls_view()[poll_id];
            &&& final(gov).polls_view().contains_key(poll_id)
            &&& final(gov).polls_view().remove(poll_id) == old(gov).polls_view().remove(poll_id)
            &&& final(gov).polls_view()[poll_id] == (Poll { status: PollStatus::Expired, ..p0 })
            &&& final(gov).index_view() == old(gov).index_view().remove(
                (PollStatus::Passed, poll_id),
            ).insert((PollStatus::Expired, poll_id))
            &&& final(gov).state == old(gov).state
            &&& final(gov).bank == old(gov).bank
            &&& final(gov).poll_voters == old(gov).poll_voters
            &&& final(gov).config == old(gov).config
            &&& final(gov).tmp_poll_id == old(gov).tmp_poll_id
            &&& (old(gov).index_consistent() ==> final(gov).index_consistent())
        },
{
    let i = match crate::store::find_poll_index(&gov.polls, poll_id) {
        Some(i) => i,
        None => {
            return Err(GovError::PollNotFound);
        },
    };
    proof {
        crate::store::lemma_polls_map_index(gov.polls@, i as int);
    }
    if !(gov.polls[i].status == PollStatus::Passed) {
        return Err(GovError::PollNotPassed);
    }
    if gov.polls[i].contain_messages() {
        return Err(GovError::PollHasExecuteData);
    }
    let window_end = match gov.polls[i].end_time.checked_add(gov.config.timelock_period) {
        Some(v) => v,
        None => {
            return Err(GovError::Overflow);
        },
    };
    if now < window_end {
        return Err(GovError::ExpireWindowNotReached);
    }
    let ghost s0 = gov.polls@;
    let ghost idx0 = crate::store::idx_set(gov.poll_indexer@);
    crate::store::remove_poll_indexer(&mut gov.poll_indexer, PollStatus::Passed, poll_id);
    store_poll_indexer(&mut gov.poll_indexer, PollStatus::Expired, poll_id);
    let p = &mut gov.polls[i];
    p.status = PollStatus::Expired;
    proof {
        crate::store::lemma_polls_map_update(s0, i as int, gov.polls@[i as int]);
        assert(polls_map(gov.polls@) =~= polls_map(s0).insert(poll_id, gov.polls@[i as int]));
        assert(polls_map(gov.polls@).remove(poll_id) =~= polls_map(s0).remove(poll_id));
        if old(gov).index_consistent() {
            assert forall|e: (PollStatus, u64)| #[trigger]
                crate::store::idx_set(gov.poll_indexer@).contains(e) <==> (polls_map(
                gov.polls@,
            ).contains_key(e.1) && polls_map(gov.polls@)[e.1].status == e.0) by {
                assert(old(gov).index_view().contains(e) == (old(gov).polls_view().contains_key(
                    e.1,
                ) && old(gov).polls_view()[e.1].status == e.0));
                assert(crate::store::idx_set(gov.poll_indexer@) == idx0.remove(
                    (PollStatus::Passed, poll_id),
                ).insert((PollStatus::Expired, poll_id)));
                assert(old(gov).polls_view()[poll_id] == s0[i as int]);
                if e.1 == poll_id {
                    if e.0 == PollStatus::Expired {
                        assert(e == (PollStatus::Expired, poll_id));
                    } else if e.0 == PollStatus::Passed {
                        assert(e == (PollStatus::Passed, poll_id));
                    }
                }
            }
        }
    }
    Ok(())
}

} // verus!
