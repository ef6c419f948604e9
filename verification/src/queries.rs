use vstd::prelude::*;

use crate::decimal::Decimal;
use crate::error::GovError;
use crate::math::{checked_mul_ratio, ratio_floor};
use crate::store::{
    abytes, bank_map, lemma_bank_map_attained, lemma_bank_map_share_bound, load_bank, polls_map,
    skey, Governance,
};
use crate::types::{
    ExecuteData, MigrateData, OrderBy, Poll, PollExecuteMsg, PollMigrateMsg, PollStatus,
    VoteOption, VoterInfo,
};

verus! {

/// Listings return at most this many records.
pub const MAX_LIMIT: u32 = 30;

/// Listings return this many records when no limit is given.
pub const DEFAULT_LIMIT: u32 = 10;

#[derive(Clone, Debug, PartialEq)]
pub struct ConfigResponse {
    pub owner: String,
    pub psi_token: String,
    pub quorum: Decimal,
    pub threshold: Decimal,
    pub voting_period: u64,
    pub timelock_period: u64,
    pub proposal_deposit: u128,
    pub snapshot_period: u64,
    pub utility_token: Option<String>,
}

#[derive(Clone, Copy, Debug, PartialEq, Eq, Structural)]
pub struct StateResponse {
    pub poll_count: u64,
    pub total_share: u128,
    pub total_deposit: u128,
}

#[derive(Clone, Debug, PartialEq)]
pub struct PollResponse {
    pub id: u64,
    pub creator: String,
    pub status: PollStatus,
    pub end_time: u64,
    pub title: String,
    pub description: String,
    pub link: Option<String>,
    pub deposit_amount: u128,
    pub execute_data: Option<Vec<PollExecuteMsg>>,
    pub migrate_data: Option<Vec<PollMigrateMsg>>,
    pub yes_votes: u128,
    pub no_votes: u128,
    pub staked_amount: Option<u128>,
    pub total_balance_at_end_poll: Option<u128>,
}

#[derive(Clone, Debug, PartialEq)]
pub struct PollsResponse {
    pub polls: Vec<PollResponse>,
}

#[derive(Clone, Debug, PartialEq)]
pub struct VotersResponseItem {
    pub voter: String,
    pub vote: VoteOption,
    pub balance: u128,
}

#[derive(Clone, Debug, PartialEq)]
pub struct VotersResponse {
    pub voters: Vec<VotersResponseItem>,
}

#[derive(Clone, Debug, PartialEq)]
pub struct StakerResponse {
    pub balance: u128,
    pub share: u128,
    pub locked_balance: Vec<(u64, VoterInfo)>,
}

/// The direction a listing walks: ascending only when asked for
/// explicitly.
pub open spec fn spec_direction(order_by: Option<OrderBy>) -> OrderBy {
    if order_by == Some(OrderBy::Asc) {
        OrderBy::Asc
    } else {
        OrderBy::Desc
    }
}

/// The number of records a listing may return.
pub open spec fn spec_limit(limit: Option<u32>) -> int {
    let l = match limit {
        Some(l) => l,
        None => DEFAULT_LIMIT,
    };
    if l < MAX_LIMIT {
        l as int
    } else {
        MAX_LIMIT as int
    }
}

/// Whether a stored poll matches a listing's filter and cursor.
pub open spec fn poll_keep(
    p: Poll,
    filter: Option<PollStatus>,
    start_after: Option<u64>,
    dir: OrderBy,
) -> bool {
    (match filter {
        Some(st) => p.status == st,
        None => true,
    }) && (match start_after {
        Some(sa) => if dir == OrderBy::Asc {
            p.id > sa
        } else {
            p.id < sa
        },
        None => true,
    })
}

/// The polls a listing ranges over, in stored (ascending id) order.
pub open spec fn poll_filter(
    s: Seq<Poll>,
    filter: Option<PollStatus>,
    start_after: Option<u64>,
    dir: OrderBy,
) -> Seq<Poll>
    decreases s.len(),
{
    if s.len() == 0 {
        Seq::empty()
    } else {
        let rest = poll_filter(s.drop_last(), filter, start_after, dir);
        if poll_keep(s.last(), filter, start_after, dir) {
            rest.push(s.last())
        } else {
            rest
        }
    }
}

/// Field-for-field agreement of two polls; payload bytes by content.
pub open spec fn poll_eqv(a: Poll, b: Poll) -> bool {
    &&& a.id == b.id
    &&& a.creator == b.creator
    &&& a.status == b.status
    &&& a.yes_votes == b.yes_votes
    &&& a.no_votes == b.no_votes
    &&& a.end_time == b.end_time
    &&& a.title == b.title
    &&& a.description == b.description
    &&& a.link == b.link
    &&& a.deposit_amount == b.deposit_amount
    &&& a.total_balance_at_end_poll == b.total_balance_at_end_poll
    &&& a.staked_amount == b.staked_amount
    &&& (a.execute_data is Some <==> b.execute_data is Some)
    &&& (a.execute_data matches Some(ad) ==> {
        let bd = b.execute_data->0;
        ad@.len() == bd@.len() && (forall|i: int|
            0 <= i < ad@.len() ==> (#[trigger] ad@[i]).order == bd@[i].order && ad@[i].contract
                == bd@[i].contract && ad@[i].msg@ == bd@[i].msg@)
    })
    &&& (a.migrate_data is Some <==> b.migrate_data is Some)
    &&& (a.migrate_data matches Some(ad) ==> {
        let bd = b.migrate_data->0;
        ad@.len() == bd@.len() && (forall|i: int|
            0 <= i < ad@.len() ==> (#[trigger] ad@[i]).order == bd@[i].order && ad@[i].contract
                == bd@[i].contract && ad@[i].new_code_id == bd@[i].new_code_id && ad@[i].msg@
                == bd@[i].msg@)
    })
}

/// Field-for-field agreement of a poll listing entry with the stored poll.
pub open spec fn poll_resp_eqv(r: PollResponse, p: Poll) -> bool {
    &&& r.id == p.id
    &&& r.creator == p.creator
    &&& r.status == p.status
    &&& r.yes_votes == p.yes_votes
    &&& r.no_votes == p.no_votes
    &&& r.end_time == p.end_time
    &&& r.title == p.title
    &&& r.description == p.description
    &&& r.link == p.link
    &&& r.deposit_amount == p.deposit_amount
    &&& r.total_balance_at_end_poll == p.total_balance_at_end_poll
    &&& r.staked_amount == p.staked_amount
    &&& (r.execute_data is Some <==> p.execute_data is Some)
    &&& (r.execute_data matches Some(ad) ==> {
        let bd = p.execute_data->0;
        ad@.len() == bd@.len() && (forall|i: int|
            0 <= i < ad@.len() ==> (#[trigger] ad@[i]).order == bd@[i].order && ad@[i].contract
                == bd@[i].contract && ad@[i].msg@ == bd@[i].msg@)
    })
    &&& (r.migrate_data is Some <==> p.migrate_data is Some)
    &&& (r.migrate_data matches Some(ad) ==> {
        let bd = p.migrate_data->0;
        ad@.len() == bd@.len() && (forall|i: int|
            0 <= i < ad@.len() ==> (#[trigger] ad@[i]).order == bd@[i].order && ad@[i].contract
                == bd@[i].contract && ad@[i].new_code_id == bd@[i].new_code_id && ad@[i].msg@
                == bd@[i].msg@)
    })
}

/// Copies a poll, field for field.
fn clone_poll(p: &Poll) -> (r: Poll)
    ensures
        poll_eqv(r, *p),
{
    let execute_data: Option<Vec<ExecuteData>> = match &p.execute_data {
        Some(d) => {
            let mut out: Vec<ExecuteData> = Vec::new();
            let mut i: usize = 0;
            while i < d.len()
                invariant
                    i <= d@.len(),
                    out@.len() == i,
                    forall|j: int|
                        0 <= j < i ==> (#[trigger] out@[j]).order == d@[j].order && out@[j].contract
                            == d@[j].contract && out@[j].msg@ == d@[j].msg@,
                decreases d@.len() - i,
            {
                out.push(
                    ExecuteData {
                        order: d[i].order,
                        contract: d[i].contract.clone(),
                        msg: crate::store::copy_bytes(&d[i].msg),
                    },
                );
                i = i + 1;
            }
            Some(out)
        },
        None => None,
    };
    let migrate_data: Option<Vec<MigrateData>> = match &p.migrate_data {
        Some(d) => {
            let mut out: Vec<MigrateData> = Vec::new();
            let mut i: usize = 0;
            while i < d.len()
                invariant
                    i <= d@.len(),
                    out@.len() == i,
                    forall|j: int|
                        0 <= j < i ==> (#[trigger] out@[j]).order == d@[j].order && out@[j].contract
                            == d@[j].contract && out@[j].new_code_id == d@[j].new_code_id
                            && out@[j].msg@ == d@[j].msg@,
                decreases d@.len() - i,
            {
                out.push(
                    MigrateData {
                        order: d[i].order,
                        contract: d[i].contract.clone(),
                        new_code_id: d[i].new_code_id,
                        msg: crate::store::copy_bytes(&d[i].msg),
                    },
                );
                i = i + 1;
            }
            Some(out)
        },
        None => None,
    };
    Poll {
        id: p.id,
        creator: p.creator.clone(),
        status: p.status,
        yes_votes: p.yes_votes,
        no_votes: p.no_votes,
        end_time: p.end_time,
        title: p.title.clone(),
        description: p.description.clone(),
        link: match &p.link {
            Some(l) => Some(l.clone()),
            None => None,
        },
        execute_data,
        migrate_data,
        deposit_amount: p.deposit_amount,
        total_balance_at_end_poll: p.total_balance_at_end_poll,
        staked_amount: p.staked_amount,
    }
}

/// A poll as a listing entry, field for field.
fn poll_to_response(p: &Poll) -> (r: PollResponse)
    ensures
        poll_resp_eqv(r, *p),
{
    let c = clone_poll(p);
    PollResponse {
        id: c.id,
        creator: c.creator,
        status: c.status,
        end_time: c.end_time,
        title: c.title,
        description: c.description,
        link: c.link,
        deposit_amount: c.deposit_amount,
        execute_data: match c.execute_data {
            Some(d) => {
                let mut out: Vec<PollExecuteMsg> = Vec::new();
                let mut i: usize = 0;
                let ghost dv = d@;
                while i < d.len()
                    invariant
                        d@ == dv,
                        i <= dv.len(),
                        out@.len() == i,
                        forall|j: int|
                            0 <= j < i ==> (#[trigger] out@[j]).order == dv[j].order
                                && out@[j].contract == dv[j].contract && out@[j].msg@ == dv[j].msg@,
                    decreases dv.len() - i,
                {
                    out.push(
                        PollExecuteMsg {
                            order: d[i].order,
                            contract: d[i].contract.clone(),
                            msg: crate::store::copy_bytes(&d[i].msg),
                        },
                    );
                    i = i + 1;
                }
                Some(out)
            },
            None => None,
        },
        migrate_data: match c.migrate_data {
            Some(d) => {
                let mut out: Vec<PollMigrateMsg> = Vec::new();
                let mut i: usize = 0;
                let ghost dv = d@;
                while i < d.len()
                    invariant
                        d@ == dv,
                        i <= dv.len(),
                        out@.len() == i,
                        forall|j: int|
                            0 <= j < i ==> (#[trigger] out@[j]).order == dv[j].order
                                && out@[j].contract == dv[j].contract && out@[j].new_code_id
                                == dv[j].new_code_id && out@[j].msg@ == dv[j].msg@,
                    decreases dv.len() - i,
                {
                    out.push(
                        PollMigrateMsg {
                            order: d[i].order,
                            contract: d[i].contract.clone(),
                            new_code_id: d[i].new_code_id,
                            msg: crate::store::copy_bytes(&d[i].msg),
                        },
                    );
                    i = i + 1;
                }
                Some(out)
            },
            None => None,
        },
        yes_votes: c.yes_votes,
        no_votes: c.no_votes,
        staked_amount: c.staked_amount,
        total_balance_at_end_poll: c.total_balance_at_end_poll,
    }
}

/// The stored positions of the polls a listing ranges over, ascending.
fn collect_poll_indices(
    polls: &Vec<Poll>,
    filter: &Option<PollStatus>,
    start_after: Option<u64>,
    dir: OrderBy,
) -> (r: Vec<usize>)
    ensures
        r@.len() == poll_filter(polls@, *filter, start_after, dir).len(),
        forall|j: int|
            0 <= j < r@.len() ==> (#[trigger] r@[j]) < polls@.len() && polls@[r@[j] as int]
                == poll_filter(polls@, *filter, start_after, dir)[j],
{
    let ghost s = polls@;
    let mut r: Vec<usize> = Vec::new();
    let mut i: usize = 0;
    proof {
        assert(poll_filter(s.take(0), *filter, start_after, dir) =~= Seq::<Poll>::empty());
    }
    while i < polls.len()
        invariant
            polls@ == s,
            i <= s.len(),
            r@.len() == poll_filter(s.take(i as int), *filter, start_after, dir).len(),
            forall|j: int|
                0 <= j < r@.len() ==> (#[trigger] r@[j]) < i && s[r@[j] as int] == poll_filter(
                    s.take(i as int),
                    *filter,
                    start_after,
                    dir,
                )[j],
        decreases s.len() - i,
    {
        let keep_status: bool = match filter {
            Some(st) => polls[i].status.rank() == st.rank(),
            None => true,
        };
        let keep_cursor: bool = match start_after {
            Some(sa) => if dir == OrderBy::Asc {
                polls[i].id > sa
            } else {
                polls[i].id < sa
            },
            None => true,
        };
        proof {
            assert(s.take(i + 1 as int).drop_last() =~= s.take(i as int));
            assert(s.take(i + 1 as int).last() == s[i as int]);
        }
        if keep_status && keep_cursor {
            r.push(i);
        }
        i = i + 1;
    }
    proof {
        assert(s.take(s.len() as int) =~= s);
    }
    r
}

/// The effective listing limit.
fn effective_limit(limit: Option<u32>) -> (r: usize)
    ensures
        r == spec_limit(limit),
{
    let l = match limit {
        Some(l) => l,
        None => DEFAULT_LIMIT,
    };
    if l < MAX_LIMIT {
        l as usize
    } else {
        MAX_LIMIT as usize
    }
}

/// Lists stored polls, optionally restricted to one status, from an
/// exclusive id cursor, at most `limit` of them: upwards in id order when
/// ascending is asked for, else downwards.
pub fn read_polls(
    polls: &Vec<Poll>,
    filter: Option<PollStatus>,
    start_after: Option<u64>,
    limit: Option<u32>,
    order_by: Option<OrderBy>,
) -> (r: Vec<Poll>)
    ensures
        ({
            let dir = spec_direction(order_by);
            let f = poll_filter(polls@, filter, start_after, dir);
            let n = if spec_limit(limit) < f.len() {
                spec_limit(limit)
            } else {
                f.len() as int
            };
            &&& r@.len() == n
            &&& (dir == OrderBy::Asc ==> forall|j: int|
                0 <= j < n ==> poll_eqv(#[trigger] r@[j], f[j]))
            &&& (dir == OrderBy::Desc ==> forall|j: int|
                0 <= j < n ==> poll_eqv(#[trigger] r@[j], f[f.len() - 1 - j]))
        }),
{
    let dir = if order_by_is_asc(&order_by) {
        OrderBy::Asc
    } else {
        OrderBy::Desc
    };
    let idx = collect_poll_indices(polls, &filter, start_after, dir);
    let lim = effective_limit(limit);
    let n = if lim < idx.len() {
        lim
    } else {
        idx.len()
    };
    let mut r: Vec<Poll> = Vec::new();
    let ghost f = poll_filter(polls@, filter, start_after, dir);
    let mut j: usize = 0;
    while j < n
        invariant
            f == poll_filter(polls@, filter, start_after, dir),
            idx@.len() == f.len(),
            forall|q: int|
                0 <= q < idx@.len() ==> (#[trigger] idx@[q]) < polls@.len() && polls@[idx@[q] as int]
                    == f[q],
            n <= idx@.len(),
            j <= n,
            r@.len() == j,
            dir == OrderBy::Asc ==> forall|q: int| 0 <= q < j ==> poll_eqv(#[trigger] r@[q], f[q]),
            dir == OrderBy::Desc ==> forall|q: int|
                0 <= q < j ==> poll_eqv(#[trigger] r@[q], f[f.len() - 1 - q]),
        decreases n - j,
    {
        let pos = if dir == OrderBy::Asc {
            idx[j]
        } else {
            idx[idx.len() - 1 - j]
        };
        r.push(clone_poll(&polls[pos]));
        j = j + 1;
    }
    r
}

/// Whether an explicit ascending order was asked for.
fn order_by_is_asc(order_by: &Option<OrderBy>) -> (r: bool)
    ensures
        r == (spec_direction(*order_by) == OrderBy::Asc),
{
    match order_by {
        Some(OrderBy::Asc) => true,
        _ => false,
    }
}

/// Whether a stored vote record falls in a voter listing's range: it
/// belongs to the poll and sits past the address cursor in the walked
/// direction (ascending compares against the cursor's bytes with a zero
/// byte appended, the first key strictly after the cursor itself).
pub open spec fn voter_keep(
    e: (u64, String, VoterInfo),
    poll_id: u64,
    start_after: Option<String>,
    dir: OrderBy,
) -> bool {
    e.0 == poll_id && (match start_after {
        Some(a) => if dir == OrderBy::Asc {
            crate::keys::lex_lt(abytes(a).push(0u8), abytes(e.1))
        } else {
            crate::keys::lex_lt(abytes(e.1), abytes(a))
        },
        None => true,
    })
}

/// The records a voter listing ranges over, in stored (ascending address)
/// order.
pub open spec fn voter_filter(
    s: Seq<(u64, String, VoterInfo)>,
    poll_id: u64,
    start_after: Option<String>,
    dir: OrderBy,
) -> Seq<(u64, String, VoterInfo)>
    decreases s.len(),
{
    if s.len() == 0 {
        Seq::empty()
    } else {
        let rest = voter_filter(s.drop_last(), poll_id, start_after, dir);
        if voter_keep(s.last(), poll_id, start_after, dir) {
            rest.push(s.last())
        } else {
            rest
        }
    }
}

/// The stored positions of the records a voter listing ranges over.
fn collect_voter_indices(
    voters: &Vec<(u64, String, VoterInfo)>,
    poll_id: u64,
    start_after: &Option<String>,
    dir: OrderBy,
) -> (r: Vec<usize>)
    ensures
        r@.len() == voter_filter(voters@, poll_id, *start_after, dir).len(),
        forall|j: int|
            0 <= j < r@.len() ==> (#[trigger] r@[j]) < voters@.len() && voters@[r@[j] as int]
                == voter_filter(voters@, poll_id, *start_after, dir)[j],
{
    let ghost s = voters@;
    let cursor_asc: Option<Vec<u8>> = match start_after {
        Some(a) => {
            let mut v: Vec<u8> = vstd::slice::slice_to_vec(a.as_str().as_bytes());
            v.push(0u8);
            Some(v)
        },
        None => None,
    };
    let mut r: Vec<usize> = Vec::new();
    let mut i: usize = 0;
    proof {
        assert(voter_filter(s.take(0), poll_id, *start_after, dir) =~= Seq::<
            (u64, String, VoterInfo),
        >::empty());
    }
    while i < voters.len()
        invariant
            voters@ == s,
            (match *start_after {
                Some(a) => cursor_asc matches Some(v) && v@ == abytes(a).push(0u8),
                None => cursor_asc is None,
            }),
            i <= s.len(),
            r@.len() == voter_filter(s.take(i as int), poll_id, *start_after, dir).len(),
            forall|j: int|
                0 <= j < r@.len() ==> (#[trigger] r@[j]) < i && s[r@[j] as int] == voter_filter(
                    s.take(i as int),
                    poll_id,
                    *start_after,
                    dir,
                )[j],
        decreases s.len() - i,
    {
        let keep_poll = voters[i].0 == poll_id;
        let keep_cursor: bool = match (&cursor_asc, start_after) {
            (Some(v), _) if dir == OrderBy::Asc => crate::keys::slice_lex_lt(
                v.as_slice(),
                voters[i].1.as_str().as_bytes(),
            ),
            (_, Some(a)) => {
                if dir == OrderBy::Asc {
                    true
                } else {
                    crate::keys::str_bytes_lt(voters[i].1.as_str(), a.as_str())
                }
            },
            _ => true,
        };
        proof {
            assert(s.take(i + 1 as int).drop_last() =~= s.take(i as int));
            assert(s.take(i + 1 as int).last() == s[i as int]);
        }
        if keep_poll && keep_cursor {
            r.push(i);
        }
        i = i + 1;
    }
    proof {
        assert(s.take(s.len() as int) =~= s);
    }
    r
}

/// Lists a poll's vote records from an exclusive address cursor, at most
/// `limit` of them: upwards in address order when ascending is asked for,
/// else downwards.
pub fn read_poll_voters(
    voters: &Vec<(u64, String, VoterInfo)>,
    poll_id: u64,
    start_after: Option<String>,
    limit: Option<u32>,
    order_by: Option<OrderBy>,
) -> (r: Vec<(String, VoterInfo)>)
    ensures
        ({
            let dir = spec_direction(order_by);
            let f = voter_filter(voters@, poll_id, start_after, dir);
            let n = if spec_limit(limit) < f.len() {
                spec_limit(limit)
            } else {
                f.len() as int
            };
            &&& r@.len() == n
            &&& (dir == OrderBy::Asc ==> forall|j: int|
                0 <= j < n ==> (#[trigger] r@[j]) == (f[j].1, f[j].2))
            &&& (dir == OrderBy::Desc ==> forall|j: int|
                0 <= j < n ==> (#[trigger] r@[j]) == (f[f.len() - 1 - j].1, f[f.len() - 1 - j].2))
        }),
{
    let dir = if order_by_is_asc(&order_by) {
        OrderBy::Asc
    } else {
        OrderBy::Desc
    };
    let idx = collect_voter_indices(voters, poll_id, &start_after, dir);
    let lim = effective_limit(limit);
    let n = if lim < idx.len() {
        lim
    } else {
        idx.len()
    };
    let mut r: Vec<(String, VoterInfo)> = Vec::new();
    let ghost f = voter_filter(voters@, poll_id, start_after, dir);
    let mut j: usize = 0;
    while j < n
        invariant
            f == voter_filter(voters@, poll_id, start_after, dir),
            idx@.len() == f.len(),
            forall|q: int|
                0 <= q < idx@.len() ==> (#[trigger] idx@[q]) < voters@.len() && voters@[idx@[q] as int]
                    == f[q],
            n <= idx@.len(),
            j <= n,
            r@.len() == j,
            dir == OrderBy::Asc ==> forall|q: int|
                0 <= q < j ==> (#[trigger] r@[q]) == (f[q].1, f[q].2),
            dir == OrderBy::Desc ==> forall|q: int|
                0 <= q < j ==> (#[trigger] r@[q]) == (f[f.len() - 1 - q].1, f[f.len() - 1 - q].2),
        decreases n - j,
    {
        let pos = if dir == OrderBy::Asc {
            idx[j]
        } else {
            idx[idx.len() - 1 - j]
        };
        r.push((voters[pos].1.clone(), voters[pos].2));
        j = j + 1;
    }
    r
}

/// The configuration, with the secondary token when one is registered.
pub fn query_config(gov: &Governance) -> (r: ConfigResponse)
    ensures
        r.owner == gov.config.owner,
        r.psi_token == gov.config.psi_token,
        r.quorum == gov.config.quorum,
        r.threshold == gov.config.threshold,
        r.voting_period == gov.config.voting_period,
        r.timelock_period == gov.config.timelock_period,
        r.proposal_deposit == gov.config.proposal_deposit,
        r.snapshot_period == gov.config.snapshot_period,
        r.utility_token == (match gov.utility {
            Some(u) => Some(u.token),
            None => None::<String>,
        }),
{
    ConfigResponse {
        owner: gov.config.owner.clone(),
        psi_token: gov.config.psi_token.clone(),
        quorum: gov.config.quorum,
        threshold: gov.config.threshold,
        voting_period: gov.config.voting_period,
        timelock_period: gov.config.timelock_period,
        proposal_deposit: gov.config.proposal_deposit,
        snapshot_period: gov.config.snapshot_period,
        utility_token: match &gov.utility {
            Some(u) => Some(u.token.clone()),
            None => None,
        },
    }
}

/// The global counters.
pub fn query_state(gov: &Governance) -> (r: StateResponse)
    ensures
        r.poll_count == gov.state.poll_count,
        r.total_share == gov.state.total_share,
        r.total_deposit == gov.state.total_deposit,
{
    StateResponse {
        poll_count: gov.state.poll_count,
        total_share: gov.state.total_share,
        total_deposit: gov.state.total_deposit,
    }
}

/// One poll, field for field.
pub fn query_poll(gov: &Governance, poll_id: u64) -> (r: Result<PollResponse, GovError>)
    requires
        gov.wf(),
    ensures
        r is Err <==> !gov.polls_view().contains_key(poll_id),
        r is Err ==> r == Err::<PollResponse, GovError>(GovError::PollNotFound),
        r matches Ok(resp) ==> poll_resp_eqv(resp, gov.polls_view()[poll_id]),
{
    match crate::store::may_load_poll(&gov.polls, poll_id) {
        Some(p) => Ok(poll_to_response(p)),
        None => Err(GovError::PollNotFound),
    }
}

/// A page of polls, as `read_polls` ranges them.
pub fn query_polls(
    gov: &Governance,
    filter: Option<PollStatus>,
    start_after: Option<u64>,
    limit: Option<u32>,
    order_by: Option<OrderBy>,
) -> (r: PollsResponse)
    ensures
        ({
            let dir = spec_direction(order_by);
            let f = poll_filter(gov.polls@, filter, start_after, dir);
            let n = if spec_limit(limit) < f.len() {
                spec_limit(limit)
            } else {
                f.len() as int
            };
            &&& r.polls@.len() == n
            &&& (dir == OrderBy::Asc ==> forall|j: int|
                0 <= j < n ==> poll_resp_eqv(#[trigger] r.polls@[j], f[j]))
            &&& (dir == OrderBy::Desc ==> forall|j: int|
                0 <= j < n ==> poll_resp_eqv(#[trigger] r.polls@[j], f[f.len() - 1 - j]))
        }),
{
    let dir = if order_by_is_asc(&order_by) {
        OrderBy::Asc
    } else {
        OrderBy::Desc
    };
    let idx = collect_poll_indices(&gov.polls, &filter, start_after, dir);
    let lim = effective_limit(limit);
    let n = if lim < idx.len() {
        lim
    } else {
        idx.len()
    };
    let mut out: Vec<PollResponse> = Vec::new();
    let ghost f = poll_filter(gov.polls@, filter, start_after, dir);
    let mut j: usize = 0;
    while j < n
        invariant
            f == poll_filter(gov.polls@, filter, start_after, dir),
            idx@.len() == f.len(),
            forall|q: int|
                0 <= q < idx@.len() ==> (#[trigger] idx@[q]) < gov.polls@.len()
                    && gov.polls@[idx@[q] as int] == f[q],
            n <= idx@.len(),
            j <= n,
            out@.len() == j,
            dir == OrderBy::Asc ==> forall|q: int|
                0 <= q < j ==> poll_resp_eqv(#[trigger] out@[q], f[q]),
            dir == OrderBy::Desc ==> forall|q: int|
                0 <= q < j ==> poll_resp_eqv(#[trigger] out@[q], f[f.len() - 1 - q]),
        decreases n - j,
    {
        let pos = if dir == OrderBy::Asc {
            idx[j]
        } else {
            idx[idx.len() - 1 - j]
        };
        out.push(poll_to_response(&gov.polls[pos]));
        j = j + 1;
    }
    PollsResponse { polls: out }
}

/// A page of a poll's voters. Once the poll has left `InProgress` the
/// listing is empty: its records are pruned lazily and no longer served.
pub fn query_voters(
    gov: &Governance,
    poll_id: u64,
    start_after: Option<String>,
    limit: Option<u32>,
    order_by: Option<OrderBy>,
) -> (r: Result<VotersResponse, GovError>)
    requires
        gov.wf(),
    ensures
        r is Err <==> !gov.polls_view().contains_key(poll_id),
        r is Err ==> r == Err::<VotersResponse, GovError>(GovError::PollNotFound),
        r matches Ok(resp) ==> ({
            let dir = spec_direction(order_by);
            let f = voter_filter(gov.poll_voters@, poll_id, start_after, dir);
            let n = if spec_limit(limit) < f.len() {
                spec_limit(limit)
            } else {
                f.len() as int
            };
            if gov.polls_view()[poll_id].status != PollStatus::InProgress {
                resp.voters@.len() == 0
            } else {
                &&& resp.voters@.len() == n
                &&& (dir == OrderBy::Asc ==> forall|j: int|
                    0 <= j < n ==> (#[trigger] resp.voters@[j]).voter == f[j].1
                        && resp.voters@[j].vote == f[j].2.vote && resp.voters@[j].balance
                        == f[j].2.balance)
                &&& (dir == OrderBy::Desc ==> forall|j: int|
                    0 <= j < n ==> (#[trigger] resp.voters@[j]).voter == f[f.len() - 1 - j].1
                        && resp.voters@[j].vote == f[f.len() - 1 - j].2.vote
                        && resp.voters@[j].balance == f[f.len() - 1 - j].2.balance)
            }
        }),
{
    let in_progress: bool = match crate::store::may_load_poll(&gov.polls, poll_id) {
        Some(p) => p.status == PollStatus::InProgress,
        None => {
            return Err(GovError::PollNotFound);
        },
    };
    if !in_progress {
        let voters: Vec<VotersResponseItem> = Vec::new();
        return Ok(VotersResponse { voters });
    }
    let page = read_poll_voters(&gov.poll_voters, poll_id, start_after, limit, order_by);
    let mut voters: Vec<VotersResponseItem> = Vec::new();
    let mut j: usize = 0;
    let ghost pv = page@;
    while j < page.len()
        invariant
            page@ == pv,
            j <= pv.len(),
            voters@.len() == j,
            forall|q: int|
                0 <= q < j ==> (#[trigger] voters@[q]).voter == pv[q].0 && voters@[q].vote
                    == pv[q].1.vote && voters@[q].balance == pv[q].1.balance,
        decreases pv.len() - j,
    {
        voters.push(
            VotersResponseItem {
                voter: page[j].0.clone(),
                vote: page[j].1.vote,
                balance: page[j].1.balance,
            },
        );
        j = j + 1;
    }
    Ok(VotersResponse { voters })
}

/// The amount of the secondary token locked for this holder.
pub fn query_utility_lock(gov: &Governance, address: &str) -> (r: u128)
    ensures
        r == crate::store::utility_lock_of(gov.utility_locks@, skey(address@)),
{
    gov.load_locked_tokens_for_utility(address)
}

/// A holder's current position: the token balance its shares are worth,
/// the shares themselves, and the locks that still back active votes.
pub fn query_staker(gov: &Governance, address: &String, token_balance: u128) -> (r: Result<
    StakerResponse,
    GovError,
>)
    requires
        gov.wf(),
    ensures
        r is Err <==> token_balance < gov.state.total_deposit,
        r is Err ==> r == Err::<StakerResponse, GovError>(GovError::Overflow),
        r matches Ok(resp) ==> ({
            let k = skey(address@);
            let share = if gov.bank_view().contains_key(k) {
                gov.bank_view()[k].share
            } else {
                0u128
            };
            let locked = if gov.bank_view().contains_key(k) {
                gov.bank_view()[k].locked_balance@
            } else {
                Seq::<(u64, VoterInfo)>::empty()
            };
            &&& resp.share == share
            &&& resp.locked_balance@ == crate::commands::retained_locks(
                locked,
                polls_map(gov.polls@),
            )
            &&& resp.balance == (if gov.state.total_share == 0 {
                0int
            } else {
                ratio_floor(
                    share,
                    (token_balance - gov.state.total_deposit) as u128,
                    gov.state.total_share,
                )
            })
        }),
{
    if token_balance < gov.state.total_deposit {
        return Err(GovError::Overflow);
    }
    let total_balance = token_balance - gov.state.total_deposit;
    let mut tm = load_bank(&gov.bank, address.as_str());
    proof {
        if bank_map(gov.bank@).contains_key(skey(address@)) {
            lemma_bank_map_attained(gov.bank@, skey(address@));
            lemma_bank_map_share_bound(gov.bank@, skey(address@));
            let i = choose|i: int|
                0 <= i < gov.bank@.len() && abytes(#[trigger] gov.bank@[i].0) == skey(address@)
                    && gov.bank@[i].1 == bank_map(gov.bank@)[skey(address@)];
            assert(forall|j: int|
                0 <= j < tm.locked_balance@.len() ==> polls_map(gov.polls@).contains_key(
                    #[trigger] tm.locked_balance@[j].0,
                ));
        }
    }
    let share = tm.share;
    let _largest = crate::commands::compute_locked_balance(&gov.polls, &mut tm);
    let balance: u128 = if gov.state.total_share == 0 {
        0
    } else {
        proof {
            vstd::arithmetic::mul::lemma_mul_inequality(
                share as int,
                gov.state.total_share as int,
                total_balance as int,
            );
            vstd::arithmetic::div_mod::lemma_div_is_ordered(
                share * total_balance,
                gov.state.total_share * total_balance,
                gov.state.total_share as int,
            );
            vstd::arithmetic::div_mod::lemma_div_multiples_vanish(
                total_balance as int,
                gov.state.total_share as int,
            );
        }
        match checked_mul_ratio(share, total_balance, gov.state.total_share) {
            Ok(v) => v,
            Err(_) => 0,
        }
    };
    Ok(StakerResponse { balance, share, locked_balance: tm.locked_balance })
}

} // verus!
