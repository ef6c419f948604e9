use vstd::prelude::*;

use crate::keys::{lex_lt, str_bytes_eq, str_bytes_lt};
use crate::error::GovError;
use crate::types::{Config, Poll, PollStatus, State, TokenManager, Utility, VoterInfo};

verus! {

/// The byte string under which an address is keyed: its UTF-8 encoding.
pub open spec fn abytes(a: String) -> Seq<u8> {
    vstd::utf8::encode_utf8(a@)
}

// ---------------------------------------------------------------------------
// Stake accounts ("bank"): an association table keyed by holder address.
// ---------------------------------------------------------------------------
/// The bank table as a map from address bytes to accounts.
pub open spec fn bank_map(s: Seq<(String, TokenManager)>) -> Map<Seq<u8>, TokenManager>
    decreases s.len(),
{
    if s.len() == 0 {
        Map::empty()
    } else {
        bank_map(s.drop_last()).insert(abytes(s.last().0), s.last().1)
    }
}

/// No two entries are stored under the same address.
pub open spec fn bank_keys_distinct(s: Seq<(String, TokenManager)>) -> bool {
    forall|i: int, j: int|
        0 <= i < j < s.len() ==> abytes(s[i].0) != abytes(s[j].0)
}

/// The sum of all holders' shares.
pub open spec fn sum_shares(s: Seq<(String, TokenManager)>) -> int
    decreases s.len(),
{
    if s.len() == 0 {
        0
    } else {
        sum_shares(s.drop_last()) + s.last().1.share
    }
}

pub proof fn lemma_bank_map_index(s: Seq<(String, TokenManager)>, i: int)
    requires
        bank_keys_distinct(s),
        0 <= i < s.len(),
    ensures
        bank_map(s).contains_key(abytes(s[i].0)),
        bank_map(s)[abytes(s[i].0)] == s[i].1,
    decreases s.len(),
{
    if i < s.len() - 1 {
        lemma_bank_map_index(s.drop_last(), i);
    }
}

pub proof fn lemma_bank_map_absent(s: Seq<(String, TokenManager)>, k: Seq<u8>)
    requires
        forall|j: int| 0 <= j < s.len() ==> abytes(s[j].0) != k,
    ensures
        !bank_map(s).contains_key(k),
    decreases s.len(),
{
    if s.len() > 0 {
        lemma_bank_map_absent(s.drop_last(), k);
    }
}

pub proof fn lemma_bank_map_update(s: Seq<(String, TokenManager)>, i: int, v: TokenManager)
    requires
        bank_keys_distinct(s),
        0 <= i < s.len(),
    ensures
        bank_map(s.update(i, (s[i].0, v))) =~= bank_map(s).insert(abytes(s[i].0), v),
        bank_keys_distinct(s.update(i, (s[i].0, v))),
    decreases s.len(),
{
    let t = s.update(i, (s[i].0, v));
    assert forall|x: int, y: int| 0 <= x < y < t.len() implies abytes(t[x].0) != abytes(
        t[y].0,
    ) by {
        assert(t[x].0 == s[x].0 && t[y].0 == s[y].0);
    }
    if i == s.len() - 1 {
        assert(t.drop_last() =~= s.drop_last());
        assert(bank_map(t) =~= bank_map(s).insert(abytes(s[i].0), v));
    } else {
        lemma_bank_map_update(s.drop_last(), i, v);
        assert(t.drop_last() =~= s.drop_last().update(i, (s[i].0, v)));
        assert(t.last() == s.last());
        assert(abytes(s[i].0) != abytes(s.last().0));
        assert(bank_map(t) =~= bank_map(s).insert(abytes(s[i].0), v));
    }
}

pub proof fn lemma_bank_map_push(s: Seq<(String, TokenManager)>, a: String, v: TokenManager)
    requires
        forall|j: int| 0 <= j < s.len() ==> abytes(s[j].0) != abytes(a),
    ensures
        bank_map(s.push((a, v))) =~= bank_map(s).insert(abytes(a), v),
        bank_keys_distinct(s) ==> bank_keys_distinct(s.push((a, v))),
{
    assert(s.push((a, v)).drop_last() =~= s);
    if bank_keys_distinct(s) {
        let t = s.push((a, v));
        assert forall|x: int, y: int| 0 <= x < y < t.len() implies abytes(t[x].0) != abytes(
            t[y].0,
        ) by {
            if y < s.len() {
                assert(t[x].0 == s[x].0 && t[y].0 == s[y].0);
            } else {
                assert(t[x].0 == s[x].0 && t[y] == (a, v));
            }
        }
    }
}

/// Every value in the bank map is stored at some table index.
pub proof fn lemma_bank_map_attained(s: Seq<(String, TokenManager)>, k: Seq<u8>)
    requires
        bank_keys_distinct(s),
        bank_map(s).contains_key(k),
    ensures
        exists|i: int|
            0 <= i < s.len() && abytes(#[trigger] s[i].0) == k && s[i].1 == bank_map(s)[k],
    decreases s.len(),
{
    if s.len() > 0 {
        if abytes(s.last().0) == k {
            assert(abytes(s[s.len() - 1].0) == k && s[s.len() - 1].1 == bank_map(s)[k]);
        } else {
            lemma_bank_map_attained(s.drop_last(), k);
            let i = choose|i: int|
                0 <= i < s.drop_last().len() && abytes(#[trigger] s.drop_last()[i].0) == k
                    && s.drop_last()[i].1 == bank_map(s.drop_last())[k];
            assert(abytes(s[i].0) == k && s[i].1 == bank_map(s)[k]);
        }
    }
}

/// No account holds more shares than the recorded total.
pub proof fn lemma_bank_map_share_bound(s: Seq<(String, TokenManager)>, k: Seq<u8>)
    requires
        bank_keys_distinct(s),
        bank_map(s).contains_key(k),
    ensures
        bank_map(s)[k].share <= sum_shares(s),
{
    lemma_bank_map_attained(s, k);
    let i = choose|i: int|
        0 <= i < s.len() && abytes(#[trigger] s[i].0) == k && s[i].1 == bank_map(s)[k];
    lemma_sum_shares_element_bound(s, i);
}

pub proof fn lemma_sum_shares_update(s: Seq<(String, TokenManager)>, i: int, v: TokenManager)
    requires
        0 <= i < s.len(),
    ensures
        sum_shares(s.update(i, (s[i].0, v))) == sum_shares(s) - s[i].1.share + v.share,
    decreases s.len(),
{
    let t = s.update(i, (s[i].0, v));
    if i == s.len() - 1 {
        assert(t.drop_last() =~= s.drop_last());
    } else {
        lemma_sum_shares_update(s.drop_last(), i, v);
        assert(t.drop_last() =~= s.drop_last().update(i, (s[i].0, v)));
        assert(t.last() == s.last());
    }
}

pub proof fn lemma_sum_shares_push(s: Seq<(String, TokenManager)>, a: String, v: TokenManager)
    ensures
        sum_shares(s.push((a, v))) == sum_shares(s) + v.share,
{
    assert(s.push((a, v)).drop_last() =~= s);
}

pub proof fn lemma_sum_shares_nonneg(s: Seq<(String, TokenManager)>)
    ensures
        sum_shares(s) >= 0,
    decreases s.len(),
{
    if s.len() > 0 {
        lemma_sum_shares_nonneg(s.drop_last());
    }
}

/// No single account holds more shares than the sum over all accounts.
pub proof fn lemma_sum_shares_element_bound(s: Seq<(String, TokenManager)>, i: int)
    requires
        0 <= i < s.len(),
    ensures
        s[i].1.share <= sum_shares(s),
    decreases s.len(),
{
    if i == s.len() - 1 {
        lemma_sum_shares_nonneg(s.drop_last());
    } else {
        lemma_sum_shares_element_bound(s.drop_last(), i);
    }
}

// ---------------------------------------------------------------------------
// The poll table: kept strictly sorted by id.
// ---------------------------------------------------------------------------
/// The poll table as a map from id to poll.
pub open spec fn polls_map(s: Seq<Poll>) -> Map<u64, Poll>
    decreases s.len(),
{
    if s.len() == 0 {
        Map::empty()
    } else {
        polls_map(s.drop_last()).insert(s.last().id, s.last())
    }
}

/// Ids strictly increase along the table.
pub open spec fn polls_sorted(s: Seq<Poll>) -> bool {
    forall|i: int, j: int| 0 <= i < j < s.len() ==> s[i].id < s[j].id
}

pub proof fn lemma_polls_map_index(s: Seq<Poll>, i: int)
    requires
        polls_sorted(s),
        0 <= i < s.len(),
    ensures
        polls_map(s).contains_key(s[i].id),
        polls_map(s)[s[i].id] == s[i],
    decreases s.len(),
{
    if i < s.len() - 1 {
        lemma_polls_map_index(s.drop_last(), i);
    }
}

pub proof fn lemma_polls_map_absent(s: Seq<Poll>, id: u64)
    requires
        forall|j: int| 0 <= j < s.len() ==> s[j].id != id,
    ensures
        !polls_map(s).contains_key(id),
    decreases s.len(),
{
    if s.len() > 0 {
        lemma_polls_map_absent(s.drop_last(), id);
    }
}

pub proof fn lemma_polls_map_update(s: Seq<Poll>, i: int, p: Poll)
    requires
        polls_sorted(s),
        0 <= i < s.len(),
        p.id == s[i].id,
    ensures
        polls_map(s.update(i, p)) =~= polls_map(s).insert(p.id, p),
        polls_sorted(s.update(i, p)),
    decreases s.len(),
{
    let t = s.update(i, p);
    if i == s.len() - 1 {
        assert(t.drop_last() =~= s.drop_last());
        assert(polls_map(t) =~= polls_map(s).insert(p.id, p));
    } else {
        lemma_polls_map_update(s.drop_last(), i, p);
        assert(t.drop_last() =~= s.drop_last().update(i, p));
        assert(t.last() == s.last());
        assert(polls_map(t) =~= polls_map(s).insert(p.id, p));
    }
}

pub proof fn lemma_polls_map_insert(s: Seq<Poll>, i: int, p: Poll)
    requires
        polls_sorted(s),
        0 <= i <= s.len(),
        forall|j: int| 0 <= j < i ==> s[j].id < p.id,
        forall|j: int| i <= j < s.len() ==> p.id < s[j].id,
    ensures
        polls_map(s.insert(i, p)) =~= polls_map(s).insert(p.id, p),
        polls_sorted(s.insert(i, p)),
    decreases s.len(),
{
    let t = s.insert(i, p);
    assert forall|x: int, y: int| 0 <= x < y < t.len() implies t[x].id < t[y].id by {
        if x < i && y < i {
            assert(t[x] == s[x] && t[y] == s[y]);
        } else if x < i && y == i {
            assert(t[x] == s[x] && t[y] == p);
        } else if x < i && y > i {
            assert(t[x] == s[x] && t[y] == s[y - 1]);
        } else if x == i && y > i {
            assert(t[x] == p && t[y] == s[y - 1]);
        } else if x > i && y > i {
            assert(t[x] == s[x - 1] && t[y] == s[y - 1]);
        }
    }
    if i == s.len() {
        assert(t.drop_last() =~= s);
    } else {
        lemma_polls_map_insert(s.drop_last(), i, p);
        assert(t.drop_last() =~= s.drop_last().insert(i, p));
        assert(t.last() == s.last());
        assert(p.id != s.last().id);
        assert(polls_map(t) =~= polls_map(s).insert(p.id, p));
    }
}

// ---------------------------------------------------------------------------
// Vote records: keyed by (poll id, voter address), kept strictly sorted.
// ---------------------------------------------------------------------------
/// The key of a vote record.
pub open spec fn vkey(e: (u64, String, VoterInfo)) -> (u64, Seq<u8>) {
    (e.0, abytes(e.1))
}

/// Strict order on vote-record keys: by poll id, then by address bytes.
pub open spec fn vkey_lt(a: (u64, Seq<u8>), b: (u64, Seq<u8>)) -> bool {
    a.0 < b.0 || (a.0 == b.0 && lex_lt(a.1, b.1))
}

pub open spec fn voters_sorted(s: Seq<(u64, String, VoterInfo)>) -> bool {
    forall|i: int, j: int| 0 <= i < j < s.len() ==> vkey_lt(vkey(s[i]), vkey(s[j]))
}

/// The vote records as a map from key to record.
pub open spec fn voters_map(s: Seq<(u64, String, VoterInfo)>) -> Map<(u64, Seq<u8>), VoterInfo>
    decreases s.len(),
{
    if s.len() == 0 {
        Map::empty()
    } else {
        voters_map(s.drop_last()).insert(vkey(s.last()), s.last().2)
    }
}

/// An ordered pair of keys is never equal.
pub proof fn lemma_vkey_lt_ne(a: (u64, Seq<u8>), b: (u64, Seq<u8>))
    requires
        vkey_lt(a, b),
    ensures
        a != b,
{
    crate::keys::lemma_lex_lt_irreflexive(a.1);
}

pub proof fn lemma_voters_map_index(s: Seq<(u64, String, VoterInfo)>, i: int)
    requires
        voters_sorted(s),
        0 <= i < s.len(),
    ensures
        voters_map(s).contains_key(vkey(s[i])),
        voters_map(s)[vkey(s[i])] == s[i].2,
    decreases s.len(),
{
    if i < s.len() - 1 {
        lemma_vkey_lt_ne(vkey(s[i]), vkey(s.last()));
        lemma_voters_map_index(s.drop_last(), i);
    }
}

pub proof fn lemma_voters_map_absent(s: Seq<(u64, String, VoterInfo)>, k: (u64, Seq<u8>))
    requires
        forall|j: int| 0 <= j < s.len() ==> vkey(s[j]) != k,
    ensures
        !voters_map(s).contains_key(k),
    decreases s.len(),
{
    if s.len() > 0 {
        lemma_voters_map_absent(s.drop_last(), k);
    }
}

pub proof fn lemma_voters_map_insert(s: Seq<(u64, String, VoterInfo)>, i: int, e: (u64, String, VoterInfo))
    requires
        voters_sorted(s),
        0 <= i <= s.len(),
        forall|j: int| 0 <= j < i ==> vkey_lt(vkey(s[j]), vkey(e)),
        forall|j: int| i <= j < s.len() ==> vkey_lt(vkey(e), vkey(s[j])),
    ensures
        voters_map(s.insert(i, e)) =~= voters_map(s).insert(vkey(e), e.2),
        voters_sorted(s.insert(i, e)),
    decreases s.len(),
{
    let t = s.insert(i, e);
    assert forall|x: int, y: int| 0 <= x < y < t.len() implies vkey_lt(vkey(t[x]), vkey(t[y])) by {
        if x < i && y < i {
            assert(t[x] == s[x] && t[y] == s[y]);
        } else if x < i && y == i {
            assert(t[x] == s[x] && t[y] == e);
        } else if x < i && y > i {
            assert(t[x] == s[x] && t[y] == s[y - 1]);
        } else if x == i && y > i {
            assert(t[x] == e && t[y] == s[y - 1]);
        } else if x > i && y > i {
            assert(t[x] == s[x - 1] && t[y] == s[y - 1]);
        }
    }
    if i == s.len() {
        assert(t.drop_last() =~= s);
    } else {
        lemma_voters_map_insert(s.drop_last(), i, e);
        assert(t.drop_last() =~= s.drop_last().insert(i, e));
        assert(t.last() == s.last());
        lemma_vkey_lt_ne(vkey(e), vkey(s.last()));
        assert(voters_map(t) =~= voters_map(s).insert(vkey(e), e.2));
    }
}

pub proof fn lemma_voters_map_remove(s: Seq<(u64, String, VoterInfo)>, i: int)
    requires
        voters_sorted(s),
        0 <= i < s.len(),
    ensures
        voters_map(s.remove(i)) =~= voters_map(s).remove(vkey(s[i])),
        voters_sorted(s.remove(i)),
    decreases s.len(),
{
    let t = s.remove(i);
    assert forall|x: int, y: int| 0 <= x < y < t.len() implies vkey_lt(vkey(t[x]), vkey(t[y])) by {
        if x < i && y < i {
            assert(t[x] == s[x] && t[y] == s[y]);
        } else if x < i && y >= i {
            assert(t[x] == s[x] && t[y] == s[y + 1]);
        } else {
            assert(t[x] == s[x + 1] && t[y] == s[y + 1]);
        }
    }
    if i == s.len() - 1 {
        assert(t =~= s.drop_last());
        assert forall|j: int| 0 <= j < s.drop_last().len() implies vkey(s.drop_last()[j]) != vkey(
            s[i],
        ) by {
            lemma_vkey_lt_ne(vkey(s[j]), vkey(s[i]));
        }
        lemma_voters_map_absent(s.drop_last(), vkey(s[i]));
        assert(voters_map(t) =~= voters_map(s).remove(vkey(s[i])));
    } else {
        lemma_voters_map_remove(s.drop_last(), i);
        assert(t.drop_last() =~= s.drop_last().remove(i));
        assert(t.last() == s.last());
        lemma_vkey_lt_ne(vkey(s[i]), vkey(s.last()));
        assert(voters_map(t) =~= voters_map(s).remove(vkey(s[i])));
    }
}

// ---------------------------------------------------------------------------
// The status index: the denormalized (status, id) table.
// ---------------------------------------------------------------------------
/// The index as the set of its entries.
pub open spec fn idx_set(s: Seq<(PollStatus, u64)>) -> Set<(PollStatus, u64)>
    decreases s.len(),
{
    if s.len() == 0 {
        Set::empty()
    } else {
        idx_set(s.drop_last()).insert(s.last())
    }
}

pub open spec fn idx_distinct(s: Seq<(PollStatus, u64)>) -> bool {
    forall|i: int, j: int| 0 <= i < j < s.len() ==> s[i] != s[j]
}

pub proof fn lemma_idx_set_index(s: Seq<(PollStatus, u64)>, i: int)
    requires
        0 <= i < s.len(),
    ensures
        idx_set(s).contains(s[i]),
    decreases s.len(),
{
    if i < s.len() - 1 {
        lemma_idx_set_index(s.drop_last(), i);
    }
}

pub proof fn lemma_idx_set_absent(s: Seq<(PollStatus, u64)>, e: (PollStatus, u64))
    requires
        forall|j: int| 0 <= j < s.len() ==> s[j] != e,
    ensures
        !idx_set(s).contains(e),
    decreases s.len(),
{
    if s.len() > 0 {
        lemma_idx_set_absent(s.drop_last(), e);
    }
}

pub proof fn lemma_idx_set_push(s: Seq<(PollStatus, u64)>, e: (PollStatus, u64))
    ensures
        idx_set(s.push(e)) =~= idx_set(s).insert(e),
{
    assert(s.push(e).drop_last() =~= s);
}

pub proof fn lemma_idx_set_remove(s: Seq<(PollStatus, u64)>, i: int)
    requires
        idx_distinct(s),
        0 <= i < s.len(),
    ensures
        idx_set(s.remove(i)) =~= idx_set(s).remove(s[i]),
        idx_distinct(s.remove(i)),
    decreases s.len(),
{
    let t = s.remove(i);
    assert forall|x: int, y: int| 0 <= x < y < t.len() implies t[x] != t[y] by {
        if x < i && y < i {
            assert(t[x] == s[x] && t[y] == s[y]);
        } else if x < i && y >= i {
            assert(t[x] == s[x] && t[y] == s[y + 1]);
        } else {
            assert(t[x] == s[x + 1] && t[y] == s[y + 1]);
        }
    }
    if i == s.len() - 1 {
        assert(t =~= s.drop_last());
        lemma_idx_set_absent(s.drop_last(), s[i]);
        assert(idx_set(t) =~= idx_set(s).remove(s[i]));
    } else {
        lemma_idx_set_remove(s.drop_last(), i);
        assert(t.drop_last() =~= s.drop_last().remove(i));
        assert(t.last() == s.last());
        assert(idx_set(t) =~= idx_set(s).remove(s[i]));
    }
}

// ---------------------------------------------------------------------------
// Key-order helpers shared by the tables.
// ---------------------------------------------------------------------------
/// The byte key of a string of characters.
pub open spec fn skey(s: Seq<char>) -> Seq<u8> {
    vstd::utf8::encode_utf8(s)
}

pub proof fn lemma_vkey_lt_total(a: (u64, Seq<u8>), b: (u64, Seq<u8>))
    ensures
        vkey_lt(a, b) || vkey_lt(b, a) || a == b,
{
    if a.0 == b.0 {
        crate::keys::lemma_lex_lt_total(a.1, b.1);
    }
}

pub proof fn lemma_vkey_lt_transitive(a: (u64, Seq<u8>), b: (u64, Seq<u8>), c: (u64, Seq<u8>))
    requires
        vkey_lt(a, b),
        vkey_lt(b, c),
    ensures
        vkey_lt(a, c),
{
    if a.0 == b.0 && b.0 == c.0 {
        crate::keys::lemma_lex_lt_transitive(a.1, b.1, c.1);
    }
}

pub proof fn lemma_voters_map_update(s: Seq<(u64, String, VoterInfo)>, i: int, e: (u64, String, VoterInfo))
    requires
        voters_sorted(s),
        0 <= i < s.len(),
        vkey(e) == vkey(s[i]),
    ensures
        voters_map(s.update(i, e)) =~= voters_map(s).insert(vkey(e), e.2),
        voters_sorted(s.update(i, e)),
    decreases s.len(),
{
    let t = s.update(i, e);
    assert forall|x: int, y: int| 0 <= x < y < t.len() implies vkey_lt(vkey(t[x]), vkey(t[y])) by {
        assert(vkey_lt(vkey(s[x]), vkey(s[y])));
    }
    if i == s.len() - 1 {
        assert(t.drop_last() =~= s.drop_last());
        assert(voters_map(t) =~= voters_map(s).insert(vkey(e), e.2));
    } else {
        lemma_voters_map_update(s.drop_last(), i, e);
        assert(t.drop_last() =~= s.drop_last().update(i, e));
        assert(t.last() == s.last());
        lemma_vkey_lt_ne(vkey(s[i]), vkey(s.last()));
        assert(voters_map(t) =~= voters_map(s).insert(vkey(e), e.2));
    }
}

// ---------------------------------------------------------------------------
// The whole persistent state of the engine.
// ---------------------------------------------------------------------------
/// Everything the engine persists: the configuration, the global counters,
/// the poll table with its status index, the stake accounts, the vote
/// records, and the single-slot pending-poll register.
pub struct Governance {
    pub config: Config,
    pub state: State,
    /// Polls, strictly sorted by id.
    pub polls: Vec<Poll>,
    /// The denormalized (status, id) index over `polls`; kept consistent by
    /// reindexing at every status transition.
    pub poll_indexer: Vec<(PollStatus, u64)>,
    /// One stake account per holder address.
    pub bank: Vec<(String, TokenManager)>,
    /// One record per (poll, voter), strictly sorted by that key.
    pub poll_voters: Vec<(u64, String, VoterInfo)>,
    /// The poll whose batch is being dispatched, if any: the dispatcher's
    /// failure callback resolves against this register and clears it. Only
    /// one batch can be in flight at a time because every operation holds
    /// the whole state exclusively; the next dispatch overwrites a slot
    /// that a successful (callback-free) batch left behind.
    pub tmp_poll_id: Option<u64>,
    /// An optional secondary token, with per-holder locked amounts.
    pub utility: Option<Utility>,
    pub utility_locks: Vec<(String, u128)>,
}

impl Governance {
    pub open spec fn polls_view(self) -> Map<u64, Poll> {
        polls_map(self.polls@)
    }

    pub open spec fn bank_view(self) -> Map<Seq<u8>, TokenManager> {
        bank_map(self.bank@)
    }

    pub open spec fn voters_view(self) -> Map<(u64, Seq<u8>), VoterInfo> {
        voters_map(self.poll_voters@)
    }

    pub open spec fn index_view(self) -> Set<(PollStatus, u64)> {
        idx_set(self.poll_indexer@)
    }

    /// The structural invariant every operation preserves. In particular,
    /// the sum of all holders' shares always equals the global
    /// `total_share` counter, and every poll id a vote lock refers to is a
    /// created poll.
    pub open spec fn wf(self) -> bool {
        &&& polls_sorted(self.polls@)
        &&& (forall|i: int|
            0 <= i < self.polls@.len() ==> 1 <= #[trigger] self.polls@[i].id
                <= self.state.poll_count)
        &&& voters_sorted(self.poll_voters@)
        &&& bank_keys_distinct(self.bank@)
        &&& idx_distinct(self.poll_indexer@)
        &&& sum_shares(self.bank@) == self.state.total_share
        &&& (forall|i: int, j: int|
            0 <= i < self.bank@.len() && 0 <= j < self.bank@[i].1.locked_balance@.len()
                ==> self.polls_view().contains_key(
                #[trigger] self.bank@[i].1.locked_balance@[j].0,
            ))
    }

    /// The secondary index and the poll table agree: an entry (status, id)
    /// is indexed exactly when the poll with that id has that status.
    pub open spec fn index_consistent(self) -> bool {
        forall|e: (PollStatus, u64)|
            #[trigger] self.index_view().contains(e) <==> (self.polls_view().contains_key(e.1)
                && self.polls_view()[e.1].status == e.0)
    }
}

impl Governance {
    pub fn load_config(&self) -> (r: &Config)
        ensures
            r == self.config,
    {
        &self.config
    }

    pub fn store_config(&mut self, config: Config)
        ensures
            *final(self) == (Governance { config, ..*old(self) }),
    {
        self.config = config;
    }

    pub fn load_state(&self) -> (r: State)
        ensures
            r == self.state,
    {
        self.state
    }

    pub fn store_state(&mut self, state: State)
        ensures
            *final(self) == (Governance { state, ..*old(self) }),
    {
        self.state = state;
    }

    pub fn store_tmp_poll_id(&mut self, tmp_poll_id: u64)
        ensures
            *final(self) == (Governance { tmp_poll_id: Some(tmp_poll_id), ..*old(self) }),
    {
        self.tmp_poll_id = Some(tmp_poll_id);
    }

    pub fn load_tmp_poll_id(&self) -> (r: Option<u64>)
        ensures
            r == self.tmp_poll_id,
    {
        self.tmp_poll_id
    }

    pub fn load_utility(&self) -> (r: &Option<Utility>)
        ensures
            r == self.utility,
    {
        &self.utility
    }

    pub fn store_utility(&mut self, utility: Utility)
        ensures
            *final(self) == (Governance { utility: Some(utility), ..*old(self) }),
    {
        self.utility = Some(utility);
    }

    pub fn remove_utility(&mut self)
        ensures
            *final(self) == (Governance { utility: None::<Utility>, ..*old(self) }),
    {
        self.utility = None;
    }

    /// The amount of the secondary token locked for this holder; zero when
    /// none was recorded.
    pub fn load_locked_tokens_for_utility(&self, addr: &str) -> (r: u128)
        ensures
            r == utility_lock_of(self.utility_locks@, skey(addr@)),
    {
        let ghost s = self.utility_locks@;
        let ghost k = skey(addr@);
        let mut i: usize = self.utility_locks.len();
        proof {
            lemma_utility_lock_suffix(s, k, s.len() as int);
        }
        while i > 0
            invariant
                s == self.utility_locks@,
                k == skey(addr@),
                i <= s.len(),
                utility_lock_of(s, k) == utility_lock_of(s.take(i as int), k),
            decreases i,
        {
            if str_bytes_eq(self.utility_locks[i - 1].0.as_str(), addr) {
                proof {
                    assert(s.take(i as int).last() == s[i - 1]);
                }
                return self.utility_locks[i - 1].1;
            }
            proof {
                assert(s.take(i as int).drop_last() =~= s.take(i - 1));
                assert(s.take(i as int).last() == s[i - 1]);
            }
            i = i - 1;
        }
        proof {
            assert(s.take(0) =~= Seq::<(String, u128)>::empty());
        }
        0
    }

    /// Records the locked amount of the secondary token for this holder.
    pub fn store_locked_tokens_for_utility(&mut self, addr: &String, amount: u128)
        ensures
            final(self).config == old(self).config,
            final(self).state == old(self).state,
            final(self).polls == old(self).polls,
            final(self).poll_indexer == old(self).poll_indexer,
            final(self).bank == old(self).bank,
            final(self).poll_voters == old(self).poll_voters,
            final(self).tmp_poll_id == old(self).tmp_poll_id,
            final(self).utility == old(self).utility,
            utility_lock_of(final(self).utility_locks@, skey(addr@)) == amount,
            forall|k: Seq<u8>|
                k != skey(addr@) ==> #[trigger] utility_lock_of(final(self).utility_locks@, k)
                    == utility_lock_of(old(self).utility_locks@, k),
    {
        self.utility_locks.push((addr.clone(), amount));
        proof {
            assert(self.utility_locks@.drop_last() =~= old(self).utility_locks@);
        }
    }

    /// Clears every recorded lock of the secondary token.
    pub fn clear_locked_tokens_for_utility(&mut self)
        ensures
            final(self).config == old(self).config,
            final(self).state == old(self).state,
            final(self).polls == old(self).polls,
            final(self).poll_indexer == old(self).poll_indexer,
            final(self).bank == old(self).bank,
            final(self).poll_voters == old(self).poll_voters,
            final(self).tmp_poll_id == old(self).tmp_poll_id,
            final(self).utility == old(self).utility,
            final(self).utility_locks@.len() == 0,
    {
        self.utility_locks = Vec::new();
    }
}

/// The locked amount of the secondary token stored for this key: the most
/// recently recorded one, zero when none is.
pub open spec fn utility_lock_of(s: Seq<(String, u128)>, k: Seq<u8>) -> u128
    decreases s.len(),
{
    if s.len() == 0 {
        0u128
    } else if abytes(s.last().0) == k {
        s.last().1
    } else {
        utility_lock_of(s.drop_last(), k)
    }
}

proof fn lemma_utility_lock_suffix(s: Seq<(String, u128)>, k: Seq<u8>, i: int)
    requires
        0 <= i <= s.len(),
    ensures
        i == s.len() ==> utility_lock_of(s, k) == utility_lock_of(s.take(i), k),
{
    if i == s.len() {
        assert(s.take(i) =~= s);
    }
}

// ---------------------------------------------------------------------------
// Poll table operations.
// ---------------------------------------------------------------------------
/// Looks a poll up by id.
pub fn may_load_poll(polls: &Vec<Poll>, poll_id: u64) -> (r: Option<&Poll>)
    requires
        polls_sorted(polls@),
    ensures
        r matches Some(p) ==> polls_map(polls@).contains_key(poll_id) && *p == polls_map(polls@)[poll_id] && p.id == poll_id,
        r is None ==> !polls_map(polls@).contains_key(poll_id),
{
    let mut i: usize = 0;
    while i < polls.len()
        invariant
            polls_sorted(polls@),
            i <= polls@.len(),
            forall|j: int| 0 <= j < i ==> polls@[j].id != poll_id,
        decreases polls@.len() - i,
    {
        if polls[i].id == poll_id {
            proof {
                lemma_polls_map_index(polls@, i as int);
            }
            return Some(&polls[i]);
        }
        i = i + 1;
    }
    proof {
        lemma_polls_map_absent(polls@, poll_id);
    }
    None
}

/// Looks a poll up by id, failing when it was never created.
pub fn load_poll(polls: &Vec<Poll>, poll_id: u64) -> (r: Result<&Poll, GovError>)
    requires
        polls_sorted(polls@),
    ensures
        r matches Ok(p) ==> polls_map(polls@).contains_key(poll_id) && *p == polls_map(polls@)[poll_id] && p.id == poll_id,
        r is Err <==> !polls_map(polls@).contains_key(poll_id),
        r is Err ==> r == Err::<&Poll, GovError>(GovError::PollNotFound),
{
    match may_load_poll(polls, poll_id) {
        Some(p) => Ok(p),
        None => Err(GovError::PollNotFound),
    }
}

/// The index at which the poll with this id is stored, if any.
pub fn find_poll_index(polls: &Vec<Poll>, poll_id: u64) -> (r: Option<usize>)
    requires
        polls_sorted(polls@),
    ensures
        r matches Some(i) ==> i < polls@.len() && polls@[i as int].id == poll_id,
        r is None ==> !polls_map(polls@).contains_key(poll_id),
{
    let mut i: usize = 0;
    while i < polls.len()
        invariant
            polls_sorted(polls@),
            i <= polls@.len(),
            forall|j: int| 0 <= j < i ==> polls@[j].id != poll_id,
        decreases polls@.len() - i,
    {
        if polls[i].id == poll_id {
            return Some(i);
        }
        i = i + 1;
    }
    proof {
        lemma_polls_map_absent(polls@, poll_id);
    }
    None
}

/// Saves a poll under its id, replacing any previous version of it.
pub fn store_poll(polls: &mut Vec<Poll>, poll: Poll)
    requires
        polls_sorted(old(polls)@),
    ensures
        polls_sorted(final(polls)@),
        polls_map(final(polls)@) == polls_map(old(polls)@).insert(poll.id, poll),
        forall|j: int|
            0 <= j < final(polls)@.len() ==> final(polls)@[j] == poll || old(polls)@.contains(
                #[trigger] final(polls)@[j],
            ),
{
    let ghost s = polls@;
    let mut i: usize = 0;
    while i < polls.len() && polls[i].id < poll.id
        invariant
            polls@ == s,
            polls_sorted(s),
            i <= s.len(),
            forall|j: int| 0 <= j < i ==> s[j].id < poll.id,
        decreases polls@.len() - i,
    {
        i = i + 1;
    }
    if i < polls.len() && polls[i].id == poll.id {
        proof {
            lemma_polls_map_update(s, i as int, poll);
        }
        polls.set(i, poll);
        proof {
            assert forall|j: int|
                0 <= j < polls@.len() implies polls@[j] == poll || s.contains(
                #[trigger] polls@[j],
            ) by {
                if j != i {
                    assert(polls@[j] == s[j]);
                }
            }
        }
    } else {
        proof {
            assert forall|j: int| i <= j < s.len() implies poll.id < s[j].id by {
                assert(s[i as int].id <= s[j].id);
            }
            lemma_polls_map_insert(s, i as int, poll);
        }
        polls.insert(i, poll);
        proof {
            assert forall|j: int|
                0 <= j < polls@.len() implies polls@[j] == poll || s.contains(
                #[trigger] polls@[j],
            ) by {
                if j < i {
                    assert(polls@[j] == s[j]);
                } else if j > i {
                    assert(polls@[j] == s[j - 1]);
                }
            }
        }
    }
}

/// A prefix never sums to more than the whole table.
pub proof fn lemma_sum_shares_prefix(s: Seq<(String, TokenManager)>, i: int)
    requires
        0 <= i <= s.len(),
    ensures
        sum_shares(s) >= sum_shares(s.take(i)),
    decreases s.len(),
{
    if i == s.len() {
        assert(s.take(i) =~= s);
    } else {
        lemma_sum_shares_prefix(s.drop_last(), i);
        assert(s.drop_last().take(i) =~= s.take(i));
    }
}

/// Decides whether the holders' shares sum exactly to the recorded total.
/// Meant as an invariant check after any operation.
pub fn check_share_conservation(gov: &Governance) -> (r: bool)
    ensures
        r == (sum_shares(gov.bank@) == gov.state.total_share),
{
    let ghost s = gov.bank@;
    let mut acc: u128 = 0;
    let mut i: usize = 0;
    proof {
        assert(s.take(0) =~= Seq::<(String, TokenManager)>::empty());
    }
    while i < gov.bank.len()
        invariant
            s == gov.bank@,
            i <= s.len(),
            acc == sum_shares(s.take(i as int)),
        decreases s.len() - i,
    {
        let share = gov.bank[i].1.share;
        proof {
            assert(s.take(i + 1 as int).drop_last() =~= s.take(i as int));
            assert(s.take(i + 1 as int).last() == s[i as int]);
        }
        match acc.checked_add(share) {
            Some(v) => {
                acc = v;
            },
            None => {
                proof {
                    lemma_sum_shares_prefix(s, i + 1 as int);
                }
                return false;
            },
        }
        i = i + 1;
    }
    proof {
        assert(s.take(s.len() as int) =~= s);
    }
    acc == gov.state.total_share
}

/// Decides whether the status index and the poll table agree: every index
/// entry names an existing poll in that status, and every poll is indexed
/// under its status. Meant as an invariant check after any operation.
pub fn check_poll_index(gov: &Governance) -> (r: bool)
    requires
        gov.wf(),
    ensures
        r == gov.index_consistent(),
{
    let ghost idx = gov.poll_indexer@;
    let ghost ps = gov.polls@;
    let mut i: usize = 0;
    while i < gov.poll_indexer.len()
        invariant
            gov.wf(),
            idx == gov.poll_indexer@,
            ps == gov.polls@,
            i <= idx.len(),
            forall|j: int|
                0 <= j < i ==> polls_map(ps).contains_key((#[trigger] idx[j]).1) && polls_map(
                    ps,
                )[idx[j].1].status == idx[j].0,
        decreases idx.len() - i,
    {
        let entry_status = gov.poll_indexer[i].0;
        let entry_id = gov.poll_indexer[i].1;
        let ok: bool = match may_load_poll(&gov.polls, entry_id) {
            Some(p) => p.status == entry_status,
            None => false,
        };
        if !ok {
            proof {
                lemma_idx_set_index(idx, i as int);
                assert(gov.index_view().contains(idx[i as int]));
                assert(idx[i as int] == (entry_status, entry_id));
            }
            return false;
        }
        i = i + 1;
    }
    let mut k: usize = 0;
    while k < gov.polls.len()
        invariant
            gov.wf(),
            idx == gov.poll_indexer@,
            ps == gov.polls@,
            k <= ps.len(),
            forall|j: int|
                0 <= j < idx.len() ==> polls_map(ps).contains_key((#[trigger] idx[j]).1)
                    && polls_map(ps)[idx[j].1].status == idx[j].0,
            forall|j: int|
                0 <= j < k ==> idx_set(idx).contains(
                    ((#[trigger] ps[j]).status, ps[j].id),
                ),
        decreases ps.len() - k,
    {
        let want_status = gov.polls[k].status;
        let want_id = gov.polls[k].id;
        let mut found = false;
        let mut j: usize = 0;
        while j < gov.poll_indexer.len()
            invariant
                idx == gov.poll_indexer@,
                j <= idx.len(),
                want_status == ps[k as int].status && want_id == ps[k as int].id,
                k < ps.len(),
                found == exists|q: int|
                    0 <= q < j && idx[q] == (want_status, want_id),
            decreases idx.len() - j,
        {
            if gov.poll_indexer[j].0 == want_status && gov.poll_indexer[j].1 == want_id {
                proof {
                    assert(idx[j as int] == (want_status, want_id));
                }
                found = true;
            }
            j = j + 1;
        }
        if !found {
            proof {
                lemma_polls_map_index(ps, k as int);
                lemma_idx_set_absent(idx, (want_status, want_id));
                assert(polls_map(ps).contains_key(want_id));
                assert(polls_map(ps)[want_id].status == want_status);
                assert(!gov.index_view().contains((want_status, want_id)));
            }
            return false;
        }
        proof {
            let q = choose|q: int| 0 <= q < idx.len() && idx[q] == (want_status, want_id);
            lemma_idx_set_index(idx, q);
        }
        k = k + 1;
    }
    proof {
        assert forall|e: (PollStatus, u64)| #[trigger]
            gov.index_view().contains(e) implies (gov.polls_view().contains_key(e.1)
            && gov.polls_view()[e.1].status == e.0) by {
            lemma_idx_set_attained(idx, e);
        }
        assert forall|e: (PollStatus, u64)|
            gov.polls_view().contains_key(e.1) && gov.polls_view()[e.1].status
                == e.0 implies #[trigger] gov.index_view().contains(e) by {
            lemma_polls_map_attained(ps, e.1);
            let w = choose|w: int| 0 <= w < ps.len() && ps[w].id == e.1 && ps[w] == polls_map(ps)[e.1];
            assert(idx_set(idx).contains((ps[w].status, ps[w].id)));
        }
    }
    true
}

/// Every member of the index set is stored at some position.
pub proof fn lemma_idx_set_attained(s: Seq<(PollStatus, u64)>, e: (PollStatus, u64))
    requires
        idx_set(s).contains(e),
    ensures
        exists|i: int| 0 <= i < s.len() && s[i] == e,
    decreases s.len(),
{
    if s.len() > 0 {
        if s.last() == e {
            assert(s[s.len() - 1] == e);
        } else {
            lemma_idx_set_attained(s.drop_last(), e);
            let i = choose|i: int| 0 <= i < s.drop_last().len() && s.drop_last()[i] == e;
            assert(s[i] == e);
        }
    }
}

/// Every key of the poll map is stored at some position.
pub proof fn lemma_polls_map_attained(s: Seq<Poll>, id: u64)
    requires
        polls_map(s).contains_key(id),
    ensures
        exists|i: int| 0 <= i < s.len() && s[i].id == id && s[i] == polls_map(s)[id],
    decreases s.len(),
{
    if s.len() > 0 {
        if s.last().id == id {
            assert(s[s.len() - 1].id == id && s[s.len() - 1] == polls_map(s)[id]);
        } else {
            lemma_polls_map_attained(s.drop_last(), id);
            let i = choose|i: int|
                0 <= i < s.drop_last().len() && s.drop_last()[i].id == id && s.drop_last()[i]
                    == polls_map(s.drop_last())[id];
            assert(s[i].id == id && s[i] == polls_map(s)[id]);
        }
    }
}

// ---------------------------------------------------------------------------
// Bank operations.
// ---------------------------------------------------------------------------
/// Copies a lock list.
pub fn copy_locked(v: &Vec<(u64, VoterInfo)>) -> (r: Vec<(u64, VoterInfo)>)
    ensures
        r@ == v@,
{
    let mut r: Vec<(u64, VoterInfo)> = Vec::new();
    let mut i: usize = 0;
    while i < v.len()
        invariant
            i <= v@.len(),
            r@ == v@.subrange(0, i as int),
        decreases v@.len() - i,
    {
        r.push(v[i]);
        proof {
            assert(r@ =~= v@.subrange(0, i + 1 as int));
        }
        i = i + 1;
    }
    proof {
        assert(v@.subrange(0, v@.len() as int) =~= v@);
    }
    r
}

/// Copies a byte payload.
pub fn copy_bytes(v: &Vec<u8>) -> (r: Vec<u8>)
    ensures
        r@ == v@,
{
    vstd::slice::slice_to_vec(v.as_slice())
}

/// The index of a holder's account, if one exists.
pub fn find_bank_index(bank: &Vec<(String, TokenManager)>, addr: &str) -> (r: Option<usize>)
    ensures
        r matches Some(i) ==> i < bank@.len() && abytes(bank@[i as int].0) == skey(addr@),
        r is None ==> !bank_map(bank@).contains_key(skey(addr@)) && (forall|j: int|
            0 <= j < bank@.len() ==> abytes(bank@[j].0) != skey(addr@)),
{
    let mut i: usize = 0;
    while i < bank.len()
        invariant
            i <= bank@.len(),
            forall|j: int| 0 <= j < i ==> abytes(bank@[j].0) != skey(addr@),
        decreases bank@.len() - i,
    {
        if str_bytes_eq(bank[i].0.as_str(), addr) {
            return Some(i);
        }
        i = i + 1;
    }
    proof {
        lemma_bank_map_absent(bank@, skey(addr@));
    }
    None
}

/// The holder's account, if one exists. The returned copy carries the
/// stored share and lock list.
pub fn may_load_bank(bank: &Vec<(String, TokenManager)>, addr: &str) -> (r: Option<TokenManager>)
    requires
        bank_keys_distinct(bank@),
    ensures
        r matches Some(tm) ==> bank_map(bank@).contains_key(skey(addr@)) && tm.share == bank_map(
            bank@,
        )[skey(addr@)].share && tm.locked_balance@ == bank_map(bank@)[skey(
            addr@,
        )].locked_balance@,
        r is None ==> !bank_map(bank@).contains_key(skey(addr@)),
{
    match find_bank_index(bank, addr) {
        Some(i) => {
            proof {
                lemma_bank_map_index(bank@, i as int);
            }
            let entry = &bank[i].1;
            Some(TokenManager { share: entry.share, locked_balance: copy_locked(&entry.locked_balance) })
        },
        None => None,
    }
}

/// The holder's account, or a fresh empty one.
pub fn load_bank(bank: &Vec<(String, TokenManager)>, addr: &str) -> (r: TokenManager)
    requires
        bank_keys_distinct(bank@),
    ensures
        bank_map(bank@).contains_key(skey(addr@)) ==> r.share == bank_map(bank@)[skey(
            addr@,
        )].share && r.locked_balance@ == bank_map(bank@)[skey(addr@)].locked_balance@,
        !bank_map(bank@).contains_key(skey(addr@)) ==> r.share == 0 && r.locked_balance@.len()
            == 0,
{
    match may_load_bank(bank, addr) {
        Some(tm) => tm,
        None => TokenManager::default(),
    }
}

/// Saves a holder's account, replacing any previous one.
pub fn store_bank(bank: &mut Vec<(String, TokenManager)>, addr: &String, tm: TokenManager)
    requires
        bank_keys_distinct(old(bank)@),
    ensures
        bank_keys_distinct(final(bank)@),
        bank_map(final(bank)@) == bank_map(old(bank)@).insert(skey(addr@), tm),
        sum_shares(final(bank)@) == sum_shares(old(bank)@) + tm.share - (if bank_map(
            old(bank)@,
        ).contains_key(skey(addr@)) {
            bank_map(old(bank)@)[skey(addr@)].share as int
        } else {
            0
        }),
        forall|i: int|
            0 <= i < final(bank)@.len() ==> (#[trigger] final(bank)@[i]).1 == tm || old(
                bank,
            )@.contains(final(bank)@[i]),
{
    let ghost s = bank@;
    match find_bank_index(bank, addr.as_str()) {
        Some(i) => {
            proof {
                lemma_bank_map_index(s, i as int);
                lemma_bank_map_update(s, i as int, tm);
                lemma_sum_shares_update(s, i as int, tm);
            }
            let key = bank[i].0.clone();
            bank.set(i, (key, tm));
            proof {
                assert(bank@ =~= s.update(i as int, (s[i as int].0, tm)));
                assert(bank_map(bank@) =~= bank_map(s).insert(skey(addr@), tm));
            }
        },
        None => {
            proof {
                lemma_bank_map_push(s, *addr, tm);
                lemma_sum_shares_push(s, *addr, tm);
            }
            bank.push((addr.clone(), tm));
            proof {
                assert(bank_map(bank@) =~= bank_map(s).insert(skey(addr@), tm));
            }
        },
    }
}

// ---------------------------------------------------------------------------
// Vote record operations.
// ---------------------------------------------------------------------------
/// The index of the record for this poll and voter, if one exists.
pub fn find_voter_index(
    voters: &Vec<(u64, String, VoterInfo)>,
    poll_id: u64,
    voter: &str,
) -> (r: Option<usize>)
    ensures
        r matches Some(i) ==> i < voters@.len() && vkey(voters@[i as int]) == (
            poll_id,
            skey(voter@),
        ),
        r is None ==> !voters_map(voters@).contains_key((poll_id, skey(voter@))),
{
    let mut i: usize = 0;
    while i < voters.len()
        invariant
            i <= voters@.len(),
            forall|j: int| 0 <= j < i ==> vkey(voters@[j]) != (poll_id, skey(voter@)),
        decreases voters@.len() - i,
    {
        if voters[i].0 == poll_id && str_bytes_eq(voters[i].1.as_str(), voter) {
            return Some(i);
        }
        i = i + 1;
    }
    proof {
        lemma_voters_map_absent(voters@, (poll_id, skey(voter@)));
    }
    None
}

/// The recorded vote of this voter on this poll, if any.
pub fn load_poll_voter(
    voters: &Vec<(u64, String, VoterInfo)>,
    poll_id: u64,
    voter: &str,
) -> (r: Option<VoterInfo>)
    requires
        voters_sorted(voters@),
    ensures
        r matches Some(v) ==> voters_map(voters@).contains_key((poll_id, skey(voter@)))
            && voters_map(voters@)[(poll_id, skey(voter@))] == v,
        r is None ==> !voters_map(voters@).contains_key((poll_id, skey(voter@))),
{
    match find_voter_index(voters, poll_id, voter) {
        Some(i) => {
            proof {
                lemma_voters_map_index(voters@, i as int);
            }
            Some(voters[i].2)
        },
        None => None,
    }
}

/// Records a vote under its (poll, voter) key.
pub fn store_poll_voter(
    voters: &mut Vec<(u64, String, VoterInfo)>,
    poll_id: u64,
    voter: &String,
    info: VoterInfo,
)
    requires
        voters_sorted(old(voters)@),
    ensures
        voters_sorted(final(voters)@),
        voters_map(final(voters)@) == voters_map(old(voters)@).insert(
            (poll_id, skey(voter@)),
            info,
        ),
{
    let ghost s = voters@;
    let ghost k = (poll_id, skey(voter@));
    let mut i: usize = 0;
    while i < voters.len() && (voters[i].0 < poll_id || (voters[i].0 == poll_id && str_bytes_lt(
        voters[i].1.as_str(),
        voter.as_str(),
    )))
        invariant
            voters@ == s,
            voters_sorted(s),
            k == (poll_id, skey(voter@)),
            i <= s.len(),
            forall|j: int| 0 <= j < i ==> vkey_lt(vkey(s[j]), k),
        decreases voters@.len() - i,
    {
        i = i + 1;
    }
    if i < voters.len() && voters[i].0 == poll_id && str_bytes_eq(
        voters[i].1.as_str(),
        voter.as_str(),
    ) {
        let e = (poll_id, voter.clone(), info);
        proof {
            assert(vkey(e) == vkey(s[i as int]));
            lemma_voters_map_update(s, i as int, e);
        }
        voters.set(i, e);
        proof {
            assert(voters_map(voters@) =~= voters_map(s).insert(k, info));
        }
    } else {
        let e = (poll_id, voter.clone(), info);
        proof {
            assert(vkey(e) == k);
            if i < s.len() {
                lemma_vkey_lt_total(k, vkey(s[i as int]));
                assert(vkey_lt(k, vkey(s[i as int])));
            }
            assert forall|j: int| i <= j < s.len() implies vkey_lt(k, vkey(s[j])) by {
                if j > i {
                    lemma_vkey_lt_transitive(k, vkey(s[i as int]), vkey(s[j]));
                }
            }
            lemma_voters_map_insert(s, i as int, e);
        }
        voters.insert(i, e);
        proof {
            assert(voters_map(voters@) =~= voters_map(s).insert(k, info));
        }
    }
}

/// Deletes the record for this poll and voter, if one exists.
pub fn remove_poll_voter(voters: &mut Vec<(u64, String, VoterInfo)>, poll_id: u64, voter: &str)
    requires
        voters_sorted(old(voters)@),
    ensures
        voters_sorted(final(voters)@),
        voters_map(final(voters)@) == voters_map(old(voters)@).remove((poll_id, skey(voter@))),
{
    let ghost s = voters@;
    let ghost k = (poll_id, skey(voter@));
    match find_voter_index(voters, poll_id, voter) {
        Some(i) => {
            proof {
                lemma_voters_map_remove(s, i as int);
            }
            voters.remove(i);
            proof {
                assert(voters_map(voters@) =~= voters_map(s).remove(k));
            }
        },
        None => {
            proof {
                assert(voters_map(s).remove(k) =~= voters_map(s));
            }
        },
    }
}

// ---------------------------------------------------------------------------
// Status index operations.
// ---------------------------------------------------------------------------
/// Adds an entry to the status index.
pub fn store_poll_indexer(idx: &mut Vec<(PollStatus, u64)>, status: PollStatus, poll_id: u64)
    requires
        idx_distinct(old(idx)@),
    ensures
        idx_distinct(final(idx)@),
        idx_set(final(idx)@) == idx_set(old(idx)@).insert((status, poll_id)),
{
    let ghost s = idx@;
    let ghost e = (status, poll_id);
    let mut i: usize = 0;
    while i < idx.len()
        invariant
            idx@ == s,
            s == old(idx)@,
            e == (status, poll_id),
            idx_distinct(s),
            i <= s.len(),
            forall|j: int| 0 <= j < i ==> s[j] != e,
        decreases idx@.len() - i,
    {
        if idx[i].0 == status && idx[i].1 == poll_id {
            proof {
                assert(s[i as int] == e);
                lemma_idx_set_index(s, i as int);
                assert(idx_set(s).insert(e) =~= idx_set(s));
            }
            return ;
        }
        i = i + 1;
    }
    proof {
        lemma_idx_set_push(s, e);
        assert forall|x: int, y: int|
            0 <= x < y < s.push(e).len() implies s.push(e)[x] != s.push(e)[y] by {
            if y < s.len() {
                assert(s.push(e)[x] == s[x] && s.push(e)[y] == s[y]);
            } else {
                assert(s.push(e)[x] == s[x] && s.push(e)[y] == e);
            }
        }
    }
    idx.push((status, poll_id));
}

/// Deletes an entry from the status index, if present.
pub fn remove_poll_indexer(idx: &mut Vec<(PollStatus, u64)>, status: PollStatus, poll_id: u64)
    requires
        idx_distinct(old(idx)@),
    ensures
        idx_distinct(final(idx)@),
        idx_set(final(idx)@) == idx_set(old(idx)@).remove((status, poll_id)),
{
    let ghost s = idx@;
    let ghost e = (status, poll_id);
    let mut i: usize = 0;
    while i < idx.len()
        invariant
            idx@ == s,
            s == old(idx)@,
            e == (status, poll_id),
            idx_distinct(s),
            i <= s.len(),
            forall|j: int| 0 <= j < i ==> s[j] != e,
        decreases idx@.len() - i,
    {
        if idx[i].0 == status && idx[i].1 == poll_id {
            proof {
                assert(s[i as int] == e);
                lemma_idx_set_remove(s, i as int);
            }
            idx.remove(i);
            proof {
                assert(idx_set(idx@) =~= idx_set(s).remove(e));
            }
            return ;
        }
        i = i + 1;
    }
    proof {
        lemma_idx_set_absent(s, e);
        assert(idx_set(s).remove(e) =~= idx_set(s));
    }
}

} // verus!
