use vstd::prelude::*;

use crate::decimal::Decimal;

verus! {

/// Where a poll stands in its lifecycle. `InProgress` moves to `Passed` or
/// `Rejected` at resolution; `Passed` moves to `Executed` when its batch is
/// dispatched, or to `Expired` when a message-less poll's execution window
/// lapses; `Executed` moves to `Failed` only through the dispatcher's
/// failure callback. All other states are terminal.
#[derive(Clone, Copy, Debug, PartialEq, Eq, Structural)]
pub enum PollStatus {
    InProgress,
    Passed,
    Rejected,
    Executed,
    Expired,
    Failed,
}

impl PollStatus {
    /// The rank under which the status index orders its entries.
    pub open spec fn spec_rank(self) -> u8 {
        match self {
            PollStatus::InProgress => 0u8,
            PollStatus::Passed => 1u8,
            PollStatus::Rejected => 2u8,
            PollStatus::Executed => 3u8,
            PollStatus::Expired => 4u8,
            PollStatus::Failed => 5u8,
        }
    }

    pub fn rank(&self) -> (r: u8)
        ensures
            r == self.spec_rank(),
    {
        match self {
            PollStatus::InProgress => 0u8,
            PollStatus::Passed => 1u8,
            PollStatus::Rejected => 2u8,
            PollStatus::Executed => 3u8,
            PollStatus::Expired => 4u8,
            PollStatus::Failed => 5u8,
        }
    }
}

#[derive(Clone, Copy, Debug, PartialEq, Eq, Structural)]
pub enum VoteOption {
    Yes,
    No,
}

/// One cast vote: the chosen option and the staked balance claimed as its
/// weight. Written once per `(poll, voter)` pair and never updated.
#[derive(Clone, Copy, Debug, PartialEq, Eq, Structural)]
pub struct VoterInfo {
    pub vote: VoteOption,
    pub balance: u128,
}

/// Which way listings walk their keys from the cursor.
#[derive(Clone, Copy, Debug, PartialEq, Eq, Structural)]
pub enum OrderBy {
    Asc,
    Desc,
}

/// The immutable-until-governed parameters of the engine.
#[derive(Clone, Debug, PartialEq)]
pub struct Config {
    pub owner: String,
    pub psi_token: String,
    pub quorum: Decimal,
    pub threshold: Decimal,
    pub voting_period: u64,
    pub timelock_period: u64,
    pub proposal_deposit: u128,
    pub snapshot_period: u64,
}

/// The global counters: the number of polls ever created (the next id is
/// `poll_count + 1`), the sum of all holders' shares, and the deposits
/// locked in not-yet-resolved polls.
#[derive(Clone, Copy, Debug, PartialEq, Eq, Structural)]
pub struct State {
    pub poll_count: u64,
    pub total_share: u128,
    pub total_deposit: u128,
}

/// An optional secondary token whose balances can be locked per holder.
#[derive(Clone, Debug, PartialEq)]
pub struct Utility {
    pub token: String,
}

/// One holder's stake account: the shares held and, per poll voted on, the
/// balance that vote claimed. Entries for polls that are no longer
/// `InProgress` are pruned lazily on withdrawal and staker reads.
#[derive(Clone, Debug, PartialEq)]
pub struct TokenManager {
    pub share: u128,
    pub locked_balance: Vec<(u64, VoterInfo)>,
}

impl Default for TokenManager {
    /// An empty account: no shares, no votes backing them.
    fn default() -> (r: Self)
        ensures
            r.share == 0,
            r.locked_balance@ == Seq::<(u64, VoterInfo)>::empty(),
    {
        let locked_balance: Vec<(u64, VoterInfo)> = Vec::new();
        proof {
            assert(locked_balance@ =~= Seq::<(u64, VoterInfo)>::empty());
        }
        TokenManager { share: 0, locked_balance }
    }
}

/// A plain contract invocation a passed poll will dispatch: the tie-break
/// key, the target, and an opaque payload.
#[derive(Clone, Debug, PartialEq)]
pub struct ExecuteData {
    pub order: u64,
    pub contract: String,
    pub msg: Vec<u8>,
}

/// A code-upgrade invocation a passed poll will dispatch.
#[derive(Clone, Debug, PartialEq)]
pub struct MigrateData {
    pub order: u64,
    pub contract: String,
    pub new_code_id: u64,
    pub msg: Vec<u8>,
}

/// A proposal: its tally, its window, its describing fields and its
/// attached batch. Never deleted; only `status` and the resolution fields
/// change after creation.
#[derive(Clone, Debug, PartialEq)]
pub struct Poll {
    pub id: u64,
    pub creator: String,
    pub status: PollStatus,
    pub yes_votes: u128,
    pub no_votes: u128,
    pub end_time: u64,
    pub title: String,
    pub description: String,
    pub link: Option<String>,
    pub execute_data: Option<Vec<ExecuteData>>,
    pub migrate_data: Option<Vec<MigrateData>>,
    pub deposit_amount: u128,
    pub total_balance_at_end_poll: Option<u128>,
    pub staked_amount: Option<u128>,
}

impl Poll {
    /// Whether the poll carries at least one batch item to dispatch.
    pub open spec fn spec_contain_messages(&self) -> bool {
        (match self.execute_data {
            Some(ref d) => d@.len() > 0,
            None => false,
        }) || (match self.migrate_data {
            Some(ref d) => d@.len() > 0,
            None => false,
        })
    }

    pub fn contain_messages(&self) -> (r: bool)
        ensures
            r == self.spec_contain_messages(),
    {
        let execute_messages_is_empty = if let Some(data) = &self.execute_data {
            data.len() == 0
        } else {
            true
        };
        let migration_messages_is_empty = if let Some(data) = &self.migrate_data {
            data.len() == 0
        } else {
            true
        };
        !execute_messages_is_empty || !migration_messages_is_empty
    }
}

/// Why a resolved poll was rejected.
#[derive(Clone, Copy, Debug, PartialEq, Eq, Structural)]
pub enum RejectReason {
    /// Too small a fraction of the staked weight voted at all.
    QuorumNotReached,
    /// Enough voted, but not enough of them in favor.
    ThresholdNotReached,
}

/// An effect the host must carry out after a successful operation. The
/// engine never performs I/O itself; it hands these back to its caller.
#[derive(Clone, Debug, PartialEq)]
pub enum OutMsg {
    /// Transfer `amount` of the token at `token` to `recipient` (deposit
    /// refunds and withdrawal payouts).
    Transfer { token: String, recipient: String, amount: u128 },
    /// Invoke this contract itself to dispatch the batch of the poll, so
    /// that a downstream failure is observable as one unit.
    ExecutePollMsgs { poll_id: u64 },
    /// Invoke an external contract with an opaque payload. `order` is the
    /// batch position key it was dispatched under.
    Execute { order: u64, contract: String, msg: Vec<u8> },
    /// Migrate an external contract to a new code id.
    Migrate { order: u64, contract: String, new_code_id: u64, msg: Vec<u8> },
}

/// A batch item of a poll under creation.
#[derive(Clone, Debug, PartialEq)]
pub struct PollExecuteMsg {
    pub order: u64,
    pub contract: String,
    pub msg: Vec<u8>,
}

/// An upgrade batch item of a poll under creation.
#[derive(Clone, Debug, PartialEq)]
pub struct PollMigrateMsg {
    pub order: u64,
    pub contract: String,
    pub new_code_id: u64,
    pub msg: Vec<u8>,
}

/// What a token-send can ask of the engine.
#[derive(Clone, Debug, PartialEq)]
pub enum Cw20HookMsg {
    StakeVotingTokens {},
    CreatePoll {
        title: String,
        description: String,
        link: Option<String>,
        execute_msgs: Option<Vec<PollExecuteMsg>>,
        migrate_msgs: Option<Vec<PollMigrateMsg>>,
    },
}

/// The read-only questions the engine answers.
#[derive(Clone, Debug, PartialEq)]
pub enum QueryMsg {
    Config {},
    State {},
    Staker { address: String },
    Poll { poll_id: u64 },
    Polls {
        filter: Option<PollStatus>,
        start_after: Option<u64>,
        limit: Option<u32>,
        order_by: Option<OrderBy>,
    },
    Voters {
        poll_id: u64,
        start_after: Option<String>,
        limit: Option<u32>,
        order_by: Option<OrderBy>,
    },
}

/// A migration carries no data.
#[derive(Clone, Copy, Debug, PartialEq, Eq, Structural)]
pub struct MigrateMsg {}

} // verus!
