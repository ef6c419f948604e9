use governance::commands::{
    cast_vote, create_poll, end_poll, execute_poll, execute_poll_messages, instantiate,
    on_execution_failed, register_token, stake_voting_tokens, withdraw_voting_tokens,
};
use governance::decimal::Decimal;
use governance::error::GovError;
use governance::queries::{
    query_config, query_poll, query_staker, query_state, query_voters, StateResponse,
    VotersResponseItem,
};
use governance::store::{load_bank, load_poll_voter, store_bank, store_poll, store_poll_voter, Governance};
use governance::types::{Poll, TokenManager};
use governance::types::{
    OrderBy, OutMsg, PollExecuteMsg, PollMigrateMsg, PollStatus, RejectReason, VoteOption,
    VoterInfo,
};

const VOTING_TOKEN: &str = "voting_token";
const TEST_CREATOR: &str = "creator";
const TEST_VOTER: &str = "voter1";
const TEST_VOTER_2: &str = "voter2";
const TEST_VOTER_3: &str = "voter3";
const DEFAULT_QUORUM: u64 = 30u64;
const DEFAULT_THRESHOLD: u64 = 50u64;
const DEFAULT_VOTING_PERIOD: u64 = 20000u64;
const DEFAULT_FIX_PERIOD: u64 = 10u64;
const DEFAULT_TIMELOCK_PERIOD: u64 = 10000u64;
const DEFAULT_PROPOSAL_DEPOSIT: u128 = 10000000000u128;
// a late block time in seconds, so windows anchored earlier have elapsed
const DEFAULT_HEIGHT: u64 = 1571797419u64;

fn mock_init() -> Governance {
    let mut gov = instantiate(
        TEST_CREATOR.to_string(),
        Decimal::percent(DEFAULT_QUORUM),
        Decimal::percent(DEFAULT_THRESHOLD),
        DEFAULT_VOTING_PERIOD,
        DEFAULT_TIMELOCK_PERIOD,
        DEFAULT_PROPOSAL_DEPOSIT,
        DEFAULT_FIX_PERIOD,
    )
    .expect("contract successfully handles InitMsg");
    let config = query_config(&gov);
    assert_eq!(config.owner, TEST_CREATOR.to_string());
    assert_eq!(config.psi_token, "".to_string());
    assert_eq!(config.quorum, Decimal::percent(DEFAULT_QUORUM));
    assert_eq!(config.threshold, Decimal::percent(DEFAULT_THRESHOLD));
    assert_eq!(config.voting_period, DEFAULT_VOTING_PERIOD);
    assert_eq!(config.timelock_period, DEFAULT_TIMELOCK_PERIOD);
    assert_eq!(config.proposal_deposit, DEFAULT_PROPOSAL_DEPOSIT);
    assert_eq!(config.snapshot_period, DEFAULT_FIX_PERIOD);

    register_token(&mut gov, VOTING_TOKEN.to_string())
        .expect("contract successfully handles RegisterToken");
    let config = query_config(&gov);
    assert_eq!(config.psi_token, VOTING_TOKEN.to_string());

    // can't change token_address
    let res = register_token(&mut gov, VOTING_TOKEN.to_string());
    assert_eq!(res, Err(GovError::Unauthorized));
    gov
}

fn default_create_poll(
    gov: &mut Governance,
    now: u64,
    title: &str,
    description: &str,
    link: Option<&str>,
    execute_msgs: Option<Vec<PollExecuteMsg>>,
    migrate_msgs: Option<Vec<PollMigrateMsg>>,
) -> Result<u64, GovError> {
    create_poll(
        gov,
        now,
        TEST_CREATOR.to_string(),
        DEFAULT_PROPOSAL_DEPOSIT,
        title.to_string(),
        description.to_string(),
        link.map(|l| l.to_string()),
        execute_msgs,
        migrate_msgs,
    )
}

fn assert_create_poll_result(poll_id: u64, end_time: u64, gov: &Governance) {
    let poll = query_poll(gov, poll_id).unwrap();
    assert_eq!(poll.id, poll_id);
    assert_eq!(poll.creator, TEST_CREATOR.to_string());
    assert_eq!(poll.end_time, end_time);
    let state = query_state(gov);
    assert_eq!(
        state,
        StateResponse { poll_count: 1, total_share: 0, total_deposit: DEFAULT_PROPOSAL_DEPOSIT }
    );
}

fn assert_stake_tokens_result(
    total_share: u128,
    total_deposit: u128,
    new_share: u128,
    poll_count: u64,
    res: Result<u128, GovError>,
    gov: &Governance,
) {
    assert_eq!(res, Ok(new_share));
    let state = query_state(gov);
    assert_eq!(state, StateResponse { poll_count, total_share, total_deposit });
}

fn burn_msg(amount: u128) -> Vec<u8> {
    cosmwasm_std::to_json_binary(&cw20::Cw20ExecuteMsg::Burn {
        amount: cosmwasm_std::Uint128::new(amount),
    })
    .unwrap()
    .to_vec()
}

#[test]
fn mod_proper_initialization() {
    let gov = mock_init();
    let state = query_state(&gov);
    assert_eq!(state, StateResponse { poll_count: 0, total_share: 0, total_deposit: 0 });
}

#[test]
fn mod_poll_not_found() {
    let gov = mock_init();
    let res = query_poll(&gov, 1);
    assert_eq!(res.err(), Some(GovError::PollNotFound));
}

#[test]
fn mod_fails_init_invalid_quorum() {
    let res = instantiate(
        TEST_CREATOR.to_string(),
        Decimal::percent(101),
        Decimal::percent(DEFAULT_THRESHOLD),
        DEFAULT_VOTING_PERIOD,
        DEFAULT_TIMELOCK_PERIOD,
        DEFAULT_PROPOSAL_DEPOSIT,
        DEFAULT_FIX_PERIOD,
    );
    assert_eq!(res.err(), Some(GovError::InvalidQuorum));
}

#[test]
fn mod_fails_init_invalid_threshold() {
    let res = instantiate(
        TEST_CREATOR.to_string(),
        Decimal::percent(DEFAULT_QUORUM),
        Decimal::percent(101),
        DEFAULT_VOTING_PERIOD,
        DEFAULT_TIMELOCK_PERIOD,
        DEFAULT_PROPOSAL_DEPOSIT,
        DEFAULT_FIX_PERIOD,
    );
    assert_eq!(res.err(), Some(GovError::InvalidThreshold));
}

#[test]
fn mod_fails_create_poll_invalid_title() {
    let mut gov = mock_init();
    let res = default_create_poll(&mut gov, DEFAULT_HEIGHT, "a", "test", None, None, None);
    assert_eq!(res.err(), Some(GovError::InvalidTitle));

    let long = "0".repeat(65);
    let res = default_create_poll(&mut gov, DEFAULT_HEIGHT, &long, "test", None, None, None);
    assert_eq!(res.err(), Some(GovError::InvalidTitle));
}

#[test]
fn mod_fails_create_poll_invalid_description() {
    let mut gov = mock_init();
    let res = default_create_poll(&mut gov, DEFAULT_HEIGHT, "test", "a", None, None, None);
    assert_eq!(res.err(), Some(GovError::InvalidDescription));

    let long = "0".repeat(1025);
    let res = default_create_poll(&mut gov, DEFAULT_HEIGHT, "test", &long, None, None, None);
    assert_eq!(res.err(), Some(GovError::InvalidDescription));
}

#[test]
fn mod_fails_create_poll_invalid_link() {
    let mut gov = mock_init();
    let res =
        default_create_poll(&mut gov, DEFAULT_HEIGHT, "test", "test", Some("http://hih"), None, None);
    assert_eq!(res.err(), Some(GovError::InvalidLink));

    let long = "0".repeat(129);
    let res =
        default_create_poll(&mut gov, DEFAULT_HEIGHT, "test", "test", Some(&long), None, None);
    assert_eq!(res.err(), Some(GovError::InvalidLink));
}

#[test]
fn mod_fails_create_poll_invalid_deposit() {
    let mut gov = mock_init();
    let res = create_poll(
        &mut gov,
        DEFAULT_HEIGHT,
        TEST_CREATOR.to_string(),
        DEFAULT_PROPOSAL_DEPOSIT - 1,
        "TESTTEST".to_string(),
        "TESTTEST".to_string(),
        None,
        None,
        None,
    );
    assert_eq!(
        res.err(),
        Some(GovError::InsufficientProposalDeposit(DEFAULT_PROPOSAL_DEPOSIT))
    );
}

#[test]
fn mod_happy_days_create_poll() {
    let mut gov = mock_init();
    let res = default_create_poll(&mut gov, 0, "test", "test", None, None, None);
    assert_eq!(res, Ok(1));
    assert_create_poll_result(1, DEFAULT_VOTING_PERIOD, &gov);
}

#[test]
fn mod_query_polls() {
    let mut gov = mock_init();
    let exec_msg_bz = burn_msg(123);
    let exec_msg_bz2 = burn_msg(12);
    let exec_msg_bz3 = burn_msg(1);

    let execute_msgs = vec![
        PollExecuteMsg { order: 1, contract: VOTING_TOKEN.to_string(), msg: exec_msg_bz.clone() },
        PollExecuteMsg { order: 3, contract: VOTING_TOKEN.to_string(), msg: exec_msg_bz3.clone() },
        PollExecuteMsg { order: 2, contract: VOTING_TOKEN.to_string(), msg: exec_msg_bz2.clone() },
    ];

    default_create_poll(
        &mut gov,
        0,
        "test",
        "test",
        Some("http://google.com"),
        Some(execute_msgs.clone()),
        None,
    )
    .unwrap();
    default_create_poll(&mut gov, 0, "test2", "test2", None, None, None).unwrap();

    let response = governance::queries::query_polls(&gov, None, None, None, Some(OrderBy::Asc));
    assert_eq!(response.polls.len(), 2);
    assert_eq!(response.polls[0].id, 1);
    assert_eq!(response.polls[0].title, "test".to_string());
    assert_eq!(response.polls[0].link, Some("http://google.com".to_string()));
    assert_eq!(response.polls[0].end_time, DEFAULT_VOTING_PERIOD);
    assert_eq!(response.polls[0].status, PollStatus::InProgress);
    assert_eq!(response.polls[0].execute_data, Some(execute_msgs.clone()));
    assert_eq!(response.polls[1].id, 2);
    assert_eq!(response.polls[1].title, "test2".to_string());
    assert_eq!(response.polls[1].execute_data, None);

    let response = governance::queries::query_polls(&gov, None, Some(1), None, Some(OrderBy::Asc));
    assert_eq!(response.polls.len(), 1);
    assert_eq!(response.polls[0].id, 2);

    let response = governance::queries::query_polls(&gov, None, Some(2), None, Some(OrderBy::Desc));
    assert_eq!(response.polls.len(), 1);
    assert_eq!(response.polls[0].id, 1);
    assert_eq!(response.polls[0].execute_data, Some(execute_msgs));

    let response = governance::queries::query_polls(&gov, Some(PollStatus::InProgress), Some(1), None, Some(OrderBy::Asc));
    assert_eq!(response.polls.len(), 1);
    assert_eq!(response.polls[0].id, 2);

    let response = governance::queries::query_polls(&gov, Some(PollStatus::Passed), None, None, None);
    assert_eq!(response.polls, vec![]);
}

#[test]
fn mod_create_poll_no_quorum() {
    let mut gov = mock_init();
    let res = default_create_poll(&mut gov, 0, "test", "test", None, None, None);
    assert_eq!(res, Ok(1));
    assert_create_poll_result(1, DEFAULT_VOTING_PERIOD, &gov);
}

#[test]
fn mod_fails_end_poll_before_end_height() {
    let mut gov = mock_init();
    default_create_poll(&mut gov, 0, "test", "test", None, None, None).unwrap();
    let poll = query_poll(&gov, 1).unwrap();
    assert_eq!(DEFAULT_VOTING_PERIOD, poll.end_time);

    let res = end_poll(&mut gov, 0, 1, 0);
    assert_eq!(res.err(), Some(GovError::VotingPeriodNotExpired));
}

#[test]
fn mod_happy_days_end_poll() {
    const POLL_START_HEIGHT: u64 = 1000;
    let stake_amount: u128 = 1000;
    let mut gov = mock_init();

    let exec_msg_bz = burn_msg(123);
    let exec_msg_bz2 = burn_msg(12);
    let exec_msg_bz3 = burn_msg(1);

    // three messages, attached out of order
    let execute_msgs = vec![
        PollExecuteMsg { order: 3, contract: VOTING_TOKEN.to_string(), msg: exec_msg_bz3.clone() },
        PollExecuteMsg { order: 2, contract: VOTING_TOKEN.to_string(), msg: exec_msg_bz2.clone() },
        PollExecuteMsg { order: 1, contract: VOTING_TOKEN.to_string(), msg: exec_msg_bz.clone() },
    ];
    default_create_poll(&mut gov, POLL_START_HEIGHT, "test", "test", None, Some(execute_msgs), None)
        .unwrap();
    assert_create_poll_result(1, POLL_START_HEIGHT + DEFAULT_VOTING_PERIOD, &gov);

    let balance = stake_amount + DEFAULT_PROPOSAL_DEPOSIT;
    let res = stake_voting_tokens(&mut gov, &TEST_VOTER.to_string(), stake_amount, balance);
    assert_stake_tokens_result(stake_amount, DEFAULT_PROPOSAL_DEPOSIT, stake_amount, 1, res, &gov);

    cast_vote(
        &mut gov,
        POLL_START_HEIGHT,
        &TEST_VOTER.to_string(),
        1,
        VoteOption::Yes,
        stake_amount,
        balance,
    )
    .unwrap();

    // not in passed status
    let res = execute_poll(&mut gov, POLL_START_HEIGHT, 1);
    assert_eq!(res.err(), Some(GovError::PollNotPassed));

    let end_height = POLL_START_HEIGHT + DEFAULT_VOTING_PERIOD;
    let outcome = end_poll(&mut gov, end_height, 1, balance).unwrap();
    assert_eq!(outcome.status, PollStatus::Passed);
    assert_eq!(outcome.rejected_reason, None);
    assert_eq!(
        outcome.refund,
        Some(OutMsg::Transfer {
            token: VOTING_TOKEN.to_string(),
            recipient: TEST_CREATOR.to_string(),
            amount: DEFAULT_PROPOSAL_DEPOSIT,
        })
    );

    // timelock_period has not expired
    let res = execute_poll(&mut gov, end_height, 1);
    assert_eq!(res.err(), Some(GovError::TimelockNotExpired));

    let exec_height = end_height + DEFAULT_TIMELOCK_PERIOD;
    let res = execute_poll(&mut gov, exec_height, 1).unwrap();
    assert_eq!(res, OutMsg::ExecutePollMsgs { poll_id: 1 });

    let msgs = execute_poll_messages(&gov, 1).unwrap();
    assert_eq!(
        msgs,
        vec![
            OutMsg::Execute { order: 1, contract: VOTING_TOKEN.to_string(), msg: exec_msg_bz },
            OutMsg::Execute { order: 2, contract: VOTING_TOKEN.to_string(), msg: exec_msg_bz2 },
            OutMsg::Execute { order: 3, contract: VOTING_TOKEN.to_string(), msg: exec_msg_bz3 },
        ]
    );
    assert_eq!(gov.tmp_poll_id, Some(1));

    // status listings after execution
    let response = governance::queries::query_polls(&gov, Some(PollStatus::Passed), None, None, None);
    assert_eq!(response.polls.len(), 0);
    let response = governance::queries::query_polls(&gov, Some(PollStatus::InProgress), None, None, None);
    assert_eq!(response.polls.len(), 0);
    let response = governance::queries::query_polls(&gov, Some(PollStatus::Executed), None, None, Some(OrderBy::Desc));
    assert_eq!(response.polls.len(), 1);

    // voter info must be hidden once the poll left InProgress
    let response = query_voters(&gov, 1, None, None, None).unwrap();
    assert_eq!(response.voters.len(), 0);

    // staker locked token must be gone
    let staker = query_staker(&gov, &TEST_VOTER.to_string(), stake_amount).unwrap();
    assert_eq!(staker.balance, stake_amount);
    assert_eq!(staker.share, stake_amount);
    assert_eq!(staker.locked_balance, vec![]);

    // but the records themselves are still in the store
    let voter = load_poll_voter(&gov.poll_voters, 1, TEST_VOTER).unwrap();
    assert_eq!(voter, VoterInfo { vote: VoteOption::Yes, balance: stake_amount });
    let token_manager = load_bank(&gov.bank, TEST_VOTER);
    assert_eq!(
        token_manager.locked_balance,
        vec![(1, VoterInfo { vote: VoteOption::Yes, balance: stake_amount })]
    );
}

#[test]
fn mod_fail_poll() {
    const POLL_START_HEIGHT: u64 = 1000;
    let stake_amount: u128 = 1000;
    let mut gov = mock_init();

    let exec_msg_bz = burn_msg(123);
    let execute_msgs = vec![PollExecuteMsg {
        order: 1,
        contract: VOTING_TOKEN.to_string(),
        msg: exec_msg_bz.clone(),
    }];
    default_create_poll(&mut gov, POLL_START_HEIGHT, "test", "test", None, Some(execute_msgs), None)
        .unwrap();

    let balance = stake_amount + DEFAULT_PROPOSAL_DEPOSIT;
    let res = stake_voting_tokens(&mut gov, &TEST_VOTER.to_string(), stake_amount, balance);
    assert_stake_tokens_result(stake_amount, DEFAULT_PROPOSAL_DEPOSIT, stake_amount, 1, res, &gov);

    cast_vote(
        &mut gov,
        POLL_START_HEIGHT,
        &TEST_VOTER.to_string(),
        1,
        VoteOption::Yes,
        stake_amount,
        balance,
    )
    .unwrap();

    let end_height = POLL_START_HEIGHT + DEFAULT_VOTING_PERIOD;
    let outcome = end_poll(&mut gov, end_height, 1, balance).unwrap();
    assert_eq!(outcome.status, PollStatus::Passed);

    let exec_height = end_height + DEFAULT_TIMELOCK_PERIOD;
    let res = execute_poll(&mut gov, exec_height, 1).unwrap();
    assert_eq!(res, OutMsg::ExecutePollMsgs { poll_id: 1 });
    let msgs = execute_poll_messages(&gov, 1).unwrap();
    assert_eq!(
        msgs,
        vec![OutMsg::Execute { order: 1, contract: VOTING_TOKEN.to_string(), msg: exec_msg_bz }]
    );
    assert_eq!(gov.tmp_poll_id, Some(1));

    // the dispatch failed downstream
    let failed = on_execution_failed(&mut gov).unwrap();
    assert_eq!(failed, 1);

    let poll = query_poll(&gov, 1).unwrap();
    assert_eq!(poll.status, PollStatus::Failed);

    let response = governance::queries::query_polls(&gov, Some(PollStatus::Failed), None, None, Some(OrderBy::Desc));
    assert_eq!(response.polls.len(), 1);
    assert_eq!(response.polls[0], poll);
    let response = governance::queries::query_polls(&gov, Some(PollStatus::Executed), None, None, Some(OrderBy::Desc));
    assert!(response.polls.is_empty());
    let response = governance::queries::query_polls(&gov, Some(PollStatus::Passed), None, None, Some(OrderBy::Desc));
    assert!(response.polls.is_empty());
}

#[test]
fn mod_end_poll_zero_quorum() {
    let mut gov = mock_init();
    let execute_msgs = vec![PollExecuteMsg {
        order: 1,
        contract: VOTING_TOKEN.to_string(),
        msg: burn_msg(123),
    }];
    default_create_poll(&mut gov, 1000, "test", "test", None, Some(execute_msgs), None).unwrap();
    assert_create_poll_result(1, 1000 + DEFAULT_VOTING_PERIOD, &gov);

    let stake_amount: u128 = 100;
    let balance = stake_amount + DEFAULT_PROPOSAL_DEPOSIT;
    stake_voting_tokens(&mut gov, &TEST_VOTER.to_string(), stake_amount, balance).unwrap();

    let outcome = end_poll(&mut gov, 1000 + DEFAULT_VOTING_PERIOD, 1, balance).unwrap();
    assert_eq!(outcome.status, PollStatus::Rejected);
    assert_eq!(outcome.rejected_reason, Some(RejectReason::QuorumNotReached));
    assert_eq!(outcome.refund, None);

    let response = governance::queries::query_polls(&gov, Some(PollStatus::Rejected), None, None, Some(OrderBy::Desc));
    assert_eq!(response.polls.len(), 1);
    let response = governance::queries::query_polls(&gov, Some(PollStatus::InProgress), None, None, None);
    assert_eq!(response.polls.len(), 0);
    let response = governance::queries::query_polls(&gov, Some(PollStatus::Passed), None, None, None);
    assert_eq!(response.polls.len(), 0);
}

#[test]
fn mod_end_poll_quorum_rejected() {
    let mut gov = mock_init();
    default_create_poll(&mut gov, DEFAULT_HEIGHT, "test", "test", None, None, None).unwrap();
    let poll = query_poll(&gov, 1).unwrap();
    assert_eq!(poll.end_time, DEFAULT_HEIGHT + DEFAULT_VOTING_PERIOD);

    let stake_amount: u128 = 100;
    let balance = stake_amount + DEFAULT_PROPOSAL_DEPOSIT;
    let res = stake_voting_tokens(&mut gov, &TEST_VOTER.to_string(), stake_amount, balance);
    assert_stake_tokens_result(stake_amount, DEFAULT_PROPOSAL_DEPOSIT, stake_amount, 1, res, &gov);

    cast_vote(&mut gov, DEFAULT_HEIGHT, &TEST_VOTER.to_string(), 1, VoteOption::Yes, 10, balance)
        .unwrap();

    let outcome =
        end_poll(&mut gov, DEFAULT_HEIGHT + DEFAULT_VOTING_PERIOD, 1, balance).unwrap();
    assert_eq!(outcome.status, PollStatus::Rejected);
    assert_eq!(outcome.rejected_reason, Some(RejectReason::QuorumNotReached));
}

#[test]
fn mod_end_poll_quorum_rejected_noting_staked() {
    let mut gov = mock_init();
    default_create_poll(&mut gov, DEFAULT_HEIGHT, "test", "test", None, None, None).unwrap();
    let poll = query_poll(&gov, 1).unwrap();
    assert_eq!(poll.end_time, DEFAULT_HEIGHT + DEFAULT_VOTING_PERIOD);

    let outcome = end_poll(&mut gov, DEFAULT_HEIGHT + DEFAULT_VOTING_PERIOD, 1, 100).unwrap();
    assert_eq!(outcome.status, PollStatus::Rejected);
    assert_eq!(outcome.rejected_reason, Some(RejectReason::QuorumNotReached));
}

#[test]
fn mod_end_poll_nay_rejected() {
    let voter1_stake: u128 = 100;
    let voter2_stake: u128 = 1000;
    let mut gov = mock_init();

    default_create_poll(&mut gov, DEFAULT_HEIGHT, "test", "test", None, None, None).unwrap();
    let poll = query_poll(&gov, 1).unwrap();
    assert_eq!(poll.end_time, DEFAULT_HEIGHT + DEFAULT_VOTING_PERIOD);

    let balance1 = voter1_stake + DEFAULT_PROPOSAL_DEPOSIT;
    let res = stake_voting_tokens(&mut gov, &TEST_VOTER.to_string(), voter1_stake, balance1);
    assert_stake_tokens_result(voter1_stake, DEFAULT_PROPOSAL_DEPOSIT, voter1_stake, 1, res, &gov);

    let balance2 = voter1_stake + voter2_stake + DEFAULT_PROPOSAL_DEPOSIT;
    let res = stake_voting_tokens(&mut gov, &TEST_VOTER_2.to_string(), voter2_stake, balance2);
    assert_stake_tokens_result(
        voter1_stake + voter2_stake,
        DEFAULT_PROPOSAL_DEPOSIT,
        voter2_stake,
        1,
        res,
        &gov,
    );

    cast_vote(
        &mut gov,
        DEFAULT_HEIGHT,
        &TEST_VOTER_2.to_string(),
        1,
        VoteOption::No,
        voter2_stake,
        balance2,
    )
    .unwrap();

    let outcome =
        end_poll(&mut gov, DEFAULT_HEIGHT + DEFAULT_VOTING_PERIOD, 1, balance2).unwrap();
    assert_eq!(outcome.status, PollStatus::Rejected);
    assert_eq!(outcome.rejected_reason, Some(RejectReason::ThresholdNotReached));
}

#[test]
fn mod_fails_cast_vote_not_enough_staked() {
    let mut gov = mock_init();
    default_create_poll(&mut gov, 0, "test", "test", None, None, None).unwrap();
    assert_create_poll_result(1, DEFAULT_VOTING_PERIOD, &gov);

    let balance = 10 + DEFAULT_PROPOSAL_DEPOSIT;
    let res = stake_voting_tokens(&mut gov, &TEST_VOTER.to_string(), 10, balance);
    assert_stake_tokens_result(10, DEFAULT_PROPOSAL_DEPOSIT, 10, 1, res, &gov);

    let res = cast_vote(&mut gov, 0, &TEST_VOTER.to_string(), 1, VoteOption::Yes, 11, balance);
    assert_eq!(res.err(), Some(GovError::InsufficientStaked));
}

#[test]
fn mod_happy_days_cast_vote() {
    let mut gov = mock_init();
    default_create_poll(&mut gov, 0, "test", "test", None, None, None).unwrap();
    assert_create_poll_result(1, DEFAULT_VOTING_PERIOD, &gov);

    let balance = 11 + DEFAULT_PROPOSAL_DEPOSIT;
    let res = stake_voting_tokens(&mut gov, &TEST_VOTER.to_string(), 11, balance);
    assert_stake_tokens_result(11, DEFAULT_PROPOSAL_DEPOSIT, 11, 1, res, &gov);

    let amount: u128 = 10;
    cast_vote(&mut gov, 0, &TEST_VOTER.to_string(), 1, VoteOption::Yes, amount, balance).unwrap();

    // balance doubles
    let balance = 22 + DEFAULT_PROPOSAL_DEPOSIT;
    let staker = query_staker(&gov, &TEST_VOTER.to_string(), balance).unwrap();
    assert_eq!(staker.balance, 22);
    assert_eq!(staker.share, 11);
    assert_eq!(
        staker.locked_balance,
        vec![(1, VoterInfo { vote: VoteOption::Yes, balance: amount })]
    );

    let response = query_voters(&gov, 1, None, None, Some(OrderBy::Desc)).unwrap();
    assert_eq!(
        response.voters,
        vec![VotersResponseItem {
            voter: TEST_VOTER.to_string(),
            vote: VoteOption::Yes,
            balance: amount,
        }]
    );

    let response = query_voters(&gov, 1, Some(TEST_VOTER.to_string()), None, None).unwrap();
    assert_eq!(response.voters.len(), 0);
}

#[test]
fn mod_happy_days_withdraw_voting_tokens() {
    let mut gov = mock_init();
    let res = stake_voting_tokens(&mut gov, &TEST_VOTER.to_string(), 11, 11);
    assert_stake_tokens_result(11, 0, 11, 0, res, &gov);

    let state = query_state(&gov);
    assert_eq!(state, StateResponse { poll_count: 0, total_share: 11, total_deposit: 0 });

    // double the balance, only half will be withdrawn
    let msg = withdraw_voting_tokens(&mut gov, &TEST_VOTER.to_string(), Some(11), 22).unwrap();
    assert_eq!(
        msg,
        OutMsg::Transfer {
            token: VOTING_TOKEN.to_string(),
            recipient: TEST_VOTER.to_string(),
            amount: 11,
        }
    );

    let state = query_state(&gov);
    assert_eq!(state, StateResponse { poll_count: 0, total_share: 6, total_deposit: 0 });
}

#[test]
fn mod_happy_days_withdraw_voting_tokens_all() {
    let mut gov = mock_init();
    let res = stake_voting_tokens(&mut gov, &TEST_VOTER.to_string(), 11, 11);
    assert_stake_tokens_result(11, 0, 11, 0, res, &gov);

    // double the balance, all balance withdrawn
    let msg = withdraw_voting_tokens(&mut gov, &TEST_VOTER.to_string(), None, 22).unwrap();
    assert_eq!(
        msg,
        OutMsg::Transfer {
            token: VOTING_TOKEN.to_string(),
            recipient: TEST_VOTER.to_string(),
            amount: 22,
        }
    );

    let state = query_state(&gov);
    assert_eq!(state, StateResponse { poll_count: 0, total_share: 0, total_deposit: 0 });
}

#[test]
fn mod_withdraw_voting_tokens_remove_not_in_progress_poll_voter_info() {
    let mut gov = mock_init();
    let res = stake_voting_tokens(&mut gov, &TEST_VOTER.to_string(), 11, 11);
    assert_stake_tokens_result(11, 0, 11, 0, res, &gov);

    // fabricate two polls: one in progress and one passed
    let base = Poll {
        id: 1,
        creator: "".to_string(),
        status: PollStatus::InProgress,
        yes_votes: 0,
        no_votes: 0,
        end_time: 0,
        title: "title".to_string(),
        description: "description".to_string(),
        link: None,
        execute_data: None,
        migrate_data: None,
        deposit_amount: 0,
        total_balance_at_end_poll: None,
        staked_amount: None,
    };
    store_poll(&mut gov.polls, base.clone());
    store_poll(&mut gov.polls, Poll { id: 2, status: PollStatus::Passed, ..base });
    gov.state.poll_count = 2;

    let voter = TEST_VOTER.to_string();
    let five = VoterInfo { vote: VoteOption::Yes, balance: 5 };
    store_poll_voter(&mut gov.poll_voters, 1, &voter, five);
    store_poll_voter(&mut gov.poll_voters, 2, &voter, five);
    store_bank(
        &mut gov.bank,
        &voter,
        TokenManager { share: 11, locked_balance: vec![(1, five), (2, five)] },
    );

    // withdrawing must prune the records of polls no longer in progress
    withdraw_voting_tokens(&mut gov, &voter, Some(5), 11).unwrap();

    let kept = load_poll_voter(&gov.poll_voters, 1, TEST_VOTER).unwrap();
    assert_eq!(kept, five);
    assert!(load_poll_voter(&gov.poll_voters, 2, TEST_VOTER).is_none());

    let token_manager = load_bank(&gov.bank, TEST_VOTER);
    assert_eq!(token_manager.locked_balance, vec![(1, five)]);
}

#[test]
fn mod_fails_withdraw_voting_tokens_no_stake() {
    let mut gov = mock_init();
    let res = withdraw_voting_tokens(&mut gov, &TEST_VOTER.to_string(), Some(11), 0);
    assert_eq!(res.err(), Some(GovError::NothingStaked));
}

#[test]
fn mod_fails_withdraw_too_many_tokens() {
    let mut gov = mock_init();
    let res = stake_voting_tokens(&mut gov, &TEST_VOTER.to_string(), 10, 10);
    assert_stake_tokens_result(10, 0, 10, 0, res, &gov);

    let res = withdraw_voting_tokens(&mut gov, &TEST_VOTER.to_string(), Some(11), 10);
    assert_eq!(res.err(), Some(GovError::WithdrawTooMany));
}

#[test]
fn mod_fails_cast_vote_twice() {
    let mut gov = mock_init();
    default_create_poll(&mut gov, 0, "test", "test", None, None, None).unwrap();
    assert_create_poll_result(1, DEFAULT_VOTING_PERIOD, &gov);

    let balance = 11 + DEFAULT_PROPOSAL_DEPOSIT;
    let res = stake_voting_tokens(&mut gov, &TEST_VOTER.to_string(), 11, balance);
    assert_stake_tokens_result(11, DEFAULT_PROPOSAL_DEPOSIT, 11, 1, res, &gov);

    let amount: u128 = 1;
    cast_vote(&mut gov, 0, &TEST_VOTER.to_string(), 1, VoteOption::Yes, amount, balance).unwrap();

    let res = cast_vote(&mut gov, 0, &TEST_VOTER.to_string(), 1, VoteOption::Yes, amount, balance);
    assert_eq!(res.err(), Some(GovError::AlreadyVoted));
}

#[test]
fn mod_fails_cast_vote_without_poll() {
    let mut gov = mock_init();
    let res = cast_vote(&mut gov, DEFAULT_HEIGHT, &TEST_VOTER.to_string(), 0, VoteOption::Yes, 1, 0);
    assert_eq!(res.err(), Some(GovError::PollNotFound));
}

#[test]
fn mod_happy_days_stake_voting_tokens() {
    let mut gov = mock_init();
    let res = stake_voting_tokens(&mut gov, &TEST_VOTER.to_string(), 11, 11);
    assert_stake_tokens_result(11, 0, 11, 0, res, &gov);
}

#[test]
fn mod_fails_insufficient_funds() {
    let mut gov = mock_init();
    let res = stake_voting_tokens(&mut gov, &TEST_VOTER.to_string(), 0, 11);
    assert_eq!(res.err(), Some(GovError::InsufficientFundsSent));
}

#[test]
fn mod_share_calculation() {
    let mut gov = mock_init();

    // create 100 share
    let res = stake_voting_tokens(&mut gov, &TEST_VOTER.to_string(), 100, 100);
    assert_eq!(res, Ok(100));

    // add more balance (100) to make share:balance = 1:2
    let res = stake_voting_tokens(&mut gov, &TEST_VOTER.to_string(), 100, 300);
    assert_eq!(res, Ok(50));

    let msg = withdraw_voting_tokens(&mut gov, &TEST_VOTER.to_string(), Some(100), 300).unwrap();
    assert_eq!(
        msg,
        OutMsg::Transfer {
            token: VOTING_TOKEN.to_string(),
            recipient: TEST_VOTER.to_string(),
            amount: 100,
        }
    );

    // 100 tokens withdrawn
    let staker = query_staker(&gov, &TEST_VOTER.to_string(), 200).unwrap();
    assert_eq!(staker.share, 100);
    assert_eq!(staker.balance, 200);
    assert_eq!(staker.locked_balance, vec![]);
}

#[test]
fn mod_update_config() {
    let mut gov = mock_init();

    // update owner
    let res = governance::commands::update_config(
        &mut gov,
        &TEST_CREATOR.to_string(),
        Some("addr0001".to_string()),
        None,
        None,
        None,
        None,
        None,
        None,
    );
    assert_eq!(res, Ok(()));

    let config = query_config(&gov);
    assert_eq!("addr0001", config.owner.as_str());
    assert_eq!(Decimal::percent(DEFAULT_QUORUM), config.quorum);
    assert_eq!(Decimal::percent(DEFAULT_THRESHOLD), config.threshold);
    assert_eq!(DEFAULT_VOTING_PERIOD, config.voting_period);
    assert_eq!(DEFAULT_TIMELOCK_PERIOD, config.timelock_period);
    assert_eq!(DEFAULT_PROPOSAL_DEPOSIT, config.proposal_deposit);

    // update the remaining items
    let res = governance::commands::update_config(
        &mut gov,
        &"addr0001".to_string(),
        None,
        Some(Decimal::percent(20)),
        Some(Decimal::percent(75)),
        Some(20000),
        Some(20000),
        Some(123),
        Some(11),
    );
    assert_eq!(res, Ok(()));

    let config = query_config(&gov);
    assert_eq!("addr0001", config.owner.as_str());
    assert_eq!(Decimal::percent(20), config.quorum);
    assert_eq!(Decimal::percent(75), config.threshold);
    assert_eq!(20000, config.voting_period);
    assert_eq!(20000, config.timelock_period);
    assert_eq!(123, config.proposal_deposit);
    assert_eq!(11, config.snapshot_period);

    // unauthorized
    let res = governance::commands::update_config(
        &mut gov,
        &TEST_CREATOR.to_string(),
        None,
        None,
        None,
        None,
        None,
        None,
        None,
    );
    assert_eq!(res, Err(GovError::Unauthorized));
}

#[test]
fn mod_add_several_execute_msgs() {
    let mut gov = mock_init();
    let exec_msg_bz = burn_msg(123);
    let exec_msg_bz2 = burn_msg(12);
    let exec_msg_bz3 = burn_msg(1);

    // attach three execute messages out of order
    let execute_msgs = vec![
        PollExecuteMsg { order: 1, contract: VOTING_TOKEN.to_string(), msg: exec_msg_bz },
        PollExecuteMsg { order: 3, contract: VOTING_TOKEN.to_string(), msg: exec_msg_bz3 },
        PollExecuteMsg { order: 2, contract: VOTING_TOKEN.to_string(), msg: exec_msg_bz2 },
    ];
    default_create_poll(&mut gov, 0, "test", "test", None, Some(execute_msgs.clone()), None)
        .unwrap();
    assert_create_poll_result(1, DEFAULT_VOTING_PERIOD, &gov);

    let poll = query_poll(&gov, 1).unwrap();
    let response_execute_data = poll.execute_data.unwrap();
    assert_eq!(response_execute_data.len(), 3);
    // stored exactly as attached, in attachment order
    assert_eq!(response_execute_data, execute_msgs);
}

#[test]
fn mod_execute_poll_with_order() {
    const POLL_START_HEIGHT: u64 = 1000;
    let stake_amount: u128 = 1000;
    let mut gov = mock_init();

    let exec_msg_bz = burn_msg(10);
    let exec_msg_bz2 = burn_msg(20);
    let exec_msg_bz3 = burn_msg(30);
    let exec_msg_bz4 = burn_msg(40);
    let exec_msg_bz5 = burn_msg(50);

    let migrate_msg_bz = vec![10u8];
    let migrate_msg_bz2 = vec![20u8];
    let migrate_msg_bz3 = vec![30u8];
    let migrate_msg_bz4 = vec![40u8];
    let migrate_msg_bz5 = vec![50u8];

    // five execute messages, out of order
    let execute_msgs = vec![
        PollExecuteMsg { order: 3, contract: VOTING_TOKEN.to_string(), msg: exec_msg_bz3.clone() },
        PollExecuteMsg { order: 4, contract: VOTING_TOKEN.to_string(), msg: exec_msg_bz4.clone() },
        PollExecuteMsg { order: 2, contract: VOTING_TOKEN.to_string(), msg: exec_msg_bz2.clone() },
        PollExecuteMsg { order: 5, contract: VOTING_TOKEN.to_string(), msg: exec_msg_bz5.clone() },
        PollExecuteMsg { order: 1, contract: VOTING_TOKEN.to_string(), msg: exec_msg_bz.clone() },
    ];
    // and five migrate messages, out of order
    let migrate_msgs = vec![
        PollMigrateMsg {
            order: 3,
            contract: VOTING_TOKEN.to_string(),
            msg: migrate_msg_bz3.clone(),
            new_code_id: 11,
        },
        PollMigrateMsg {
            order: 4,
            contract: VOTING_TOKEN.to_string(),
            msg: migrate_msg_bz4.clone(),
            new_code_id: 11,
        },
        PollMigrateMsg {
            order: 2,
            contract: VOTING_TOKEN.to_string(),
            msg: migrate_msg_bz2.clone(),
            new_code_id: 11,
        },
        PollMigrateMsg {
            order: 5,
            contract: VOTING_TOKEN.to_string(),
            msg: migrate_msg_bz5.clone(),
            new_code_id: 11,
        },
        PollMigrateMsg {
            order: 1,
            contract: VOTING_TOKEN.to_string(),
            msg: migrate_msg_bz.clone(),
            new_code_id: 11,
        },
    ];

    default_create_poll(
        &mut gov,
        POLL_START_HEIGHT,
        "test",
        "test",
        None,
        Some(execute_msgs),
        Some(migrate_msgs),
    )
    .unwrap();
    assert_create_poll_result(1, POLL_START_HEIGHT + DEFAULT_VOTING_PERIOD, &gov);

    let balance = stake_amount + DEFAULT_PROPOSAL_DEPOSIT;
    let res = stake_voting_tokens(&mut gov, &TEST_VOTER.to_string(), stake_amount, balance);
    assert_stake_tokens_result(stake_amount, DEFAULT_PROPOSAL_DEPOSIT, stake_amount, 1, res, &gov);

    cast_vote(
        &mut gov,
        POLL_START_HEIGHT,
        &TEST_VOTER.to_string(),
        1,
        VoteOption::Yes,
        stake_amount,
        balance,
    )
    .unwrap();

    let end_height = POLL_START_HEIGHT + DEFAULT_VOTING_PERIOD;
    let outcome = end_poll(&mut gov, end_height, 1, balance).unwrap();
    assert_eq!(outcome.status, PollStatus::Passed);
    assert_eq!(
        outcome.refund,
        Some(OutMsg::Transfer {
            token: VOTING_TOKEN.to_string(),
            recipient: TEST_CREATOR.to_string(),
            amount: DEFAULT_PROPOSAL_DEPOSIT,
        })
    );

    let exec_height = end_height + DEFAULT_TIMELOCK_PERIOD;
    let res = execute_poll(&mut gov, exec_height, 1).unwrap();
    assert_eq!(res, OutMsg::ExecutePollMsgs { poll_id: 1 });

    // executes first, ascending by order; then migrations, ascending by order
    let msgs = execute_poll_messages(&gov, 1).unwrap();
    assert_eq!(
        msgs,
        vec![
            OutMsg::Execute { order: 1, contract: VOTING_TOKEN.to_string(), msg: exec_msg_bz },
            OutMsg::Migrate {
                order: 1,
                contract: VOTING_TOKEN.to_string(),
                new_code_id: 11,
                msg: migrate_msg_bz,
            },
            OutMsg::Execute { order: 2, contract: VOTING_TOKEN.to_string(), msg: exec_msg_bz2 },
            OutMsg::Migrate {
                order: 2,
                contract: VOTING_TOKEN.to_string(),
                new_code_id: 11,
                msg: migrate_msg_bz2,
            },
            OutMsg::Execute { order: 3, contract: VOTING_TOKEN.to_string(), msg: exec_msg_bz3 },
            OutMsg::Migrate {
                order: 3,
                contract: VOTING_TOKEN.to_string(),
                new_code_id: 11,
                msg: migrate_msg_bz3,
            },
            OutMsg::Execute { order: 4, contract: VOTING_TOKEN.to_string(), msg: exec_msg_bz4 },
            OutMsg::Migrate {
                order: 4,
                contract: VOTING_TOKEN.to_string(),
                new_code_id: 11,
                msg: migrate_msg_bz4,
            },
            OutMsg::Execute { order: 5, contract: VOTING_TOKEN.to_string(), msg: exec_msg_bz5 },
            OutMsg::Migrate {
                order: 5,
                contract: VOTING_TOKEN.to_string(),
                new_code_id: 11,
                msg: migrate_msg_bz5,
            },
        ]
    );
    assert_eq!(gov.tmp_poll_id, Some(1));
}

#[test]
fn mod_snapshot_poll() {
    let stake_amount: u128 = 1000;
    let mut gov = mock_init();

    default_create_poll(&mut gov, DEFAULT_HEIGHT, "test", "test", None, None, None).unwrap();
    let poll = query_poll(&gov, 1).unwrap();
    assert_eq!(poll.end_time, DEFAULT_HEIGHT + DEFAULT_VOTING_PERIOD);

    // too far from the end: must not be executed
    let res = governance::commands::snapshot_poll(&mut gov, DEFAULT_HEIGHT, 1, 0);
    assert_eq!(res.err(), Some(GovError::SnapshotWindowNotOpen));

    // move into the window
    let now = DEFAULT_HEIGHT + DEFAULT_VOTING_PERIOD - 10;
    let balance = stake_amount + DEFAULT_PROPOSAL_DEPOSIT;
    let res = governance::commands::snapshot_poll(&mut gov, now, 1, balance);
    assert_eq!(res, Ok(stake_amount));

    // must not be executed twice
    let res = governance::commands::snapshot_poll(&mut gov, now, 1, balance);
    assert_eq!(res.err(), Some(GovError::SnapshotAlreadyOccurred));
}

#[test]
fn mod_happy_days_cast_vote_with_snapshot() {
    let mut gov = mock_init();
    default_create_poll(&mut gov, 0, "test", "test", None, None, None).unwrap();
    assert_create_poll_result(1, DEFAULT_VOTING_PERIOD, &gov);

    let balance = 11 + DEFAULT_PROPOSAL_DEPOSIT;
    let res = stake_voting_tokens(&mut gov, &TEST_VOTER.to_string(), 11, balance);
    assert_stake_tokens_result(11, DEFAULT_PROPOSAL_DEPOSIT, 11, 1, res, &gov);

    // cast vote without snapshot
    let amount: u128 = 10;
    cast_vote(&mut gov, 0, &TEST_VOTER.to_string(), 1, VoteOption::Yes, amount, balance).unwrap();

    let balance = 22 + DEFAULT_PROPOSAL_DEPOSIT;
    let poll = query_poll(&gov, 1).unwrap();
    assert_eq!(poll.staked_amount, None);
    let end_time = poll.end_time;

    // another staker and a vote inside the window takes the snapshot
    stake_voting_tokens(&mut gov, &TEST_VOTER_2.to_string(), 11, balance).unwrap();
    cast_vote(
        &mut gov,
        end_time - 9,
        &TEST_VOTER_2.to_string(),
        1,
        VoteOption::Yes,
        amount,
        balance,
    )
    .unwrap();
    let poll = query_poll(&gov, 1).unwrap();
    assert_eq!(poll.staked_amount, Some(22));

    // an explicit snapshot will not go through any more
    let res = governance::commands::snapshot_poll(&mut gov, end_time - 9, 1, balance);
    assert_eq!(res.err(), Some(GovError::SnapshotAlreadyOccurred));

    // balance grows; a later vote does not move the snapshot
    let balance = 33 + DEFAULT_PROPOSAL_DEPOSIT;
    stake_voting_tokens(&mut gov, &TEST_VOTER_3.to_string(), 11, balance).unwrap();
    cast_vote(
        &mut gov,
        end_time - 8,
        &TEST_VOTER_3.to_string(),
        1,
        VoteOption::Yes,
        amount,
        balance,
    )
    .unwrap();
    let poll = query_poll(&gov, 1).unwrap();
    assert_eq!(poll.staked_amount, Some(22));
}

#[test]
fn mod_fails_end_poll_quorum_inflation_without_snapshot_poll() {
    const POLL_START_HEIGHT: u64 = 1000;
    let stake_amount: u128 = 1000;
    let mut gov = mock_init();

    let execute_msgs = vec![PollExecuteMsg {
        order: 1,
        contract: VOTING_TOKEN.to_string(),
        msg: burn_msg(123),
    }];
    default_create_poll(&mut gov, POLL_START_HEIGHT, "test", "test", None, Some(execute_msgs), None)
        .unwrap();
    assert_create_poll_result(1, POLL_START_HEIGHT + DEFAULT_VOTING_PERIOD, &gov);

    let balance = stake_amount + DEFAULT_PROPOSAL_DEPOSIT;
    let res = stake_voting_tokens(&mut gov, &TEST_VOTER.to_string(), stake_amount, balance);
    assert_stake_tokens_result(stake_amount, DEFAULT_PROPOSAL_DEPOSIT, stake_amount, 1, res, &gov);

    cast_vote(
        &mut gov,
        POLL_START_HEIGHT,
        &TEST_VOTER.to_string(),
        1,
        VoteOption::Yes,
        stake_amount,
        balance,
    )
    .unwrap();

    // just before the end the pool balance is inflated tenfold
    let now = POLL_START_HEIGHT + DEFAULT_VOTING_PERIOD - 10;
    let balance = 10 * stake_amount + DEFAULT_PROPOSAL_DEPOSIT;
    let res = stake_voting_tokens(&mut gov, &TEST_VOTER_2.to_string(), 8 * stake_amount, balance);
    assert_eq!(res, Ok(4 * stake_amount));

    cast_vote(&mut gov, now, &TEST_VOTER_2.to_string(), 1, VoteOption::Yes, stake_amount, balance)
        .unwrap();

    // no snapshot was taken before the inflation, so the inflated balance
    // is the quorum denominator
    let outcome = end_poll(&mut gov, now + 10, 1, balance).unwrap();
    assert_eq!(outcome.status, PollStatus::Rejected);
    assert_eq!(outcome.rejected_reason, Some(RejectReason::QuorumNotReached));
}

#[test]
fn mod_happy_days_end_poll_with_controlled_quorum() {
    const POLL_START_HEIGHT: u64 = 1000;
    let stake_amount: u128 = 1000;
    let mut gov = mock_init();

    let execute_msgs = vec![PollExecuteMsg {
        order: 1,
        contract: VOTING_TOKEN.to_string(),
        msg: burn_msg(123),
    }];
    default_create_poll(&mut gov, POLL_START_HEIGHT, "test", "test", None, Some(execute_msgs), None)
        .unwrap();
    assert_create_poll_result(1, POLL_START_HEIGHT + DEFAULT_VOTING_PERIOD, &gov);

    let balance = stake_amount + DEFAULT_PROPOSAL_DEPOSIT;
    let res = stake_voting_tokens(&mut gov, &TEST_VOTER.to_string(), stake_amount, balance);
    assert_stake_tokens_result(stake_amount, DEFAULT_PROPOSAL_DEPOSIT, stake_amount, 1, res, &gov);

    cast_vote(
        &mut gov,
        POLL_START_HEIGHT,
        &TEST_VOTER.to_string(),
        1,
        VoteOption::Yes,
        stake_amount,
        balance,
    )
    .unwrap();

    // freeze the denominator inside the window
    let now = POLL_START_HEIGHT + DEFAULT_VOTING_PERIOD - 10;
    let res = governance::commands::snapshot_poll(&mut gov, now, 1, balance);
    assert_eq!(res, Ok(stake_amount));

    // the pool balance is then inflated tenfold
    let balance = 10 * stake_amount + DEFAULT_PROPOSAL_DEPOSIT;
    let res = stake_voting_tokens(&mut gov, &TEST_VOTER_2.to_string(), 8 * stake_amount, balance);
    assert_eq!(res, Ok(4 * stake_amount));

    cast_vote(
        &mut gov,
        now,
        &TEST_VOTER_2.to_string(),
        1,
        VoteOption::Yes,
        8 * stake_amount,
        balance,
    )
    .unwrap();

    // quorum must reach: the snapshot ignores the inflation
    let outcome = end_poll(&mut gov, now + 10, 1, balance).unwrap();
    assert_eq!(outcome.status, PollStatus::Passed);
    assert_eq!(outcome.rejected_reason, None);
    assert_eq!(
        outcome.refund,
        Some(OutMsg::Transfer {
            token: VOTING_TOKEN.to_string(),
            recipient: TEST_CREATOR.to_string(),
            amount: DEFAULT_PROPOSAL_DEPOSIT,
        })
    );

    let poll = query_poll(&gov, 1).unwrap();
    assert_eq!(poll.total_balance_at_end_poll, Some(stake_amount));
    assert_eq!(poll.yes_votes, 9 * stake_amount);

    // the actual staked weight was ten times bigger than the snapshot
    assert_eq!(balance - DEFAULT_PROPOSAL_DEPOSIT, 10 * stake_amount);
}

#[test]
fn execute_poll_with_empty_execute_data() {
    const POLL_START_TIME: u64 = 10000;
    let stake_amount: u128 = 1000;
    let mut gov = mock_init();

    default_create_poll(&mut gov, POLL_START_TIME, "test", "test", None, None, None).unwrap();
    assert_create_poll_result(1, POLL_START_TIME + DEFAULT_VOTING_PERIOD, &gov);

    let balance = stake_amount + DEFAULT_PROPOSAL_DEPOSIT;
    let res = stake_voting_tokens(&mut gov, &TEST_VOTER.to_string(), stake_amount, balance);
    assert_stake_tokens_result(stake_amount, DEFAULT_PROPOSAL_DEPOSIT, stake_amount, 1, res, &gov);

    cast_vote(
        &mut gov,
        POLL_START_TIME,
        &TEST_VOTER.to_string(),
        1,
        VoteOption::Yes,
        stake_amount,
        balance,
    )
    .unwrap();

    let end_time = POLL_START_TIME + DEFAULT_VOTING_PERIOD;
    let outcome = end_poll(&mut gov, end_time, 1, balance).unwrap();
    assert_eq!(outcome.status, PollStatus::Passed);
    assert_eq!(
        outcome.refund,
        Some(OutMsg::Transfer {
            token: VOTING_TOKEN.to_string(),
            recipient: TEST_CREATOR.to_string(),
            amount: DEFAULT_PROPOSAL_DEPOSIT,
        })
    );

    // a poll without executable data cannot be dispatched
    let res = execute_poll(&mut gov, end_time + DEFAULT_TIMELOCK_PERIOD, 1);
    assert_eq!(res.err(), Some(GovError::NoExecuteData));

    let poll = query_poll(&gov, 1).unwrap();
    assert_eq!(poll.status, PollStatus::Passed);

    let response =
        governance::queries::query_polls(&gov, Some(PollStatus::Passed), None, None, Some(OrderBy::Desc));
    assert_eq!(response.polls[0], poll);
}
