use terraland::error::{ContractError, PaymentError};
use terraland::payment::{Coin, MessageInfo};
use terraland::staking::claims::{Claim, InstantClaim};
use terraland::staking::contract::Balance;
use terraland::staking::entry::{execute, instantiate, query, QueryResponse};
use terraland::staking::epoch::WEEK;
use terraland::staking::ledger::Ledger;
use terraland::response::Payout;
use terraland::staking::msg::{
    Cw20ReceiveMsg, ExecuteMsg, InstantiateMsg, NewConfig, QueryMsg, ReceiveMsg,
};
use terraland::staking::state::{Schedule, Stake};

const INIT_ADMIN: &str = "admin";
const USER1: &str = "somebody";
const USER2: &str = "else";
const USER3: &str = "funny";
const UNBONDING_PERIOD: u64 = 600;
const BURN_ADDRESS: &str = "burn1234567890";
const TERRALAND_TOKEN_ADDRESS: &str = "tland1234567890";
const STAKING_TOKEN_ADDRESS: &str = "staking1234567890";
const START: u64 = 1_571_797_419;

fn default_instantiate_with(percentage: u64) -> Ledger {
    instantiate(InstantiateMsg {
        owner: INIT_ADMIN.into(),
        staking_token: STAKING_TOKEN_ADDRESS.into(),
        terraland_token: TERRALAND_TOKEN_ADDRESS.into(),
        unbonding_period: UNBONDING_PERIOD,
        burn_address: BURN_ADDRESS.into(),
        instant_claim_percentage_loss: percentage,
        distribution_schedule: Vec::from([Schedule {
            amount: 150_000_000_000,
            start_time: START,
            end_time: START + WEEK,
        }]),
    })
}

fn default_instantiate() -> Ledger {
    default_instantiate_with(0)
}

fn staking_token(amount: u128) -> Balance {
    Balance::Cw20 { address: STAKING_TOKEN_ADDRESS.into(), amount }
}

fn info(sender: &str, funds: Vec<Coin>) -> MessageInfo {
    MessageInfo { sender: sender.into(), funds }
}

fn fee() -> Vec<Coin> {
    vec![Coin { denom: "uust".into(), amount: 1_000_000 }]
}

fn bond_cw20(ledger: &mut Ledger, user1: u128, user2: u128, user3: u128, height_delta: u64) {
    let now = START + height_delta * 6;
    for (addr, stake) in &[(USER1, user1), (USER2, user2), (USER3, user3)] {
        if *stake != 0 {
            let msg = ExecuteMsg::Receive(Cw20ReceiveMsg {
                sender: addr.to_string(),
                amount: *stake,
                msg: ReceiveMsg::Bond {},
            });
            execute(ledger, now, &info(STAKING_TOKEN_ADDRESS, vec![]), msg).unwrap();
        }
    }
}

fn assert_stake(ledger: &Ledger, user1: u128, user2: u128, user3: u128, height_delta: u64) {
    let now = START + height_delta * 6;
    assert_eq!(ledger.member(&USER1.to_string(), now).unwrap().unwrap().stake, user1);
    assert_eq!(ledger.member(&USER2.to_string(), now).unwrap().unwrap().stake, user2);
    assert_eq!(ledger.member(&USER3.to_string(), now).unwrap().unwrap().stake, user3);
}

#[test]
fn proper_instantiation() {
    let ledger = default_instantiate();

    assert_eq!(INIT_ADMIN, ledger.config().owner.as_str());
    assert_eq!(0, ledger.total().amount);
    assert!(ledger.member(&USER1.to_string(), START).unwrap().is_none());
}

#[test]
fn cw20_token_bond() {
    let mut ledger = default_instantiate();

    assert!(ledger.member(&USER1.to_string(), START).unwrap().is_none());
    assert!(ledger.member(&USER2.to_string(), START).unwrap().is_none());
    assert!(ledger.member(&USER3.to_string(), START).unwrap().is_none());

    bond_cw20(&mut ledger, 12_000, 7_500, 500, 1);

    assert_stake(&ledger, 12_000, 7_500, 500, 1);
}

#[test]
fn total_is_the_sum_of_the_stakes() {
    let mut ledger = default_instantiate();
    bond_cw20(&mut ledger, 12_000, 7_500, 500, 1);
    assert_eq!(ledger.total(), Stake { amount: 20_000, time: START + 6 });
    ledger.unbond(&USER1.to_string(), 2_000, START + 100).unwrap();
    assert_eq!(ledger.total(), Stake { amount: 18_000, time: START + 100 });
    assert_eq!(ledger.staked(&USER1.to_string()).amount, 10_000);
    assert_eq!(ledger.staked(&USER2.to_string()).amount, 7_500);
    assert_eq!(ledger.staked(&USER3.to_string()).amount, 500);
}

#[test]
fn member_weights_add_up_to_the_epoch_weight() {
    let mut ledger = default_instantiate();
    let a = USER1.to_string();
    let b = USER2.to_string();
    ledger.bond(&a, &staking_token(12_000), START).unwrap();
    ledger.bond(&b, &staking_token(7_500), START + 10).unwrap();
    // settle both accounts at the same instant
    ledger.unbond(&a, 1, START + 50).unwrap();
    ledger.unbond(&b, 1, START + 50).unwrap();
    assert_eq!(ledger.member_weight(&a, 1), 12_000 * 50);
    assert_eq!(ledger.member_weight(&b, 1), 7_500 * 40);
    assert_eq!(ledger.epoch_weight(1), 12_000 * 50 + 7_500 * 40);
}

#[test]
fn one_week_of_two_stakes_is_shared_in_proportion() {
    let mut ledger = default_instantiate();
    let a = USER1.to_string();
    let b = USER2.to_string();
    ledger.bond(&a, &staking_token(12_000), START).unwrap();
    ledger.bond(&b, &staking_token(7_500), START).unwrap();
    let earned_a = ledger.earned(&a, START + WEEK).unwrap();
    let earned_b = ledger.earned(&b, START + WEEK).unwrap();
    // 150_000_000_000 / 604_800 = 248_015 a second, for 604_800 seconds
    assert_eq!(earned_a, 149_999_472_000 * 12_000 / 19_500);
    assert_eq!(earned_a, 92_307_367_384);
    assert_eq!(earned_b, 57_692_104_615);
    let ratio = earned_a as f64 / earned_b as f64;
    assert!((ratio - 1.6).abs() < 1e-9);
}

#[test]
fn reward_query_is_repeatable() {
    let mut ledger = default_instantiate();
    let a = USER1.to_string();
    ledger.bond(&a, &staking_token(12_000), START).unwrap();
    let first = ledger.earned(&a, START + 1000).unwrap();
    let second = ledger.earned(&a, START + 1000).unwrap();
    assert_eq!(first, second);
    assert_eq!(first, 248_015 * 1000);
}

#[test]
fn claim_matures_after_the_unbonding_period() {
    let mut ledger = default_instantiate();
    let a = USER1.to_string();
    let t0 = START + 100;
    ledger.bond(&a, &staking_token(1_000_000), START).unwrap();
    ledger.unbond(&a, 400_000, t0).unwrap();
    assert_eq!(
        ledger.claims(&a),
        vec![Claim { amount: 400_000, release_at: t0 + UNBONDING_PERIOD }]
    );
    assert!(matches!(
        ledger.claim(&a, t0 + UNBONDING_PERIOD - 1),
        Err(ContractError::NothingToClaim)
    ));
    assert_eq!(ledger.claims(&a).len(), 1);
    assert_eq!(ledger.claim(&a, t0 + UNBONDING_PERIOD).unwrap(), 400_000);
    assert!(ledger.claims(&a).is_empty());
    assert!(matches!(
        ledger.claim(&a, t0 + UNBONDING_PERIOD + 1),
        Err(ContractError::NothingToClaim)
    ));
    assert_eq!(ledger.staked(&a).amount, 600_000);
}

#[test]
fn instant_claim_keeps_the_penalty() {
    let mut ledger = default_instantiate_with(10);
    let a = USER1.to_string();
    ledger.bond(&a, &staking_token(1_000_000), START).unwrap();
    ledger.unbond(&a, 1_000_000, START + 5).unwrap();
    let response = execute(&mut ledger, START + 5, &info(USER1, fee()), ExecuteMsg::InstantClaim {})
        .unwrap();
    assert_eq!(response.payouts.len(), 2);
    match &response.payouts[0] {
        Payout::Token { token, recipient, amount } => {
            assert_eq!(token, STAKING_TOKEN_ADDRESS);
            assert_eq!(recipient, USER1);
            assert_eq!(*amount, 900_000);
        }
        _ => panic!("the payout is a token transfer"),
    }
    match &response.payouts[1] {
        Payout::Token { token, recipient, amount } => {
            assert_eq!(token, STAKING_TOKEN_ADDRESS);
            assert_eq!(recipient, BURN_ADDRESS);
            assert_eq!(*amount, 100_000);
        }
        _ => panic!("the fee is a token transfer"),
    }
    assert!(ledger.claims(&a).is_empty());
}

#[test]
fn instant_claim_amounts() {
    let mut ledger = default_instantiate_with(10);
    let a = USER1.to_string();
    ledger.bond(&a, &staking_token(1_000_000), START).unwrap();
    ledger.unbond(&a, 1_000_000, START + 5).unwrap();
    assert_eq!(
        ledger.instant_claim(&a, START + 5).unwrap(),
        InstantClaim { payout: 900_000, fee: 100_000 }
    );
}

#[test]
fn second_withdraw_in_a_row_finds_nothing() {
    let mut ledger = default_instantiate();
    let a = USER1.to_string();
    ledger.bond(&a, &staking_token(12_000), START).unwrap();
    let now = START + 1000;
    assert_eq!(ledger.withdraw(&a, now).unwrap(), 248_015 * 1000);
    assert_eq!(ledger.withdrawn(&a), 248_015 * 1000);
    assert!(matches!(ledger.withdraw(&a, now), Err(ContractError::NothingToWithdraw)));
    assert_eq!(ledger.withdrawn(&a), 248_015 * 1000);
    // one second later one second's emission is due
    assert_eq!(ledger.withdraw(&a, now + 1).unwrap(), 248_015);
}

#[test]
fn bond_unbond_claim_round_trip() {
    let mut ledger = default_instantiate();
    let a = USER1.to_string();
    ledger.bond(&a, &staking_token(777), START + 3).unwrap();
    ledger.unbond(&a, 777, START + 3).unwrap();
    assert_eq!(ledger.member_weight(&a, 1), 0);
    assert_eq!(ledger.claim(&a, START + 3 + UNBONDING_PERIOD).unwrap(), 777);
    assert_eq!(ledger.staked(&a).amount, 0);
    assert_eq!(ledger.total().amount, 0);
}

#[test]
fn bond_of_another_token_is_refused() {
    let mut ledger = default_instantiate();
    let a = USER1.to_string();
    let other = Balance::Cw20 { address: "other".into(), amount: 5 };
    match ledger.bond(&a, &other, START) {
        Err(ContractError::InvalidToken(address)) => assert_eq!(address, "other"),
        _ => panic!("another token is invalid"),
    }
    assert!(matches!(
        ledger.bond(&a, &Balance::Native(vec![]), START),
        Err(ContractError::MissedToken)
    ));
    assert!(matches!(
        ledger.bond(&a, &staking_token(5), START - 1),
        Err(ContractError::StakingClosed)
    ));
    assert!(matches!(
        ledger.bond(&a, &staking_token(5), START + WEEK + 1),
        Err(ContractError::StakingClosed)
    ));
    assert!(ledger.member(&a, START).unwrap().is_none());
    assert_eq!(ledger.total().amount, 0);
}

#[test]
fn unbond_of_more_than_the_stake_underflows() {
    let mut ledger = default_instantiate();
    let a = USER1.to_string();
    ledger.bond(&a, &staking_token(5), START).unwrap();
    assert!(matches!(ledger.unbond(&a, 6, START + 1), Err(ContractError::Underflow)));
    assert!(matches!(
        ledger.unbond(&USER2.to_string(), 1, START + 1),
        Err(ContractError::Underflow)
    ));
    assert_eq!(ledger.staked(&a), Stake { amount: 5, time: START });
    assert_eq!(ledger.member_weight(&a, 1), 0);
    assert!(ledger.claims(&a).is_empty());
}

#[test]
fn a_failed_operation_changes_nothing() {
    let mut ledger = default_instantiate();
    let a = USER1.to_string();
    ledger.bond(&a, &staking_token(5), START + 10).unwrap();
    // time cannot go back while stake is outstanding
    assert!(matches!(
        ledger.bond(&a, &staking_token(5), START + 9),
        Err(ContractError::Underflow)
    ));
    assert!(matches!(ledger.unbond(&a, 1, START + 9), Err(ContractError::Underflow)));
    assert!(matches!(ledger.withdraw(&a, START + 9), Err(ContractError::Underflow)));
    assert!(matches!(ledger.earned(&a, START + 9), Err(ContractError::Underflow)));
    assert_eq!(ledger.staked(&a), Stake { amount: 5, time: START + 10 });
    assert_eq!(ledger.total(), Stake { amount: 5, time: START + 10 });
}

#[test]
fn weight_accrues_across_epochs() {
    let mut ledger = instantiate(InstantiateMsg {
        owner: INIT_ADMIN.into(),
        staking_token: STAKING_TOKEN_ADDRESS.into(),
        terraland_token: TERRALAND_TOKEN_ADDRESS.into(),
        unbonding_period: UNBONDING_PERIOD,
        burn_address: BURN_ADDRESS.into(),
        instant_claim_percentage_loss: 0,
        distribution_schedule: vec![
            Schedule { amount: 604_800_000, start_time: START, end_time: START + 4 * WEEK },
        ],
    });
    assert_eq!(ledger.config().start_time, START);
    assert_eq!(ledger.config().end_time, START + 4 * WEEK);
    let a = USER1.to_string();
    let b = USER2.to_string();
    ledger.bond(&a, &staking_token(100), START + WEEK - 10).unwrap();
    ledger.bond(&b, &staking_token(300), START + WEEK + 10).unwrap();
    ledger.unbond(&a, 100, START + 2 * WEEK + 20).unwrap();
    assert_eq!(ledger.member_weight(&a, 1), 1_000);
    assert_eq!(ledger.member_weight(&a, 2), 100 * WEEK as u128);
    assert_eq!(ledger.member_weight(&a, 3), 2_000);
    assert_eq!(ledger.member_weight(&b, 2), 0);
    assert_eq!(ledger.epoch_weight(1), 1_000);
    assert_eq!(ledger.epoch_weight(2), 100 * 10 + 400 * (WEEK as u128 - 10));
    assert_eq!(ledger.epoch_weight(3), 400 * 20);
    // b is settled on a copy when its reward is asked for
    let now = START + 2 * WEEK + 20;
    let weight_b = 300 * (WEEK as u128 - 10);
    let expected_b = 1_000 * WEEK as u128 * weight_b / (100 * 10 + 400 * (WEEK as u128 - 10))
        + 20_000 * 6_000 / 8_000;
    assert_eq!(ledger.earned(&b, now).unwrap(), expected_b);
    let expected_a = 1_000 * WEEK as u128
        + 1_000 * WEEK as u128 * (100 * WEEK as u128) / (100 * 10 + 400 * (WEEK as u128 - 10))
        + 20_000 * 2_000 / 8_000;
    assert_eq!(ledger.earned(&a, now).unwrap(), expected_a);
}

#[test]
fn messages_that_cost_a_fee_are_refused_without_it() {
    let mut ledger = default_instantiate();
    bond_cw20(&mut ledger, 12_000, 0, 0, 1);
    let now = START + 100;
    match execute(&mut ledger, now, &info(USER1, vec![]), ExecuteMsg::Unbond { tokens: 5 }) {
        Err(ContractError::Payment(PaymentError::NoFunds)) => {}
        _ => panic!("no funds were sent"),
    }
    let empty = vec![Coin { denom: "uust".into(), amount: 0 }];
    match execute(&mut ledger, now, &info(USER1, empty), ExecuteMsg::Claim {}) {
        Err(ContractError::Payment(PaymentError::NoFunds)) => {}
        _ => panic!("a coin of nothing is no funds"),
    }
    let two = vec![
        Coin { denom: "uust".into(), amount: 1_000_000 },
        Coin { denom: "uluna".into(), amount: 1 },
    ];
    match execute(&mut ledger, now, &info(USER1, two), ExecuteMsg::InstantClaim {}) {
        Err(ContractError::Payment(PaymentError::MultipleDenoms)) => {}
        _ => panic!("two coins were sent"),
    }
    let other = vec![Coin { denom: "uluna".into(), amount: 1_000_000 }];
    match execute(&mut ledger, now, &info(USER1, other), ExecuteMsg::Unbond { tokens: 5 }) {
        Err(ContractError::Payment(PaymentError::MissingDenom(denom))) => {
            assert_eq!(denom, "uust")
        }
        _ => panic!("another denomination was sent"),
    }
    let short = vec![Coin { denom: "uust".into(), amount: 999_999 }];
    assert!(matches!(
        execute(&mut ledger, now, &info(USER1, short), ExecuteMsg::Unbond { tokens: 5 }),
        Err(ContractError::InvalidFeeAmount)
    ));
    assert_eq!(ledger.total(), Stake { amount: 12_000, time: START + 6 });
    let response =
        execute(&mut ledger, now, &info(USER1, fee()), ExecuteMsg::Unbond { tokens: 5 }).unwrap();
    assert!(response.payouts.is_empty());
    assert_eq!(ledger.total(), Stake { amount: 11_995, time: now });
}

#[test]
fn claim_and_withdraw_ask_for_transfers() {
    let mut ledger = default_instantiate();
    bond_cw20(&mut ledger, 1_000_000, 0, 0, 0);
    let t0 = START + 50;
    execute(&mut ledger, t0, &info(USER1, fee()), ExecuteMsg::Unbond { tokens: 400_000 }).unwrap();
    assert!(matches!(
        execute(&mut ledger, t0 + UNBONDING_PERIOD - 1, &info(USER1, fee()), ExecuteMsg::Claim {}),
        Err(ContractError::NothingToClaim)
    ));
    let response =
        execute(&mut ledger, t0 + UNBONDING_PERIOD, &info(USER1, fee()), ExecuteMsg::Claim {})
            .unwrap();
    assert_eq!(response.payouts.len(), 1);
    match &response.payouts[0] {
        Payout::Token { token, recipient, amount } => {
            assert_eq!(token, STAKING_TOKEN_ADDRESS);
            assert_eq!(recipient, USER1);
            assert_eq!(*amount, 400_000);
        }
        _ => panic!("the claim is paid in the staking token"),
    }
    let response =
        execute(&mut ledger, START + 1_000, &info(USER1, vec![]), ExecuteMsg::Withdraw {}).unwrap();
    assert_eq!(response.payouts.len(), 1);
    match &response.payouts[0] {
        Payout::Token { token, recipient, amount } => {
            assert_eq!(token, TERRALAND_TOKEN_ADDRESS);
            assert_eq!(recipient, USER1);
            assert_eq!(*amount, 248_015 * 1_000);
        }
        _ => panic!("the reward is paid in the reward token"),
    }
    assert!(matches!(
        execute(&mut ledger, START + 1_000, &info(USER1, vec![]), ExecuteMsg::Withdraw {}),
        Err(ContractError::NothingToWithdraw)
    ));
}

#[test]
fn only_the_owner_changes_the_settings() {
    let mut ledger = default_instantiate();
    let new = || NewConfig {
        owner: Some("heir".into()),
        burn_address: None,
        unbonding_period: Some(5),
        instant_claim_percentage_loss: None,
        distribution_schedule: Some(vec![
            Schedule { amount: 1, start_time: START, end_time: START + 10 },
            Schedule { amount: 2, start_time: START + 10, end_time: START + 30 },
        ]),
    };
    assert!(matches!(
        execute(&mut ledger, START, &info(USER1, vec![]), ExecuteMsg::UpdateConfig(new())),
        Err(ContractError::Unauthorized)
    ));
    assert_eq!(ledger.config().owner, INIT_ADMIN);
    execute(&mut ledger, START, &info(INIT_ADMIN, vec![]), ExecuteMsg::UpdateConfig(new()))
        .unwrap();
    assert_eq!(ledger.config().owner, "heir");
    assert_eq!(ledger.config().unbonding_period, 5);
    assert_eq!(ledger.config().burn_address, BURN_ADDRESS);
    assert_eq!(ledger.config().instant_claim_percentage_loss, 0);
    assert_eq!(ledger.config().distribution_schedule.len(), 2);
    assert_eq!(ledger.config().start_time, START);
    assert_eq!(ledger.config().end_time, START + 30);
    assert!(matches!(
        execute(&mut ledger, START, &info(INIT_ADMIN, vec![]), ExecuteMsg::UpdateConfig(new())),
        Err(ContractError::Unauthorized)
    ));
}

#[test]
fn only_the_owner_withdraws_what_the_contract_holds() {
    let mut ledger = default_instantiate();
    assert!(matches!(
        execute(
            &mut ledger,
            START,
            &info(USER1, vec![]),
            ExecuteMsg::UstWithdraw { recipient: USER1.into() }
        ),
        Err(ContractError::Unauthorized)
    ));
    assert!(matches!(
        execute(
            &mut ledger,
            START,
            &info(USER1, vec![]),
            ExecuteMsg::TokenWithdraw { token: "token".into(), recipient: USER1.into() }
        ),
        Err(ContractError::Unauthorized)
    ));
    let response = execute(
        &mut ledger,
        START,
        &info(INIT_ADMIN, vec![]),
        ExecuteMsg::UstWithdraw { recipient: USER2.into() },
    )
    .unwrap();
    match &response.payouts[..] {
        [Payout::AllNative { denom, recipient }] => {
            assert_eq!(denom, "uust");
            assert_eq!(recipient, USER2);
        }
        _ => panic!("the native balance goes to the recipient"),
    }
    let response = execute(
        &mut ledger,
        START,
        &info(INIT_ADMIN, vec![]),
        ExecuteMsg::TokenWithdraw { token: "token".into(), recipient: USER2.into() },
    )
    .unwrap();
    match &response.payouts[..] {
        [Payout::AllOfToken { token, recipient }] => {
            assert_eq!(token, "token");
            assert_eq!(recipient, USER2);
        }
        _ => panic!("the token balance goes to the recipient"),
    }
}

#[test]
fn members_are_listed_in_the_order_of_their_addresses() {
    let mut ledger = default_instantiate();
    for (i, name) in ["delta", "alpha", "charlie", "bravo", "alphabet", "Zulu"].iter().enumerate() {
        ledger.bond(&name.to_string(), &staking_token(100 + i as u128), START).unwrap();
    }
    let names = |ledger: &Ledger, start_after: Option<&str>, limit: Option<u32>| -> Vec<String> {
        ledger
            .list_members(start_after.map(|s| s.to_string()), limit, START + 10)
            .unwrap()
            .members
            .into_iter()
            .map(|m| m.address)
            .collect()
    };
    assert_eq!(
        names(&ledger, None, None),
        vec!["Zulu", "alpha", "alphabet", "bravo", "charlie", "delta"]
    );
    assert_eq!(names(&ledger, None, Some(2)), vec!["Zulu", "alpha"]);
    assert_eq!(names(&ledger, Some("alpha"), Some(2)), vec!["alphabet", "bravo"]);
    assert_eq!(names(&ledger, Some("b"), Some(100)), vec!["bravo", "charlie", "delta"]);
    assert_eq!(names(&ledger, Some("delta"), None), Vec::<String>::new());
    assert_eq!(names(&ledger, None, Some(0)), Vec::<String>::new());
    let page = ledger.list_members(Some("charlie".into()), None, START + 10).unwrap();
    assert_eq!(page.members.len(), 1);
    assert_eq!(page.members[0].address, "delta");
    assert_eq!(page.members[0].info.stake, 100);
    assert_eq!(page.members[0].info.withdrawn, 0);
    assert!(page.members[0].info.claims.is_empty());
    // 248_015 * 10 * (100 * 10) / (615 * 10)
    assert_eq!(page.members[0].info.reward, 403_276);
}

#[test]
fn a_page_holds_ten_members_by_default_and_thirty_at_most() {
    let mut ledger = default_instantiate();
    for i in 0..40 {
        ledger.bond(&format!("member{:02}", i), &staking_token(1), START).unwrap();
    }
    assert_eq!(ledger.list_members(None, None, START).unwrap().members.len(), 10);
    assert_eq!(ledger.list_members(None, Some(25), START).unwrap().members.len(), 25);
    let page = ledger.list_members(None, Some(31), START).unwrap();
    assert_eq!(page.members.len(), 30);
    assert_eq!(page.members[29].address, "member29");
    let rest = ledger.list_members(Some("member29".into()), Some(31), START).unwrap();
    assert_eq!(rest.members.len(), 10);
    assert!(matches!(
        ledger.list_members(None, None, START - 1),
        Err(ContractError::Underflow)
    ));
}

#[test]
fn queries_answer_from_the_ledger() {
    let mut ledger = default_instantiate();
    let a = USER1.to_string();
    ledger.bond(&a, &staking_token(1_000), START).unwrap();
    ledger.unbond(&a, 400, START + 10).unwrap();
    ledger.withdraw(&a, START + 10).unwrap();
    let now = START + 20;
    match query(&ledger, now, QueryMsg::Config {}).unwrap() {
        QueryResponse::Config(cfg) => assert_eq!(cfg.owner, INIT_ADMIN),
        _ => panic!("the settings were asked for"),
    }
    match query(&ledger, now, QueryMsg::Claims { address: a.clone() }).unwrap() {
        QueryResponse::Claims(response) => assert_eq!(
            response.claims,
            vec![Claim { amount: 400, release_at: START + 10 + UNBONDING_PERIOD }]
        ),
        _ => panic!("the claims were asked for"),
    }
    match query(&ledger, now, QueryMsg::Staked { address: a.clone() }).unwrap() {
        QueryResponse::Staked(response) => {
            assert_eq!(response.stake, 600);
            assert_eq!(response.denom, STAKING_TOKEN_ADDRESS);
        }
        _ => panic!("the stake was asked for"),
    }
    match query(&ledger, now, QueryMsg::Total {}).unwrap() {
        QueryResponse::Total(response) => assert_eq!(response.total, 600),
        _ => panic!("the total was asked for"),
    }
    match query(&ledger, now, QueryMsg::Withdrawn { address: a.clone() }).unwrap() {
        QueryResponse::Withdrawn(response) => assert_eq!(response.withdrawn, 2_480_150),
        _ => panic!("the withdrawals were asked for"),
    }
    match query(&ledger, now, QueryMsg::Reward { address: a.clone() }).unwrap() {
        QueryResponse::Reward(response) => assert_eq!(response.reward, 2_480_150),
        _ => panic!("the reward was asked for"),
    }
    match query(&ledger, now, QueryMsg::Member { address: a.clone() }).unwrap() {
        QueryResponse::Member(response) => {
            let member = response.member.unwrap();
            assert_eq!(member.stake, 600);
            assert_eq!(member.reward, 4_960_300);
            assert_eq!(member.withdrawn, 2_480_150);
            assert_eq!(member.claims.len(), 1);
        }
        _ => panic!("the member was asked for"),
    }
    match query(&ledger, now, QueryMsg::Member { address: USER2.into() }).unwrap() {
        QueryResponse::Member(response) => assert!(response.member.is_none()),
        _ => panic!("the member was asked for"),
    }
    match query(&ledger, now, QueryMsg::ListMembers { start_after: None, limit: None }).unwrap() {
        QueryResponse::Members(response) => assert_eq!(response.members.len(), 1),
        _ => panic!("the members were asked for"),
    }
    assert!(matches!(
        query(&ledger, START - 1, QueryMsg::Reward { address: a }),
        Err(ContractError::Underflow)
    ));
}

#[test]
fn an_epoch_pays_out_no_more_than_it_emits() {
    let mut ledger = default_instantiate();
    let names = ["a", "b", "c", "d", "e", "f", "g"];
    for (i, name) in names.iter().enumerate() {
        ledger
            .bond(&name.to_string(), &staking_token(1 + 3 * i as u128), START + 7 * i as u64)
            .unwrap();
    }
    ledger.unbond(&"c".to_string(), 3, START + 1_000).unwrap();
    for now in [START + 1_000, START + 5_000, START + WEEK - 1] {
        let paid: u128 = names.iter().map(|n| ledger.earned(&n.to_string(), now).unwrap()).sum();
        let emitted = 248_015 * (now - START) as u128;
        assert!(paid <= emitted);
        // rounding down loses less than one unit for each account
        assert!(paid + names.len() as u128 >= emitted);
    }
}

#[test]
fn a_bond_of_nothing_changes_nothing() {
    let mut ledger = default_instantiate();
    let a = USER1.to_string();
    assert!(matches!(
        ledger.bond(&a, &staking_token(0), START),
        Err(ContractError::InvalidZeroAmount)
    ));
    assert!(ledger.member(&a, START).unwrap().is_none());
    ledger.bond(&a, &staking_token(5), START).unwrap();
    let msg = ExecuteMsg::Receive(Cw20ReceiveMsg {
        sender: a.clone(),
        amount: 0,
        msg: ReceiveMsg::Bond {},
    });
    assert!(matches!(
        execute(&mut ledger, START + 9, &info(STAKING_TOKEN_ADDRESS, vec![]), msg),
        Err(ContractError::InvalidZeroAmount)
    ));
    assert_eq!(ledger.staked(&a), Stake { amount: 5, time: START });
    assert_eq!(ledger.total(), Stake { amount: 5, time: START });
    assert_eq!(ledger.member_weight(&a, 1), 0);
}
