use terraland::error::ContractError;
use terraland::staking::accrual::{accrue, overlap_seconds, settle, stored_weight, WeightDelta};
use terraland::staking::claims::{
    create_claim, execute_claim, execute_instant_claim, release_matured, Claim, InstantClaim,
};
use terraland::staking::contract::{
    bonded_amount, execute_bond, execute_unbond, execute_withdraw, Balance, Withdrawal,
};
use terraland::staking::epoch::{epoch_id, epoch_window, EpochWindow, WEEK};
use terraland::staking::index::{
    can_compute_member_reward, can_compute_reward_index, compute_member_reward,
    compute_reward_index, update_member_reward, MemberInfo, State,
};
use terraland::staking::reward::{earned, epoch_emission};
use terraland::staking::schedule::{epoch_rate, find_distribution_schedule, rate_for};
use terraland::staking::state::{schedule_bounds, Config, Schedule, Stake};
use terraland::math::Decimal;

const T: u64 = 1_000_000;

fn config(schedule: Vec<Schedule>) -> Config {
    let (start_time, end_time) = schedule_bounds(&schedule);
    Config {
        owner: "owner".into(),
        staking_token: "staking".into(),
        terraland_token: "tland".into(),
        unbonding_period: 600,
        burn_address: "burn".into(),
        instant_claim_percentage_loss: 10,
        distribution_schedule: schedule,
        start_time,
        end_time,
    }
}

fn one_week() -> Config {
    config(vec![Schedule { amount: 150_000_000_000, start_time: T, end_time: T + WEEK }])
}

fn two_entries() -> Config {
    config(vec![
        Schedule { amount: 604_800_000, start_time: T, end_time: T + 2 * WEEK },
        Schedule { amount: 1_209_600_000, start_time: T + 2 * WEEK, end_time: T + 4 * WEEK },
    ])
}

#[test]
fn epoch_id_is_one_based() {
    assert_eq!(epoch_id(&one_week(), T).unwrap(), 1);
    assert_eq!(epoch_id(&one_week(), T + WEEK - 1).unwrap(), 1);
    assert_eq!(epoch_id(&one_week(), T + WEEK).unwrap(), 2);
    assert_eq!(epoch_id(&one_week(), T + 10 * WEEK + 5).unwrap(), 11);
    assert_eq!(epoch_id(&config(vec![]), u64::MAX).unwrap(), u64::MAX / WEEK + 1);
}

#[test]
fn epoch_id_before_the_start_underflows() {
    assert!(matches!(epoch_id(&one_week(), T - 1), Err(ContractError::Underflow)));
}

#[test]
fn epoch_window_bounds() {
    assert_eq!(epoch_window(&one_week(), 1).unwrap(), EpochWindow { start: T, end: T + WEEK });
    assert_eq!(
        epoch_window(&one_week(), 3).unwrap(),
        EpochWindow { start: T + 2 * WEEK, end: T + 3 * WEEK }
    );
    assert!(matches!(epoch_window(&one_week(), 0), Err(ContractError::Underflow)));
    assert!(matches!(epoch_window(&one_week(), u64::MAX), Err(ContractError::Overflow)));
    let last = config(vec![Schedule { amount: 1, start_time: u64::MAX, end_time: u64::MAX }]);
    assert!(matches!(epoch_window(&last, 1), Err(ContractError::Overflow)));
}

#[test]
fn overlap_of_an_interval_with_an_epoch() {
    // inside epoch 1
    assert_eq!(overlap_seconds(T, T + 10, T + 50, 1), 40);
    // across the boundary of epochs 1 and 2
    assert_eq!(overlap_seconds(T, T + WEEK - 10, T + WEEK + 30, 1), 10);
    assert_eq!(overlap_seconds(T, T + WEEK - 10, T + WEEK + 30, 2), 30);
    // an epoch covered as a whole
    assert_eq!(overlap_seconds(T, T, T + 3 * WEEK, 2), WEEK);
    // no overlap
    assert_eq!(overlap_seconds(T, T, T + 10, 2), 0);
    assert_eq!(overlap_seconds(T, T + 50, T + 10, 1), 0);
    assert_eq!(overlap_seconds(T, T + 10, T + 10, 1), 0);
    // the week before the start is epoch 0
    assert_eq!(overlap_seconds(T, T - 100, T + 100, 0), 100);
    assert_eq!(overlap_seconds(T, 0, u64::MAX, u64::MAX), 0);
}

#[test]
fn accrue_yields_one_delta_for_each_epoch_touched() {
    let stake = Stake { amount: 1_000, time: T + WEEK - 100 };
    let deltas = accrue(&one_week(), &stake, T + 2 * WEEK + 7).unwrap();
    assert_eq!(
        deltas,
        vec![
            WeightDelta { epoch: 1, weight: 100_000 },
            WeightDelta { epoch: 2, weight: 1_000 * WEEK as u128 },
            WeightDelta { epoch: 3, weight: 7_000 },
        ]
    );
}

#[test]
fn accrue_of_an_empty_stake_yields_nothing() {
    let stake = Stake { amount: 0, time: 0 };
    assert_eq!(accrue(&one_week(), &stake, T + 5 * WEEK).unwrap(), vec![]);
    // not even an error where the times could not be settled
    assert_eq!(accrue(&one_week(), &stake, 5).unwrap(), vec![]);
}

#[test]
fn accrue_with_no_time_elapsed_yields_a_zero_delta() {
    let stake = Stake { amount: 5, time: T + 3 };
    assert_eq!(accrue(&one_week(), &stake, T + 3).unwrap(), vec![WeightDelta { epoch: 1, weight: 0 }]);
}

#[test]
fn accrue_errors() {
    let early = Stake { amount: 1, time: T - 1 };
    assert!(matches!(accrue(&one_week(), &early, T + 1), Err(ContractError::Underflow)));
    let late = Stake { amount: 1, time: T + 10 };
    assert!(matches!(accrue(&one_week(), &late, T + 9), Err(ContractError::Underflow)));
    let huge = Stake { amount: u128::MAX, time: T };
    assert!(matches!(accrue(&one_week(), &huge, T + 2), Err(ContractError::Overflow)));
    assert_eq!(
        accrue(&one_week(), &huge, T + 1).unwrap(),
        vec![WeightDelta { epoch: 1, weight: u128::MAX }]
    );
}

#[test]
fn settle_adds_the_weight_gathered_to_what_is_stored() {
    let stake = Stake { amount: 10, time: T + WEEK - 5 };
    let stored = vec![1_000u128];
    let settled = settle(&one_week(), &stored, &stake, T + WEEK + 5).unwrap();
    assert_eq!(settled, vec![1_050, 50]);
    assert_eq!(stored, vec![1_000]);
    assert_eq!(stored_weight(&settled, 1), 1_050);
    assert_eq!(stored_weight(&settled, 2), 50);
    assert_eq!(stored_weight(&settled, 3), 0);
    assert_eq!(stored_weight(&settled, 0), 0);
}

#[test]
fn settle_keeps_what_lies_beyond_the_epochs_touched() {
    let stake = Stake { amount: 2, time: T };
    let stored = vec![1u128, 2, 3, 4];
    assert_eq!(settle(&one_week(), &stored, &stake, T + 10).unwrap(), vec![21, 2, 3, 4]);
    let empty = Stake { amount: 0, time: 0 };
    assert_eq!(settle(&one_week(), &stored, &empty, T + 10 * WEEK).unwrap(), vec![1, 2, 3, 4]);
}

#[test]
fn settle_overflows_where_an_accumulator_is_full() {
    let stake = Stake { amount: 1, time: T };
    let stored = vec![u128::MAX];
    assert!(matches!(settle(&one_week(), &stored, &stake, T + 1), Err(ContractError::Overflow)));
    assert_eq!(settle(&one_week(), &stored, &stake, T).unwrap(), vec![u128::MAX]);
}

#[test]
fn rate_for_takes_the_entry_that_covers_the_window() {
    let cfg = two_entries();
    assert_eq!(rate_for(&cfg, &EpochWindow { start: T, end: T + WEEK }), Some(604_800_000));
    assert_eq!(
        rate_for(&cfg, &EpochWindow { start: T + WEEK, end: T + 2 * WEEK }),
        Some(604_800_000)
    );
    assert_eq!(
        rate_for(&cfg, &EpochWindow { start: T + 2 * WEEK, end: T + 3 * WEEK }),
        Some(1_209_600_000)
    );
    // a window that straddles two entries is covered by neither
    assert_eq!(rate_for(&cfg, &EpochWindow { start: T + WEEK + 1, end: T + 2 * WEEK + 1 }), None);
    assert_eq!(rate_for(&cfg, &EpochWindow { start: T + 4 * WEEK, end: T + 5 * WEEK }), None);
    assert_eq!(epoch_rate(&cfg, 1), 604_800_000);
    assert_eq!(epoch_rate(&cfg, 4), 1_209_600_000);
    assert_eq!(epoch_rate(&cfg, 5), 0);
    assert_eq!(epoch_rate(&cfg, 0), 0);
    assert_eq!(epoch_rate(&cfg, u64::MAX), 0);
}

#[test]
fn find_distribution_schedule_by_time() {
    let cfg = two_entries();
    assert_eq!(find_distribution_schedule(&cfg, T - 1), None);
    assert_eq!(find_distribution_schedule(&cfg, T), Some(cfg.distribution_schedule[0]));
    assert_eq!(
        find_distribution_schedule(&cfg, T + 2 * WEEK - 1),
        Some(cfg.distribution_schedule[0])
    );
    assert_eq!(
        find_distribution_schedule(&cfg, T + 2 * WEEK),
        Some(cfg.distribution_schedule[1])
    );
    assert_eq!(find_distribution_schedule(&cfg, T + 4 * WEEK), None);
}

#[test]
fn emission_of_closed_and_open_epochs() {
    let cfg = two_entries();
    let now = T + 2 * WEEK + 100;
    // 604_800_000 / 604_800 = 1_000 a second
    assert_eq!(epoch_emission(&cfg, now, 1).unwrap(), 1_000 * WEEK as u128);
    assert_eq!(epoch_emission(&cfg, now, 2).unwrap(), 1_000 * WEEK as u128);
    // the open epoch has emitted for 100 seconds at 2_000 a second
    assert_eq!(epoch_emission(&cfg, now, 3).unwrap(), 200_000);
    assert_eq!(epoch_emission(&cfg, now, 4).unwrap(), 0);
    assert!(matches!(epoch_emission(&cfg, T - 1, 1), Err(ContractError::Underflow)));
}

#[test]
fn earned_sums_the_shares_of_every_epoch() {
    let cfg = two_entries();
    // the member held a quarter of the weight of epoch 1, all of epoch 2,
    // and holds half of the stake now
    let member = Stake { amount: 50, time: T + 2 * WEEK };
    let total = Stake { amount: 100, time: T + 2 * WEEK };
    let member_weights = vec![25u128, 40];
    let epoch_weights = vec![100u128, 40];
    let now = T + 2 * WEEK + 100;
    let expected = 1_000 * WEEK as u128 / 4 + 1_000 * WEEK as u128 + 100_000;
    assert_eq!(earned(&cfg, &member, &total, &member_weights, &epoch_weights, now).unwrap(), expected);
    // the projection stores nothing
    assert_eq!(member_weights, vec![25, 40]);
    assert_eq!(epoch_weights, vec![100, 40]);
}

#[test]
fn earned_is_zero_where_nobody_holds_weight() {
    let cfg = one_week();
    let nobody = Stake { amount: 0, time: 0 };
    assert_eq!(earned(&cfg, &nobody, &nobody, &vec![], &vec![], T + 1000).unwrap(), 0);
}

#[test]
fn earned_rounds_each_share_down() {
    let cfg = one_week();
    let member = Stake { amount: 1, time: T };
    let total = Stake { amount: 3, time: T };
    // 248_015 * 10 * 10 / 30 = 826_716.66..
    assert_eq!(earned(&cfg, &member, &total, &vec![], &vec![], T + 10).unwrap(), 826_716);
}

#[test]
fn earned_errors() {
    let cfg = one_week();
    let nobody = Stake { amount: 0, time: 0 };
    assert!(matches!(
        earned(&cfg, &nobody, &nobody, &vec![], &vec![], T - 1),
        Err(ContractError::Underflow)
    ));
    let late = Stake { amount: 1, time: T + 10 };
    assert!(matches!(
        earned(&cfg, &late, &late, &vec![], &vec![], T + 9),
        Err(ContractError::Underflow)
    ));
    assert!(matches!(
        earned(&cfg, &nobody, &late, &vec![], &vec![], T + 9),
        Err(ContractError::Underflow)
    ));
    let full = vec![u128::MAX];
    let one = Stake { amount: 1, time: T };
    assert!(matches!(
        earned(&cfg, &one, &one, &full, &vec![], T + 1),
        Err(ContractError::Overflow)
    ));
    // the product of emission and weight leaves u128
    assert!(matches!(
        earned(&cfg, &nobody, &one, &full, &vec![], T + 10),
        Err(ContractError::Overflow)
    ));
}

#[test]
fn earned_can_shrink_when_the_stake_around_a_member_grows() {
    let cfg = one_week();
    // the member staked 1 for the first 100 seconds and then left, when
    // somebody else bonded a million
    let member = Stake { amount: 0, time: T + 100 };
    let total = Stake { amount: 1_000_000, time: T + 100 };
    let member_weights = vec![100u128];
    let epoch_weights = vec![100u128];
    let at_once = earned(&cfg, &member, &total, &member_weights, &epoch_weights, T + 100).unwrap();
    let later = earned(&cfg, &member, &total, &member_weights, &epoch_weights, T + 200).unwrap();
    assert_eq!(at_once, 24_801_500);
    assert_eq!(later, 49);
}

#[test]
fn earned_grows_while_the_member_keeps_its_part_of_the_stake() {
    let cfg = one_week();
    let member = Stake { amount: 300, time: T + 50 };
    let total = Stake { amount: 1_000, time: T + 100 };
    let member_weights = vec![1_000u128];
    let epoch_weights = vec![60_000u128];
    let mut last = 0;
    for step in 0..50u64 {
        let now = T + 100 + step * 10_000;
        let reward = earned(&cfg, &member, &total, &member_weights, &epoch_weights, now).unwrap();
        assert!(reward >= last);
        last = reward;
    }
    assert!(last > 0);
}

#[test]
fn claims_are_released_when_they_mature() {
    let mut claims = Vec::new();
    create_claim(&mut claims, 10, 100);
    create_claim(&mut claims, 20, 300);
    create_claim(&mut claims, 30, 200);
    assert_eq!(
        release_matured(&claims, 200).unwrap(),
        (40, vec![Claim { amount: 20, release_at: 300 }])
    );
    assert_eq!(claims.len(), 3);
    assert!(matches!(execute_claim(&mut claims, 99), Err(ContractError::NothingToClaim)));
    assert_eq!(claims.len(), 3);
    assert_eq!(execute_claim(&mut claims, 100).unwrap(), 10);
    assert_eq!(
        claims,
        vec![Claim { amount: 20, release_at: 300 }, Claim { amount: 30, release_at: 200 }]
    );
    assert_eq!(execute_claim(&mut claims, 1_000).unwrap(), 50);
    assert!(claims.is_empty());
    assert!(matches!(execute_claim(&mut claims, 1_000), Err(ContractError::NothingToClaim)));
}

#[test]
fn claims_that_do_not_fit_are_left() {
    let mut claims =
        vec![Claim { amount: u128::MAX, release_at: 1 }, Claim { amount: 1, release_at: 1 }];
    assert!(matches!(execute_claim(&mut claims, 5), Err(ContractError::Overflow)));
    assert_eq!(claims.len(), 2);
    assert!(matches!(release_matured(&claims, 5), Err(ContractError::Overflow)));
}

#[test]
fn a_matured_claim_of_nothing_is_nothing_to_claim() {
    let mut claims = vec![Claim { amount: 0, release_at: 1 }];
    assert!(matches!(execute_claim(&mut claims, 5), Err(ContractError::NothingToClaim)));
    assert_eq!(claims.len(), 1);
}

#[test]
fn instant_claim_releases_within_the_unbonding_period() {
    let cfg = one_week();
    let mut claims = vec![
        Claim { amount: 1_000_005, release_at: 700 },
        Claim { amount: 7, release_at: 701 },
    ];
    // 100 + 600 reaches the first claim only; the fee is rounded down
    assert_eq!(
        execute_instant_claim(&cfg, &mut claims, 100).unwrap(),
        InstantClaim { payout: 900_005, fee: 100_000 }
    );
    assert_eq!(claims, vec![Claim { amount: 7, release_at: 701 }]);
    assert!(matches!(
        execute_instant_claim(&cfg, &mut claims, 100),
        Err(ContractError::NothingToClaim)
    ));
}

#[test]
fn instant_claim_errors() {
    let mut cfg = one_week();
    let mut claims = vec![Claim { amount: 10, release_at: 0 }];
    assert!(matches!(
        execute_instant_claim(&cfg, &mut claims, u64::MAX - 599),
        Err(ContractError::Overflow)
    ));
    cfg.instant_claim_percentage_loss = 101;
    let mut hundred = vec![Claim { amount: 100, release_at: 0 }];
    assert!(matches!(
        execute_instant_claim(&cfg, &mut hundred, 0),
        Err(ContractError::Underflow)
    ));
    assert_eq!(hundred.len(), 1);
    cfg.instant_claim_percentage_loss = 3;
    let mut huge = vec![Claim { amount: u128::MAX / 2, release_at: 0 }];
    assert!(matches!(execute_instant_claim(&cfg, &mut huge, 0), Err(ContractError::Overflow)));
    assert_eq!(huge.len(), 1);
    cfg.instant_claim_percentage_loss = 100;
    assert_eq!(
        execute_instant_claim(&cfg, &mut claims, 0).unwrap(),
        InstantClaim { payout: 0, fee: 10 }
    );
}

#[test]
fn bonded_amount_checks_the_token() {
    let cfg = one_week();
    assert_eq!(
        bonded_amount(&cfg, &Balance::Cw20 { address: "staking".into(), amount: 5 }).unwrap(),
        5
    );
    match bonded_amount(&cfg, &Balance::Cw20 { address: "other".into(), amount: 5 }) {
        Err(ContractError::InvalidToken(address)) => assert_eq!(address, "other"),
        _ => panic!("another token is invalid"),
    }
    assert!(matches!(
        bonded_amount(&cfg, &Balance::Native(vec![])),
        Err(ContractError::MissedToken)
    ));
}

#[test]
fn bond_settles_before_it_changes_the_stake() {
    let cfg = one_week();
    let member = Stake { amount: 10, time: T };
    let total = Stake { amount: 30, time: T + 20 };
    let balance = Balance::Cw20 { address: "staking".into(), amount: 5 };
    let change =
        execute_bond(&cfg, &balance, &member, &total, &vec![], &vec![400], T + 100).unwrap();
    assert_eq!(change.member, Stake { amount: 15, time: T + 100 });
    assert_eq!(change.total, Stake { amount: 35, time: T + 100 });
    assert_eq!(change.member_weights, vec![1_000]);
    assert_eq!(change.epoch_weights, vec![400 + 30 * 80]);
}

#[test]
fn bond_outside_the_distribution_window_is_closed() {
    let cfg = one_week();
    let nobody = Stake { amount: 0, time: 0 };
    let balance = Balance::Cw20 { address: "staking".into(), amount: 5 };
    assert!(matches!(
        execute_bond(&cfg, &balance, &nobody, &nobody, &vec![], &vec![], T - 1),
        Err(ContractError::StakingClosed)
    ));
    assert!(matches!(
        execute_bond(&cfg, &balance, &nobody, &nobody, &vec![], &vec![], T + WEEK + 1),
        Err(ContractError::StakingClosed)
    ));
    assert!(execute_bond(&cfg, &balance, &nobody, &nobody, &vec![], &vec![], T + WEEK).is_ok());
    assert!(execute_bond(&cfg, &balance, &nobody, &nobody, &vec![], &vec![], T).is_ok());
}

#[test]
fn bond_that_leaves_u128_overflows() {
    let cfg = one_week();
    let member = Stake { amount: u128::MAX, time: T };
    let balance = Balance::Cw20 { address: "staking".into(), amount: 1 };
    assert!(matches!(
        execute_bond(&cfg, &balance, &member, &member, &vec![], &vec![], T),
        Err(ContractError::Overflow)
    ));
}

#[test]
fn unbond_makes_out_a_claim() {
    let cfg = one_week();
    let member = Stake { amount: 10, time: T };
    let total = Stake { amount: 30, time: T };
    let unbonded = execute_unbond(&cfg, &member, &total, &vec![], &vec![], 4, T + 10).unwrap();
    assert_eq!(unbonded.change.member, Stake { amount: 6, time: T + 10 });
    assert_eq!(unbonded.change.total, Stake { amount: 26, time: T + 10 });
    assert_eq!(unbonded.change.member_weights, vec![100]);
    assert_eq!(unbonded.change.epoch_weights, vec![300]);
    assert_eq!(unbonded.claim, Claim { amount: 4, release_at: T + 610 });
}

#[test]
fn unbond_errors() {
    let cfg = one_week();
    let member = Stake { amount: 10, time: T };
    let total = Stake { amount: 30, time: T };
    assert!(matches!(
        execute_unbond(&cfg, &member, &total, &vec![], &vec![], 11, T + 10),
        Err(ContractError::Underflow)
    ));
    assert!(matches!(
        execute_unbond(&cfg, &member, &total, &vec![], &vec![], 1, T - 10),
        Err(ContractError::Underflow)
    ));
    let mut forever = one_week();
    forever.unbonding_period = u64::MAX;
    assert!(matches!(
        execute_unbond(&forever, &member, &total, &vec![], &vec![], 1, T + 10),
        Err(ContractError::Overflow)
    ));
}

#[test]
fn withdraw_pays_the_difference() {
    let cfg = one_week();
    let member = Stake { amount: 10, time: T };
    let total = Stake { amount: 10, time: T };
    assert_eq!(
        execute_withdraw(&cfg, &member, &total, &vec![], &vec![], 1_000, T + 100).unwrap(),
        Withdrawal { amount: 24_800_500, withdrawn: 24_801_500 }
    );
    assert!(matches!(
        execute_withdraw(&cfg, &member, &total, &vec![], &vec![], 24_801_500, T + 100),
        Err(ContractError::NothingToWithdraw)
    ));
    assert!(matches!(
        execute_withdraw(&cfg, &member, &total, &vec![], &vec![], 24_801_501, T + 100),
        Err(ContractError::Underflow)
    ));
    assert!(matches!(
        execute_withdraw(&cfg, &member, &total, &vec![], &vec![], 0, T),
        Err(ContractError::NothingToWithdraw)
    ));
}

#[test]
fn reward_index_grows_with_what_is_emitted_for_each_token() {
    let cfg = one_week();
    let fresh = State {
        total_stake: 0,
        last_updated: 0,
        global_reward_index: Decimal { atomics: 0 },
    };
    assert_eq!(compute_reward_index(&cfg, &fresh, T + 5), Decimal { atomics: 0 });
    let state = State {
        total_stake: 20_000,
        last_updated: T,
        global_reward_index: Decimal { atomics: 5 },
    };
    // 248_015 a second for 6 seconds over 20_000 tokens is 74.4045 a token
    assert_eq!(
        compute_reward_index(&cfg, &state, T + 6),
        Decimal { atomics: 74_404_500_000_000_000_005 }
    );
}

#[test]
fn member_reward_follows_the_index() {
    let member = MemberInfo {
        stake: 12_000,
        reward_index: Decimal { atomics: 1_500_000_000_000_000_000 },
        pending_reward: 7,
        withdrawn: 0,
    };
    let global = Decimal { atomics: 74_404_500_000_000_000_000 };
    assert_eq!(compute_member_reward(&member, global), 7 + 892_854 - 18_000);
    let cfg = one_week();
    let state = State {
        total_stake: 20_000,
        last_updated: T,
        global_reward_index: Decimal { atomics: 1_500_000_000_000_000_000 },
    };
    let mut settled = member;
    update_member_reward(&state, &cfg, T + 6, &mut settled);
    assert_eq!(settled.reward_index, Decimal { atomics: 75_904_500_000_000_000_000 });
    assert_eq!(settled.pending_reward, 7 + 910_854 - 18_000);
    assert_eq!(settled.stake, 12_000);
}

#[test]
fn settling_in_steps_is_settling_at_once() {
    let cfg = one_week();
    let stake = Stake { amount: 17, time: T + 1_000 };
    let stored = vec![5u128];
    let now = T + 3 * WEEK + 11;
    let once = settle(&cfg, &stored, &stake, now).unwrap();
    let mut step_by_step = stored.clone();
    let mut time = stake.time;
    for mid in [T + 1_000, T + WEEK - 1, T + WEEK, T + 2 * WEEK + 600_000, now] {
        step_by_step =
            settle(&cfg, &step_by_step, &Stake { amount: 17, time }, mid).unwrap();
        time = mid;
    }
    assert_eq!(step_by_step, once);
    assert_eq!(
        once,
        vec![5 + 17 * (WEEK as u128 - 1_000), 17 * WEEK as u128, 17 * WEEK as u128, 17 * 11]
    );
}

#[test]
fn releasing_loses_no_claim() {
    let claims = vec![
        Claim { amount: 10, release_at: 100 },
        Claim { amount: 20, release_at: 300 },
        Claim { amount: 30, release_at: 200 },
        Claim { amount: 40, release_at: 400 },
    ];
    for now in [0, 100, 250, 300, 1_000] {
        let (released, kept) = release_matured(&claims, now).unwrap();
        let left: u128 = kept.iter().map(|c| c.amount).sum();
        assert_eq!(released + left, 100);
    }
}

fn two_rates() -> Config {
    config(vec![
        Schedule { amount: 1_000, start_time: 0, end_time: 100 },
        Schedule { amount: 100, start_time: 100, end_time: 200 },
    ])
}

fn one_token(last_updated: u64) -> State {
    State { total_stake: 1, last_updated, global_reward_index: Decimal { atomics: 7 } }
}

const UNIT: u128 = 1_000_000_000_000_000_000;

#[test]
fn reward_index_adds_up_what_each_entry_emits() {
    let cfg = two_rates();
    let state = one_token(1);
    assert_eq!(compute_reward_index(&cfg, &state, 1), Decimal { atomics: 7 });
    assert_eq!(compute_reward_index(&cfg, &state, 2), Decimal { atomics: 7 + 10 * UNIT });
    assert_eq!(compute_reward_index(&cfg, &state, 99), Decimal { atomics: 7 + 980 * UNIT });
    assert_eq!(compute_reward_index(&cfg, &state, 100), Decimal { atomics: 7 + 990 * UNIT });
    assert_eq!(compute_reward_index(&cfg, &state, 101), Decimal { atomics: 7 + 991 * UNIT });
    assert_eq!(compute_reward_index(&cfg, &state, 200), Decimal { atomics: 7 + 1_090 * UNIT });
    // after the last entry nothing is emitted
    assert_eq!(compute_reward_index(&cfg, &state, 5_000), Decimal { atomics: 7 + 1_090 * UNIT });
    let later = one_token(150);
    assert_eq!(compute_reward_index(&cfg, &later, 160), Decimal { atomics: 7 + 10 * UNIT });
    let after = one_token(300);
    assert_eq!(compute_reward_index(&cfg, &after, 400), Decimal { atomics: 7 });
}

#[test]
fn reward_index_never_shrinks() {
    let cfg = two_rates();
    let state = State {
        total_stake: 3,
        last_updated: 1,
        global_reward_index: Decimal { atomics: 7 },
    };
    let mut last = Decimal { atomics: 7 };
    for time in 1..=250 {
        assert!(can_compute_reward_index(&cfg, &state, time));
        let index = compute_reward_index(&cfg, &state, time);
        assert!(index.atomics >= last.atomics);
        last = index;
    }
    // 1_090 emitted over three tokens
    assert_eq!(last, Decimal { atomics: 7 + 1_090 * UNIT / 3 });
}

#[test]
fn reward_index_stays_while_nothing_is_staked() {
    let cfg = two_rates();
    let state = State {
        total_stake: 0,
        last_updated: 5,
        global_reward_index: Decimal { atomics: 7 },
    };
    assert!(can_compute_reward_index(&cfg, &state, 5));
    assert!(can_compute_reward_index(&cfg, &state, 150));
    assert_eq!(compute_reward_index(&cfg, &state, 5), Decimal { atomics: 7 });
    assert_eq!(compute_reward_index(&cfg, &state, 150), Decimal { atomics: 7 });
    assert_eq!(compute_reward_index(&cfg, &state, u64::MAX), Decimal { atomics: 7 });
}

#[test]
fn reward_index_is_not_always_defined() {
    let cfg = two_rates();
    // time has gone back
    assert!(!can_compute_reward_index(&cfg, &one_token(50), 49));
    assert!(can_compute_reward_index(&cfg, &one_token(50), 50));
    // before the first stake the index is zero, whatever the time
    let fresh = State {
        total_stake: 0,
        last_updated: 0,
        global_reward_index: Decimal { atomics: 7 },
    };
    assert!(can_compute_reward_index(&cfg, &fresh, 0));
    assert_eq!(compute_reward_index(&cfg, &fresh, 99), Decimal { atomics: 0 });
    // the index leaves u128
    let full = State {
        total_stake: 1,
        last_updated: 1,
        global_reward_index: Decimal { atomics: u128::MAX },
    };
    assert!(can_compute_reward_index(&cfg, &full, 1));
    assert!(!can_compute_reward_index(&cfg, &full, 2));
    let twice = config(vec![
        Schedule { amount: u128::MAX, start_time: 1, end_time: 2 },
        Schedule { amount: u128::MAX, start_time: 2, end_time: 3 },
    ]);
    let many = State {
        total_stake: u128::MAX,
        last_updated: 1,
        global_reward_index: Decimal { atomics: 0 },
    };
    assert!(can_compute_reward_index(&twice, &many, 2));
    assert_eq!(compute_reward_index(&twice, &many, 2), Decimal { atomics: UNIT });
    // what two entries emit together leaves u128
    assert!(!can_compute_reward_index(&twice, &many, 3));
}

#[test]
fn member_reward_is_not_always_defined() {
    let member = MemberInfo {
        stake: 12_000,
        reward_index: Decimal { atomics: 2 * UNIT },
        pending_reward: 7,
        withdrawn: 0,
    };
    assert!(can_compute_member_reward(&member, Decimal { atomics: 2 * UNIT }));
    assert_eq!(compute_member_reward(&member, Decimal { atomics: 2 * UNIT }), 7);
    assert!(can_compute_member_reward(&member, Decimal { atomics: 3 * UNIT }));
    // the index of the member lies above the index asked for
    assert!(!can_compute_member_reward(&member, Decimal { atomics: UNIT }));
    // the product of stake and index leaves u128
    let whale = MemberInfo { stake: u128::MAX, reward_index: Decimal { atomics: 0 }, ..member };
    assert!(can_compute_member_reward(&whale, Decimal { atomics: UNIT - 7 }));
    assert!(!can_compute_member_reward(&whale, Decimal { atomics: 2 * UNIT }));
    let full = MemberInfo { pending_reward: u128::MAX, ..member };
    assert!(can_compute_member_reward(&full, Decimal { atomics: 2 * UNIT }));
    assert!(!can_compute_member_reward(&full, Decimal { atomics: 3 * UNIT }));
}

#[test]
fn a_bond_of_nothing_is_refused() {
    let cfg = one_week();
    let nobody = Stake { amount: 0, time: 0 };
    let nothing = Balance::Cw20 { address: "staking".into(), amount: 0 };
    assert!(matches!(
        execute_bond(&cfg, &nothing, &nobody, &nobody, &vec![], &vec![], T),
        Err(ContractError::InvalidZeroAmount)
    ));
    // even where staking is closed
    assert!(matches!(
        execute_bond(&cfg, &nothing, &nobody, &nobody, &vec![], &vec![], T - 1),
        Err(ContractError::InvalidZeroAmount)
    ));
    // but the token is looked at first
    let other = Balance::Cw20 { address: "other".into(), amount: 0 };
    assert!(matches!(
        execute_bond(&cfg, &other, &nobody, &nobody, &vec![], &vec![], T),
        Err(ContractError::InvalidToken(_))
    ));
}
