//! The rules of the airdrop: how many missions count as passed and what a
//! member can claim for them.

use vstd::prelude::*;
use crate::airdrop::msg::{
    InstantiateMissionSmartContracts,
    InstantiateMsg,
    MemberResponse,
    MemberStats,
    Missions,
    NewMember,
};
use crate::airdrop::state::{Config, Member, MissionSmartContracts};
use crate::error::ContractError;
use crate::payment::{Coin, MessageInfo, fee_checked, must_pay_exactly, pays_in};
use crate::platform_registry::AddressBaseInfoResponse;
use crate::response::{Payout, Response, pay_one, pays_one};

verus! {

/// The fee that a claim costs, in the denomination `uusd`.
pub const FEE: u128 = 1000000;

/// The number of missions there are, the one that everybody has passed
/// included.
pub const MISSIONS: u128 = 5;

/// One if the mission is passed, else zero.
pub open spec fn passed(mission: bool) -> int {
    if mission {
        1
    } else {
        0
    }
}

/// The number of missions passed: one that everybody has passed, and one
/// more for each that `missions` records.
pub open spec fn missions_passed(missions: Missions) -> int {
    1 + passed(missions.is_in_lp_staking) + passed(missions.is_in_tland_staking) + passed(
        missions.is_registered_on_platform,
    ) + passed(missions.is_property_shareholder)
}

/// What a member can claim: the fifth part of the allotment for each
/// mission passed, rounded down, less what has been claimed already.
pub open spec fn claim_amount(missions: Missions, member: Member) -> Result<u128, ContractError> {
    let earned = member.amount * missions_passed(missions) / (MISSIONS as int);
    if member.amount * missions_passed(missions) > u128::MAX {
        Err(ContractError::Overflow)
    } else if member.claimed > earned {
        Err(ContractError::Underflow)
    } else {
        Ok((earned - member.claimed) as u128)
    }
}

/// The missions that the answers of the mission contracts show as passed.
/// An answer is `None` where no contract is configured to ask.
pub open spec fn missions_of(
    lp_staking: Option<bool>,
    tland_staking: Option<bool>,
    platform: Option<AddressBaseInfoResponse>,
) -> Missions {
    Missions {
        is_in_lp_staking: lp_staking == Some(true),
        is_in_tland_staking: tland_staking == Some(true),
        is_registered_on_platform: platform is Some && platform->Some_0.is_registered,
        is_property_shareholder: platform is Some && platform->Some_0.is_property_shareholder,
    }
}

/// Whether the funds pay the fee: a single coin of exactly `FEE` in `uusd`.
pub open spec fn fee_paid(funds: Seq<Coin>) -> bool {
    pays_in(funds, "uusd"@) && funds[0].amount == FEE
}

/// The mission contracts of `cfg` with those replaced that `new` names.
pub open spec fn merged_contracts(
    cfg: MissionSmartContracts,
    new: MissionSmartContracts,
) -> MissionSmartContracts {
    MissionSmartContracts {
        lp_staking: if new.lp_staking is Some {
            new.lp_staking
        } else {
            cfg.lp_staking
        },
        tland_staking: if new.tland_staking is Some {
            new.tland_staking
        } else {
            cfg.tland_staking
        },
        platform_registry: if new.platform_registry is Some {
            new.platform_registry
        } else {
            cfg.platform_registry
        },
    }
}

/// The number of missions passed: the one that everybody has passed and
/// each of the four that `missions` records as passed.
pub fn calc_missions_passed(missions: &Missions) -> (passed: u32)
    ensures
        passed == missions_passed(*missions),
        1 <= passed <= 5,
{
    let mut passed: u32 = 1;
    if missions.is_in_lp_staking {
        passed += 1;
    }
    if missions.is_in_tland_staking {
        passed += 1;
    }
    if missions.is_registered_on_platform {
        passed += 1;
    }
    if missions.is_property_shareholder {
        passed += 1;
    }
    passed
}

/// What `member` can claim for the missions passed. Fails with `Overflow`
/// when the allotment times the number of missions leaves `u128`, and with
/// `Underflow` when more has been claimed than has been earned.
pub fn calc_claim_amount(missions: &Missions, member: &Member) -> (r: Result<u128, ContractError>)
    ensures
        r == claim_amount(*missions, *member),
{
    let passed_missions_num = calc_missions_passed(missions);
    let amount_earned = match member.amount.checked_mul(passed_missions_num as u128) {
        Some(product) => product / MISSIONS,
        None => { return Err(ContractError::Overflow); },
    };
    match amount_earned.checked_sub(member.claimed) {
        Some(amount) => Ok(amount),
        None => Err(ContractError::Underflow),
    }
}

/// Records the missions that the answers of the mission contracts show as
/// passed: membership in either staking contract, and what the platform
/// registry says of the address. A contract that is not configured is not
/// asked, and its missions count as not passed.
pub fn check_missions(
    lp_staking: Option<bool>,
    tland_staking: Option<bool>,
    platform: Option<AddressBaseInfoResponse>,
) -> (missions: Missions)
    ensures
        missions == missions_of(lp_staking, tland_staking, platform),
{
    let mut missions = Missions {
        is_in_lp_staking: false,
        is_in_tland_staking: false,
        is_registered_on_platform: false,
        is_property_shareholder: false,
    };
    if let Some(is_member) = lp_staking {
        if is_member {
            missions.is_in_lp_staking = true;
        }
    }
    if let Some(is_member) = tland_staking {
        if is_member {
            missions.is_in_tland_staking = true;
        }
    }
    if let Some(info) = platform {
        if info.is_registered {
            missions.is_registered_on_platform = true;
        }
        if info.is_property_shareholder {
            missions.is_property_shareholder = true;
        }
    }
    missions
}

/// Checks that exactly the fee was sent along: one coin of `FEE` in `uusd`.
pub fn must_pay_fee(info: &MessageInfo) -> (r: Result<(), ContractError>)
    ensures
        fee_checked(info.funds@, "uusd"@, FEE, r),
        r is Ok <==> fee_paid(info.funds@),
{
    must_pay_exactly(&info.funds, "uusd", FEE)
}

/// What a claim by the sender pays out: the fifth part of its allotment for
/// each mission passed, less what it has claimed.
pub open spec fn claim_outcome(member: Option<Member>, missions: Missions) -> Result<
    u128,
    ContractError,
> {
    match member {
        None => Err(ContractError::MemberNotFound),
        Some(m) => match claim_amount(missions, m) {
            Err(e) => Err(e),
            Ok(amount) => if amount == 0 {
                Err(ContractError::NothingToClaim)
            } else {
                Ok(amount)
            },
        },
    }
}

/// Asks for the transfer, in the airdropped token, of what the sender can
/// claim. The sender must pay the fee and be a member, and what it can
/// claim for the missions passed must not be zero.
pub fn execute_claim(
    cfg: &Config,
    info: &MessageInfo,
    member: Option<Member>,
    missions: &Missions,
) -> (r: Result<Response, ContractError>)
    ensures
        !fee_paid(info.funds@) ==> r is Err && fee_checked(
            info.funds@,
            "uusd"@,
            FEE,
            Err(r->Err_0),
        ),
        fee_paid(info.funds@) ==> match claim_outcome(member, *missions) {
            Ok(amount) => r is Ok && pays_one(
                r->Ok_0.payouts@,
                cfg.terraland_token,
                info.sender,
                amount,
            ),
            Err(e) => r == Err::<Response, ContractError>(e),
        },
{
    match must_pay_fee(info) {
        Ok(()) => {},
        Err(e) => { return Err(e); },
    }
    let amount = match member {
        Some(m) => match calc_claim_amount(missions, &m) {
            Ok(amount) => amount,
            Err(e) => { return Err(e); },
        },
        None => { return Err(ContractError::MemberNotFound); },
    };
    if amount == 0 {
        return Err(ContractError::NothingToClaim);
    }
    Ok(pay_one(cfg.terraland_token.clone(), info.sender.clone(), amount))
}

/// The mission contracts that a message names; none where the message
/// names none.
pub fn mission_smart_contracts_from(m: Option<InstantiateMissionSmartContracts>) -> (r:
    MissionSmartContracts)
    ensures
        r == match m {
            Some(m) => MissionSmartContracts {
                lp_staking: m.lp_staking,
                tland_staking: m.tland_staking,
                platform_registry: m.platform_registry,
            },
            None => MissionSmartContracts {
                lp_staking: None,
                tland_staking: None,
                platform_registry: None,
            },
        },
{
    match m {
        Some(m) => MissionSmartContracts {
            lp_staking: m.lp_staking,
            tland_staking: m.tland_staking,
            platform_registry: m.platform_registry,
        },
        None => MissionSmartContracts {
            lp_staking: None,
            tland_staking: None,
            platform_registry: None,
        },
    }
}

/// The settings of a new airdrop: owner, token and mission contracts as
/// the message names them, and no fees.
pub fn instantiate(msg: InstantiateMsg) -> (cfg: Config)
    ensures
        cfg.owner == msg.owner,
        cfg.terraland_token == msg.terraland_token,
        cfg.fee_config@.len() == 0,
        cfg.mission_smart_contracts == match msg.mission_smart_contracts {
            Some(m) => MissionSmartContracts {
                lp_staking: m.lp_staking,
                tland_staking: m.tland_staking,
                platform_registry: m.platform_registry,
            },
            None => MissionSmartContracts {
                lp_staking: None,
                tland_staking: None,
                platform_registry: None,
            },
        },
{
    Config {
        owner: msg.owner,
        terraland_token: msg.terraland_token,
        fee_config: Vec::new(),
        mission_smart_contracts: mission_smart_contracts_from(msg.mission_smart_contracts),
    }
}

/// Replaces, on behalf of the owner, the owner and the mission contracts
/// that the message names; anyone else is refused as `Unauthorized` and
/// changes nothing.
pub fn execute_update_config(
    cfg: &mut Config,
    info: &MessageInfo,
    new_owner: Option<String>,
    new_mission_smart_contracts: Option<InstantiateMissionSmartContracts>,
) -> (r: Result<(), ContractError>)
    ensures
        info.sender@ != old(cfg).owner@ ==> r is Err && r->Err_0 is Unauthorized && *final(cfg)
            == *old(cfg),
        info.sender@ == old(cfg).owner@ ==> r is Ok && *final(cfg) == (Config {
            owner: match new_owner {
                Some(owner) => owner,
                None => old(cfg).owner,
            },
            terraland_token: old(cfg).terraland_token,
            fee_config: old(cfg).fee_config,
            mission_smart_contracts: merged_contracts(
                old(cfg).mission_smart_contracts,
                match new_mission_smart_contracts {
                    Some(m) => MissionSmartContracts {
                        lp_staking: m.lp_staking,
                        tland_staking: m.tland_staking,
                        platform_registry: m.platform_registry,
                    },
                    None => MissionSmartContracts {
                        lp_staking: None,
                        tland_staking: None,
                        platform_registry: None,
                    },
                },
            ),
        }),
{
    if info.sender != cfg.owner {
        return Err(ContractError::Unauthorized);
    }
    let mission_sc = mission_smart_contracts_from(new_mission_smart_contracts);
    if let Some(owner) = new_owner {
        cfg.owner = owner;
    }
    if mission_sc.lp_staking.is_some() {
        cfg.mission_smart_contracts.lp_staking = mission_sc.lp_staking;
    }
    if mission_sc.tland_staking.is_some() {
        cfg.mission_smart_contracts.tland_staking = mission_sc.tland_staking;
    }
    if mission_sc.platform_registry.is_some() {
        cfg.mission_smart_contracts.platform_registry = mission_sc.platform_registry;
    }
    Ok(())
}

/// The members to store for a registration by the owner, in the order
/// given; anyone else is refused as `Unauthorized`.
pub fn execute_register_members(cfg: &Config, info: &MessageInfo, members: &Vec<NewMember>) -> (r:
    Result<Vec<Member>, ContractError>)
    ensures
        info.sender@ != cfg.owner@ ==> r is Err && r->Err_0 is Unauthorized,
        info.sender@ == cfg.owner@ ==> r is Ok && r->Ok_0@.len() == members@.len() && forall|
            i: int,
        |
            0 <= i < members@.len() ==> (#[trigger] r->Ok_0@[i]) == (Member {
                amount: members@[i].amount,
                claimed: members@[i].claimed,
            }),
{
    if info.sender != cfg.owner {
        return Err(ContractError::Unauthorized);
    }
    let mut stored: Vec<Member> = Vec::new();
    let mut i: usize = 0;
    while i < members.len()
        invariant
            i <= members@.len(),
            stored@.len() == i,
            forall|k: int|
                0 <= k < i ==> (#[trigger] stored@[k]) == (Member {
                    amount: members@[k].amount,
                    claimed: members@[k].claimed,
                }),
        decreases members@.len() - i,
    {
        stored.push(Member { amount: members[i].amount, claimed: members[i].claimed });
        i = i + 1;
    }
    Ok(stored)
}

/// Asks, on behalf of the owner, for the transfer of `amount` in `uusd` to
/// `recipient`; anyone else is refused as `Unauthorized`.
pub fn execute_ust_withdraw(
    cfg: &Config,
    info: &MessageInfo,
    recipient: String,
    amount: u128,
) -> (r: Result<Response, ContractError>)
    ensures
        info.sender@ != cfg.owner@ ==> r is Err && r->Err_0 is Unauthorized,
        info.sender@ == cfg.owner@ ==> r is Ok && r->Ok_0.payouts@.len() == 1 && (
        r->Ok_0.payouts@[0] matches Payout::Native { denom, recipient: to, amount: sent }
            && denom@ == "uusd"@ && to == recipient && sent == amount),
{
    if info.sender != cfg.owner {
        return Err(ContractError::Unauthorized);
    }
    let mut payouts: Vec<Payout> = Vec::new();
    payouts.push(Payout::Native { denom: "uusd".to_owned(), recipient, amount });
    Ok(Response { payouts })
}

/// Asks, on behalf of the owner, for the transfer of the contract's whole
/// balance of `token` to `recipient`; anyone else is refused as
/// `Unauthorized`.
pub fn execute_token_withdraw(
    cfg: &Config,
    info: &MessageInfo,
    token: String,
    recipient: String,
) -> (r: Result<Response, ContractError>)
    ensures
        info.sender@ != cfg.owner@ ==> r is Err && r->Err_0 is Unauthorized,
        info.sender@ == cfg.owner@ ==> r is Ok && r->Ok_0.payouts@ == seq![
            Payout::AllOfToken { token, recipient },
        ],
{
    if info.sender != cfg.owner {
        return Err(ContractError::Unauthorized);
    }
    let mut payouts: Vec<Payout> = Vec::new();
    payouts.push(Payout::AllOfToken { token, recipient });
    assert(payouts@ =~= seq![Payout::AllOfToken { token, recipient }]);
    Ok(Response { payouts })
}

/// What is known of a member: its allotment, what it has claimed, and the
/// missions it has passed; nothing of an address that is no member.
pub fn query_member(member: Option<Member>, missions: &Missions) -> (r: MemberResponse)
    ensures
        r.stats == match member {
            Some(m) => Some(
                MemberStats { amount: m.amount, claimed: m.claimed, passed_missions: *missions },
            ),
            None => None::<MemberStats>,
        },
{
    let stats = match member {
        Some(m) => Some(
            MemberStats { amount: m.amount, claimed: m.claimed, passed_missions: *missions },
        ),
        None => None,
    };
    MemberResponse { stats }
}

} // verus!
