//! The rules of vesting: what has been released of an allotment at a given
//! time, and what of it can still be claimed.

use vstd::prelude::*;
use crate::error::ContractError;
use crate::paging::{page_limit, page_size};
use crate::payment::{MessageInfo, fee_checked, must_pay_exactly};
use crate::response::{Payout, Response, pay_one, pays_one};
use crate::vesting::msg::{
    InstantiateMsg,
    MemberListResponse,
    MemberListResponseItem,
    MemberResponse,
    MemberResponseItem,
    RegisterMemberItem,
};
use crate::vesting::state::{Config, FeeConfig, Member, Vesting};

verus! {

/// The length of a day in seconds.
pub const DAY: u64 = 86400;

/// The part of the allotment released at the start.
pub open spec fn initial_amount(member: Member, vesting: Vesting) -> int {
    member.amount * vesting.initial_percentage / 100
}

/// The whole days between the end of the cliff and the end of vesting.
pub open spec fn total_days(vesting: Vesting) -> int {
    (vesting.end_time - vesting.cliff_end_time) / (DAY as int)
}

/// The whole days that have passed at `time` since the end of the cliff.
pub open spec fn days_passed(vesting: Vesting, time: int) -> int {
    (time - vesting.cliff_end_time) / (DAY as int)
}

/// What has been released of the allotment at `time`: nothing before the
/// start, all of it after the end, the initial part during the cliff, and
/// from then on the initial part and of the rest as many parts as days
/// have passed, rounded down.
pub open spec fn released(member: Member, vesting: Vesting, time: int) -> int {
    if time < vesting.start_time {
        0
    } else if time > vesting.end_time {
        member.amount as int
    } else if time < vesting.cliff_end_time {
        initial_amount(member, vesting)
    } else {
        (member.amount - initial_amount(member, vesting)) * days_passed(vesting, time)
            / total_days(vesting) + initial_amount(member, vesting)
    }
}

/// Whether the released amount can be computed at `time`: no step leaves
/// `u128`, goes below zero or divides by zero.
pub open spec fn release_defined(member: Member, vesting: Vesting, time: int) -> bool {
    if time < vesting.start_time || time > vesting.end_time {
        true
    } else if member.amount * vesting.initial_percentage > u128::MAX {
        false
    } else if time < vesting.cliff_end_time {
        true
    } else {
        &&& vesting.cliff_end_time <= vesting.end_time
        &&& initial_amount(member, vesting) <= member.amount
        &&& (member.amount - initial_amount(member, vesting)) * days_passed(vesting, time)
            <= u128::MAX
        &&& total_days(vesting) > 0
        &&& released(member, vesting, time) <= u128::MAX
    }
}

/// The place of the last entry among the first `n` that names `operation`.
pub open spec fn last_fee(fees: Seq<FeeConfig>, operation: Seq<char>, n: int) -> Option<int>
    decreases n,
{
    if n <= 0 {
        None
    } else if fees[n - 1].operation@ == operation {
        Some(n - 1)
    } else {
        last_fee(fees, operation, n - 1)
    }
}

/// Whether `r` is the result of asking for the fee of `operation`: the last
/// entry that names the operation decides; no entry, or a fee of zero, asks
/// for nothing.
pub open spec fn operation_fee_checked(
    cfg: Config,
    operation: Seq<char>,
    info: MessageInfo,
    r: Result<(), ContractError>,
) -> bool {
    match last_fee(cfg.fee_config@, operation, cfg.fee_config@.len() as int) {
        None => r is Ok,
        Some(i) => if cfg.fee_config@[i].fee == 0 {
            r is Ok
        } else {
            fee_checked(info.funds@, cfg.fee_config@[i].denom@, cfg.fee_config@[i].fee, r)
        },
    }
}

/// Whether the released amount can be computed at `time`.
pub fn can_compute_released_amount(member: &Member, cfg: &Config, time: u64) -> (r: bool)
    ensures
        r == release_defined(*member, cfg.vesting, time as int),
{
    if time < cfg.vesting.start_time || time > cfg.vesting.end_time {
        return true;
    }
    let initial = match member.amount.checked_mul(cfg.vesting.initial_percentage as u128) {
        Some(product) => product / 100,
        None => { return false; },
    };
    if time < cfg.vesting.cliff_end_time {
        return true;
    }
    if cfg.vesting.cliff_end_time > cfg.vesting.end_time || initial > member.amount {
        return false;
    }
    let total = (cfg.vesting.end_time - cfg.vesting.cliff_end_time) / DAY;
    let passed = (time - cfg.vesting.cliff_end_time) / DAY;
    let product = match (member.amount - initial).checked_mul(passed as u128) {
        Some(product) => product,
        None => { return false; },
    };
    if total == 0 {
        return false;
    }
    (product / (total as u128)).checked_add(initial).is_some()
}

/// What has been released of the member's allotment at `time`.
pub fn compute_released_amount(member: &Member, cfg: &Config, time: u64) -> (r: u128)
    requires
        release_defined(*member, cfg.vesting, time as int),
    ensures
        r == released(*member, cfg.vesting, time as int),
{
    if time < cfg.vesting.start_time {
        return 0;
    }
    if time > cfg.vesting.end_time {
        return member.amount;
    }
    let initial_amount = member.amount * (cfg.vesting.initial_percentage as u128) / 100;
    if time < cfg.vesting.cliff_end_time {
        return initial_amount;
    }
    let total_days = (cfg.vesting.end_time - cfg.vesting.cliff_end_time) / DAY;
    let days_passed = (time - cfg.vesting.cliff_end_time) / DAY;
    (member.amount - initial_amount) * (days_passed as u128) / (total_days as u128)
        + initial_amount
}

/// What the member can claim at `time`: what has been released less what it
/// has claimed.
pub fn compute_available_amount(member: &Member, cfg: &Config, time: u64) -> (r: u128)
    requires
        release_defined(*member, cfg.vesting, time as int),
        member.claimed <= released(*member, cfg.vesting, time as int),
    ensures
        r == released(*member, cfg.vesting, time as int) - member.claimed,
{
    let released_amount = compute_released_amount(member, cfg, time);
    released_amount - member.claimed
}

/// Checks that the fee of `operation` was sent along. The last entry of the
/// fee settings that names the operation decides the fee and its
/// denomination; where none does, or the fee is zero, nothing is asked for.
pub fn must_pay_fee(info: &MessageInfo, cfg: &Config, operation: String) -> (r: Result<
    (),
    ContractError,
>)
    ensures
        operation_fee_checked(*cfg, operation@, *info, r),
{
    let mut found: Option<usize> = None;
    let mut i: usize = 0;
    while i < cfg.fee_config.len()
        invariant
            i <= cfg.fee_config@.len(),
            match last_fee(cfg.fee_config@, operation@, i as int) {
                None => found is None,
                Some(k) => found == Some(k as usize) && 0 <= k < i,
            },
        decreases cfg.fee_config@.len() - i,
    {
        if cfg.fee_config[i].operation == operation {
            found = Some(i);
        }
        i = i + 1;
    }
    match found {
        None => Ok(()),
        Some(k) => {
            if cfg.fee_config[k].fee == 0 {
                return Ok(());
            }
            must_pay_exactly(&info.funds, cfg.fee_config[k].denom.as_str(), cfg.fee_config[k].fee)
        },
    }
}

/// Claims for the sender what has been released of its allotment and not
/// been claimed: returns the member with the claim booked and asks for the
/// transfer of the amount. The sender must pay the fee of the operation
/// `claim` and be a member, and what it can claim must not be zero.
pub fn execute_claim(cfg: &Config, info: &MessageInfo, member: Option<Member>, time: u64) -> (r:
    Result<(Member, Response), ContractError>)
    requires
        member matches Some(m) ==> release_defined(m, cfg.vesting, time as int) && m.claimed
            <= released(m, cfg.vesting, time as int),
    ensures
        !operation_fee_checked(*cfg, "claim"@, *info, Ok(())) ==> r is Err
            && operation_fee_checked(*cfg, "claim"@, *info, Err(r->Err_0)),
        operation_fee_checked(*cfg, "claim"@, *info, Ok(())) ==> match member {
            None => r is Err && r->Err_0 is MemberNotFound,
            Some(m) => if released(m, cfg.vesting, time as int) == m.claimed {
                r is Err && r->Err_0 is NothingToClaim
            } else {
                r is Ok && r->Ok_0.0 == (Member {
                    amount: m.amount,
                    claimed: released(m, cfg.vesting, time as int) as u128,
                }) && pays_one(
                    r->Ok_0.1.payouts@,
                    cfg.terraland_token,
                    info.sender,
                    (released(m, cfg.vesting, time as int) - m.claimed) as u128,
                )
            },
        },
{
    match must_pay_fee(info, cfg, "claim".to_owned()) {
        Ok(()) => {},
        Err(e) => { return Err(e); },
    }
    let mut member = match member {
        Some(m) => m,
        None => { return Err(ContractError::MemberNotFound); },
    };
    let available_to_claim = compute_available_amount(&member, cfg, time);
    member.claimed = member.claimed + available_to_claim;
    if available_to_claim == 0 {
        return Err(ContractError::NothingToClaim);
    }
    Ok((member, pay_one(cfg.terraland_token.clone(), info.sender.clone(), available_to_claim)))
}

/// Replaces, on behalf of the owner, the settings that the message names;
/// anyone else is refused as `Unauthorized` and changes nothing.
pub fn execute_update_config(
    cfg: &mut Config,
    info: &MessageInfo,
    new_owner: Option<String>,
    new_name: Option<String>,
    new_fee_config: Option<Vec<FeeConfig>>,
    new_vesting: Option<Vesting>,
) -> (r: Result<(), ContractError>)
    ensures
        info.sender@ != old(cfg).owner@ ==> r is Err && r->Err_0 is Unauthorized && *final(cfg)
            == *old(cfg),
        info.sender@ == old(cfg).owner@ ==> r is Ok && *final(cfg) == (Config {
            owner: match new_owner {
                Some(owner) => owner,
                None => old(cfg).owner,
            },
            terraland_token: old(cfg).terraland_token,
            name: match new_name {
                Some(name) => name,
                None => old(cfg).name,
            },
            fee_config: match new_fee_config {
                Some(fee_config) => fee_config,
                None => old(cfg).fee_config,
            },
            vesting: match new_vesting {
                Some(vesting) => vesting,
                None => old(cfg).vesting,
            },
        }),
{
    if info.sender != cfg.owner {
        return Err(ContractError::Unauthorized);
    }
    if let Some(owner) = new_owner {
        cfg.owner = owner;
    }
    if let Some(name) = new_name {
        cfg.name = name;
    }
    if let Some(fee_config) = new_fee_config {
        cfg.fee_config = fee_config;
    }
    if let Some(vesting) = new_vesting {
        cfg.vesting = vesting;
    }
    Ok(())
}

/// The member to store for a registration: nothing claimed where the item
/// names no claim.
pub open spec fn registered(item: RegisterMemberItem) -> Member {
    Member {
        amount: item.amount,
        claimed: match item.claimed {
            Some(claimed) => claimed,
            None => 0,
        },
    }
}

/// The members to store for a registration by the owner, in the order
/// given; anyone else is refused as `Unauthorized`.
pub fn execute_register_members(
    cfg: &Config,
    info: &MessageInfo,
    members: &Vec<RegisterMemberItem>,
) -> (r: Result<Vec<Member>, ContractError>)
    ensures
        info.sender@ != cfg.owner@ ==> r is Err && r->Err_0 is Unauthorized,
        info.sender@ == cfg.owner@ ==> r is Ok && r->Ok_0@.len() == members@.len() && forall|
            i: int,
        |
            0 <= i < members@.len() ==> (#[trigger] r->Ok_0@[i]) == registered(members@[i]),
{
    if info.sender != cfg.owner {
        return Err(ContractError::Unauthorized);
    }
    let mut stored: Vec<Member> = Vec::new();
    let mut i: usize = 0;
    while i < members.len()
        invariant
            i <= members@.len(),
            stored@.len() == i,
            forall|k: int| 0 <= k < i ==> (#[trigger] stored@[k]) == registered(members@[k]),
        decreases members@.len() - i,
    {
        let claimed = match members[i].claimed {
            Some(claimed) => claimed,
            None => 0,
        };
        stored.push(Member { amount: members[i].amount, claimed });
        i = i + 1;
    }
    Ok(stored)
}

/// Asks, on behalf of the owner, for the transfer of `amount` in `uusd` to
/// `recipient`; anyone else is refused as `Unauthorized`.
pub fn execute_ust_withdraw(
    cfg: &Config,
    info: &MessageInfo,
    recipient: String,
    amount: u128,
) -> (r: Result<Response, ContractError>)
    ensures
        info.sender@ != cfg.owner@ ==> r is Err && r->Err_0 is Unauthorized,
        info.sender@ == cfg.owner@ ==> r is Ok && r->Ok_0.payouts@.len() == 1 && (
        r->Ok_0.payouts@[0] matches Payout::Native { denom, recipient: to, amount: sent }
            && denom@ == "uusd"@ && to == recipient && sent == amount),
{
    if info.sender != cfg.owner {
        return Err(ContractError::Unauthorized);
    }
    let mut payouts: Vec<Payout> = Vec::new();
    payouts.push(Payout::Native { denom: "uusd".to_owned(), recipient, amount });
    Ok(Response { payouts })
}

/// Asks, on behalf of the owner, for the transfer of the contract's whole
/// balance of `token` to `recipient`; anyone else is refused as
/// `Unauthorized`.
pub fn execute_token_withdraw(
    cfg: &Config,
    info: &MessageInfo,
    token: String,
    recipient: String,
) -> (r: Result<Response, ContractError>)
    ensures
        info.sender@ != cfg.owner@ ==> r is Err && r->Err_0 is Unauthorized,
        info.sender@ == cfg.owner@ ==> r is Ok && r->Ok_0.payouts@ == seq![
            Payout::AllOfToken { token, recipient },
        ],
{
    if info.sender != cfg.owner {
        return Err(ContractError::Unauthorized);
    }
    let mut payouts: Vec<Payout> = Vec::new();
    payouts.push(Payout::AllOfToken { token, recipient });
    assert(payouts@ =~= seq![Payout::AllOfToken { token, recipient }]);
    Ok(Response { payouts })
}

/// What is known of a member at `time`: its allotment, what it can claim
/// and what it has claimed; nothing of an address that is no member.
pub fn query_member(member: Option<Member>, cfg: &Config, time: u64) -> (r: MemberResponse)
    requires
        member matches Some(m) ==> release_defined(m, cfg.vesting, time as int) && m.claimed
            <= released(m, cfg.vesting, time as int),
    ensures
        r.member == match member {
            Some(m) => Some(
                MemberResponseItem {
                    amount: m.amount,
                    available_to_claim: (released(m, cfg.vesting, time as int) - m.claimed) as u128,
                    claimed: m.claimed,
                },
            ),
            None => None::<MemberResponseItem>,
        },
{
    let res = match member {
        Some(m) => Some(
            MemberResponseItem {
                amount: m.amount,
                available_to_claim: compute_available_amount(&m, cfg, time),
                claimed: m.claimed,
            },
        ),
        None => None,
    };
    MemberResponse { member: res }
}

/// The settings of a new vesting contract, as the message names them.
pub fn instantiate(msg: InstantiateMsg) -> (cfg: Config)
    ensures
        cfg == (Config {
            owner: msg.owner,
            terraland_token: msg.terraland_token,
            name: msg.name,
            fee_config: msg.fee_config,
            vesting: msg.vesting,
        }),
{
    Config {
        owner: msg.owner,
        terraland_token: msg.terraland_token,
        name: msg.name,
        fee_config: msg.fee_config,
        vesting: msg.vesting,
    }
}

/// A member under its address, as it is stored.
#[derive(Debug)]
pub struct StoredMember {
    pub address: String,
    pub member: Member,
}

/// What the listing says of a stored member at `time`.
pub open spec fn listed(
    stored: StoredMember,
    vesting: Vesting,
    time: int,
    item: MemberListResponseItem,
) -> bool {
    &&& item.address == stored.address
    &&& item.info == (MemberResponseItem {
        amount: stored.member.amount,
        available_to_claim: (released(stored.member, vesting, time) - stored.member.claimed)
            as u128,
        claimed: stored.member.claimed,
    })
}

/// The number of members on a page taken from `stored`.
pub open spec fn page_length(stored: Seq<StoredMember>, limit: Option<u32>) -> int {
    if stored.len() < page_size(limit) {
        stored.len() as int
    } else {
        page_size(limit)
    }
}

/// A page of the listing: of the members `stored`, which come in the order
/// of their addresses from where the page starts, the first ten where
/// `limit` names no number, thirty at most, each with what it can claim at
/// `time`.
pub fn query_member_list(
    stored: &Vec<StoredMember>,
    limit: Option<u32>,
    cfg: &Config,
    time: u64,
) -> (r: MemberListResponse)
    requires
        forall|i: int|
            0 <= i < page_length(stored@, limit) ==> release_defined(
                (#[trigger] stored@[i]).member,
                cfg.vesting,
                time as int,
            ) && stored@[i].member.claimed <= released(stored@[i].member, cfg.vesting, time as int),
    ensures
        r.members@.len() == page_length(stored@, limit),
        forall|i: int|
            0 <= i < r.members@.len() ==> listed(
                stored@[i],
                cfg.vesting,
                time as int,
                #[trigger] r.members@[i],
            ),
{
    let size = page_limit(limit);
    let mut members: Vec<MemberListResponseItem> = Vec::new();
    let mut i: usize = 0;
    while i < stored.len() && i < size
        invariant
            size == page_size(limit),
            i <= stored@.len(),
            i <= size,
            members@.len() == i,
            forall|k: int|
                0 <= k < page_length(stored@, limit) ==> release_defined(
                    (#[trigger] stored@[k]).member,
                    cfg.vesting,
                    time as int,
                ) && stored@[k].member.claimed <= released(
                    stored@[k].member,
                    cfg.vesting,
                    time as int,
                ),
            forall|k: int|
                0 <= k < i ==> listed(stored@[k], cfg.vesting, time as int, #[trigger] members@[k]),
        decreases stored@.len() - i,
    {
        let m = stored[i].member;
        members.push(
            MemberListResponseItem {
                address: stored[i].address.clone(),
                info: MemberResponseItem {
                    amount: m.amount,
                    available_to_claim: compute_available_amount(&m, cfg, time),
                    claimed: m.claimed,
                },
            },
        );
        i = i + 1;
    }
    MemberListResponse { members }
}

} // verus!
