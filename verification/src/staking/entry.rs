//! The entry points of the staking contract: what a message does to the
//! ledger and which transfers it asks for.

use vstd::prelude::*;
use crate::error::ContractError;
use crate::paging::page_size;
use crate::payment::{Coin, MessageInfo, fee_checked, must_pay_exactly, pays_in};
use crate::response::{Payout, Response, pay_one, pays_one};
use crate::staking::claims::InstantClaim;
use crate::staking::contract::Balance;
use crate::staking::laws::empty_ledger;
use crate::staking::ledger::{Ledger, id_of, is_page, member_answer, page_fails, reward_of};
use crate::staking::model::{LedgerView, distinct_ids};
use crate::staking::msg::{
    Cw20ReceiveMsg,
    ExecuteMsg,
    InstantiateMsg,
    ClaimsResponse,
    MemberListResponse,
    MemberListResponseItem,
    MemberResponse,
    NewConfig,
    QueryMsg,
    ReceiveMsg,
    RewardResponse,
    StakedResponse,
    TotalResponse,
    WithdrawnResponse,
};
use crate::staking::state::{Config, bounds_of, merged_config, schedule_bounds};

verus! {

/// The fee that unbonding and claiming cost, in the denomination `uust`.
pub const FEE: u128 = 1000000;

/// The settings of an instance created with `msg`.
pub open spec fn initial_config(msg: InstantiateMsg) -> Config {
    Config {
        owner: msg.owner,
        staking_token: msg.staking_token,
        terraland_token: msg.terraland_token,
        unbonding_period: msg.unbonding_period,
        burn_address: msg.burn_address,
        instant_claim_percentage_loss: msg.instant_claim_percentage_loss,
        distribution_schedule: msg.distribution_schedule,
        start_time: bounds_of(msg.distribution_schedule@).0,
        end_time: bounds_of(msg.distribution_schedule@).1,
    }
}

/// Whether the funds pay the fee: a single coin of exactly `FEE` in `uust`.
pub open spec fn fee_paid(funds: Seq<Coin>) -> bool {
    pays_in(funds, "uust"@) && funds[0].amount == FEE
}

/// Creates the ledger of a new instance. The distribution runs from the
/// start of the first entry of the schedule to the end of the last.
pub fn instantiate(msg: InstantiateMsg) -> (ledger: Ledger)
    ensures
        ledger@ == empty_ledger(initial_config(msg)),
        ledger@.wf(),
        distinct_ids(ledger@.accounts),
{
    let (start_time, end_time) = schedule_bounds(&msg.distribution_schedule);
    Ledger::new(
        Config {
            owner: msg.owner,
            staking_token: msg.staking_token,
            terraland_token: msg.terraland_token,
            unbonding_period: msg.unbonding_period,
            burn_address: msg.burn_address,
            instant_claim_percentage_loss: msg.instant_claim_percentage_loss,
            distribution_schedule: msg.distribution_schedule,
            start_time,
            end_time,
        },
    )
}

/// Checks that exactly the fee was sent along: one coin of `FEE` in `uust`.
pub fn must_pay_fee(info: &MessageInfo) -> (r: Result<(), ContractError>)
    ensures
        fee_checked(info.funds@, "uust"@, FEE, r),
        r is Ok <==> fee_paid(info.funds@),
{
    must_pay_exactly(&info.funds, "uust", FEE)
}

/// Replaces settings on behalf of the owner; anyone else is refused as
/// `Unauthorized` and changes nothing.
pub fn execute_update_config(ledger: &mut Ledger, info: &MessageInfo, new_config: NewConfig) -> (r:
    Result<Response, ContractError>)
    ensures
        info.sender@ != old(ledger)@.config.owner@ ==> r is Err && r->Err_0 is Unauthorized
            && final(ledger)@ == old(ledger)@,
        info.sender@ == old(ledger)@.config.owner@ ==> r is Ok && r->Ok_0.payouts@.len() == 0
            && final(ledger)@ == (LedgerView {
            config: merged_config(old(ledger)@.config, new_config),
            total: old(ledger)@.total,
            epoch_weights: old(ledger)@.epoch_weights,
            accounts: old(ledger)@.accounts,
        }),
        old(ledger)@.wf() && final(ledger)@.config.start_time == old(ledger)@.config.start_time
            ==> final(ledger)@.wf(),
{
    if info.sender != ledger.config().owner {
        return Err(ContractError::Unauthorized);
    }
    ledger.update_config(new_config);
    Ok(Response { payouts: Vec::new() })
}

/// Bonds tokens that a token contract passes on: `info.sender` is that
/// contract, `wrapper.sender` the account the stake is for.
pub fn execute_receive(
    ledger: &mut Ledger,
    now: u64,
    info: &MessageInfo,
    wrapper: Cw20ReceiveMsg,
) -> (r: Result<Response, ContractError>)
    requires
        distinct_ids(old(ledger)@.accounts),
    ensures
        distinct_ids(final(ledger)@.accounts),
        match old(ledger)@.bond(
            wrapper.sender@,
            Balance::Cw20 { address: info.sender, amount: wrapper.amount },
            now,
        ) {
            Ok(after) => r is Ok && r->Ok_0.payouts@.len() == 0 && final(ledger)@ == after,
            Err(e) => r == Err::<Response, ContractError>(e) && final(ledger)@ == old(ledger)@,
        },
        old(ledger)@.wf() ==> final(ledger)@.wf(),
{
    let balance = Balance::Cw20 { address: info.sender.clone(), amount: wrapper.amount };
    match wrapper.msg {
        ReceiveMsg::Bond {  } => {
            match ledger.bond(&wrapper.sender, &balance, now) {
                Ok(()) => Ok(Response { payouts: Vec::new() }),
                Err(e) => Err(e),
            }
        },
    }
}

/// Releases the matured claims of the sender, who must pay the fee, and asks
/// for the transfer of their sum in the staking token.
pub fn claim_for_fee(ledger: &mut Ledger, now: u64, info: &MessageInfo) -> (r: Result<
    Response,
    ContractError,
>)
    requires
        distinct_ids(old(ledger)@.accounts),
    ensures
        distinct_ids(final(ledger)@.accounts),
        !fee_paid(info.funds@) ==> r is Err && fee_checked(
            info.funds@,
            "uust"@,
            FEE,
            Err(r->Err_0),
        ) && final(ledger)@ == old(ledger)@,
        fee_paid(info.funds@) ==> match old(ledger)@.claim(info.sender@, now) {
            Ok((amount, after)) => r is Ok && pays_one(
                r->Ok_0.payouts@,
                old(ledger)@.config.staking_token,
                info.sender,
                amount,
            ) && final(ledger)@ == after,
            Err(e) => r == Err::<Response, ContractError>(e) && final(ledger)@ == old(ledger)@,
        },
        old(ledger)@.wf() ==> final(ledger)@.wf(),
{
    match must_pay_fee(info) {
        Ok(()) => {},
        Err(e) => { return Err(e); },
    }
    let amount = match ledger.claim(&info.sender, now) {
        Ok(amount) => amount,
        Err(e) => { return Err(e); },
    };
    Ok(pay_one(ledger.config().staking_token.clone(), info.sender.clone(), amount))
}

/// Whether `payouts` is the pair of transfers of an instant claim: the
/// payout to `recipient` and the fee to `burn_address`, both in `token`.
pub open spec fn pays_instantly(
    payouts: Seq<Payout>,
    token: String,
    recipient: String,
    burn_address: String,
    paid: InstantClaim,
) -> bool {
    payouts == seq![
        Payout::Token { token, recipient, amount: paid.payout },
        Payout::Token { token, recipient: burn_address, amount: paid.fee },
    ]
}

/// Releases every unbonding claim of the sender at once, who must pay the
/// fee, and asks for two transfers in the staking token: the sum less the
/// percentage fee to the sender, and the percentage fee to the burn address.
pub fn instant_claim_for_fee(ledger: &mut Ledger, now: u64, info: &MessageInfo) -> (r: Result<
    Response,
    ContractError,
>)
    requires
        distinct_ids(old(ledger)@.accounts),
    ensures
        distinct_ids(final(ledger)@.accounts),
        !fee_paid(info.funds@) ==> r is Err && fee_checked(
            info.funds@,
            "uust"@,
            FEE,
            Err(r->Err_0),
        ) && final(ledger)@ == old(ledger)@,
        fee_paid(info.funds@) ==> match old(ledger)@.instant_claim(info.sender@, now) {
            Ok((paid, after)) => r is Ok && pays_instantly(
                r->Ok_0.payouts@,
                old(ledger)@.config.staking_token,
                info.sender,
                old(ledger)@.config.burn_address,
                paid,
            ) && final(ledger)@ == after,
            Err(e) => r == Err::<Response, ContractError>(e) && final(ledger)@ == old(ledger)@,
        },
        old(ledger)@.wf() ==> final(ledger)@.wf(),
{
    match must_pay_fee(info) {
        Ok(()) => {},
        Err(e) => { return Err(e); },
    }
    let paid = match ledger.instant_claim(&info.sender, now) {
        Ok(paid) => paid,
        Err(e) => { return Err(e); },
    };
    let mut payouts: Vec<Payout> = Vec::new();
    payouts.push(
        Payout::Token {
            token: ledger.config().staking_token.clone(),
            recipient: info.sender.clone(),
            amount: paid.payout,
        },
    );
    payouts.push(
        Payout::Token {
            token: ledger.config().staking_token.clone(),
            recipient: ledger.config().burn_address.clone(),
            amount: paid.fee,
        },
    );
    assert(payouts@ =~= seq![
        Payout::Token {
            token: ledger@.config.staking_token,
            recipient: info.sender,
            amount: paid.payout,
        },
        Payout::Token {
            token: ledger@.config.staking_token,
            recipient: ledger@.config.burn_address,
            amount: paid.fee,
        },
    ]);
    Ok(Response { payouts })
}

/// Unbonds `tokens` for the sender, who must pay the fee. Nothing is paid
/// out: the tokens wait in a claim.
pub fn unbond_for_fee(
    ledger: &mut Ledger,
    now: u64,
    info: &MessageInfo,
    tokens: u128,
) -> (r: Result<Response, ContractError>)
    requires
        distinct_ids(old(ledger)@.accounts),
    ensures
        distinct_ids(final(ledger)@.accounts),
        !fee_paid(info.funds@) ==> r is Err && fee_checked(
            info.funds@,
            "uust"@,
            FEE,
            Err(r->Err_0),
        ) && final(ledger)@ == old(ledger)@,
        fee_paid(info.funds@) ==> match old(ledger)@.unbond(info.sender@, tokens, now) {
            Ok(after) => r is Ok && r->Ok_0.payouts@.len() == 0 && final(ledger)@ == after,
            Err(e) => r == Err::<Response, ContractError>(e) && final(ledger)@ == old(ledger)@,
        },
        old(ledger)@.wf() ==> final(ledger)@.wf(),
{
    match must_pay_fee(info) {
        Ok(()) => {},
        Err(e) => { return Err(e); },
    }
    match ledger.unbond(&info.sender, tokens, now) {
        Ok(()) => Ok(Response { payouts: Vec::new() }),
        Err(e) => Err(e),
    }
}

/// Pays the sender the reward it has earned and not yet been paid, and asks
/// for its transfer in the reward token.
pub fn withdraw_reward(ledger: &mut Ledger, now: u64, info: &MessageInfo) -> (r: Result<
    Response,
    ContractError,
>)
    requires
        distinct_ids(old(ledger)@.accounts),
    ensures
        distinct_ids(final(ledger)@.accounts),
        match old(ledger)@.withdraw(info.sender@, now) {
            Ok((amount, after)) => r is Ok && pays_one(
                r->Ok_0.payouts@,
                old(ledger)@.config.terraland_token,
                info.sender,
                amount,
            ) && final(ledger)@ == after,
            Err(e) => r == Err::<Response, ContractError>(e) && final(ledger)@ == old(ledger)@,
        },
        old(ledger)@.wf() ==> final(ledger)@.wf(),
{
    let amount = match ledger.withdraw(&info.sender, now) {
        Ok(amount) => amount,
        Err(e) => { return Err(e); },
    };
    Ok(pay_one(ledger.config().terraland_token.clone(), info.sender.clone(), amount))
}

/// Asks, on behalf of the owner, for the transfer of the contract's whole
/// balance in `uust` to `recipient`; anyone else is refused as
/// `Unauthorized`.
pub fn execute_ust_withdraw(cfg: &Config, info: &MessageInfo, recipient: String) -> (r: Result<
    Response,
    ContractError,
>)
    ensures
        info.sender@ != cfg.owner@ ==> r is Err && r->Err_0 is Unauthorized,
        info.sender@ == cfg.owner@ ==> r is Ok && r->Ok_0.payouts@.len() == 1 && (
        r->Ok_0.payouts@[0] matches Payout::AllNative { denom, recipient: to } && denom@
            == "uust"@ && to == recipient),
{
    if info.sender != cfg.owner {
        return Err(ContractError::Unauthorized);
    }
    let mut payouts: Vec<Payout> = Vec::new();
    payouts.push(Payout::AllNative { denom: "uust".to_owned(), recipient });
    Ok(Response { payouts })
}

/// Asks, on behalf of the owner, for the transfer of the contract's whole
/// balance of `token` to `recipient`; anyone else is refused as
/// `Unauthorized`.
pub fn execute_token_withdraw(
    cfg: &Config,
    info: &MessageInfo,
    token: String,
    recipient: String,
) -> (r: Result<Response, ContractError>)
    ensures
        info.sender@ != cfg.owner@ ==> r is Err && r->Err_0 is Unauthorized,
        info.sender@ == cfg.owner@ ==> r is Ok && r->Ok_0.payouts@ == seq![
            Payout::AllOfToken { token, recipient },
        ],
{
    if info.sender != cfg.owner {
        return Err(ContractError::Unauthorized);
    }
    let mut payouts: Vec<Payout> = Vec::new();
    payouts.push(Payout::AllOfToken { token, recipient });
    assert(payouts@ =~= seq![Payout::AllOfToken { token, recipient }]);
    Ok(Response { payouts })
}

/// Carries out `msg` for its sender at `now`, as the entry point that the
/// message names does. Whatever fails leaves the ledger as it was.
pub fn execute(ledger: &mut Ledger, now: u64, info: &MessageInfo, msg: ExecuteMsg) -> (r: Result<
    Response,
    ContractError,
>)
    requires
        distinct_ids(old(ledger)@.accounts),
    ensures
        distinct_ids(final(ledger)@.accounts),
        r is Err ==> final(ledger)@ == old(ledger)@,
        old(ledger)@.wf() && final(ledger)@.config.start_time == old(ledger)@.config.start_time
            ==> final(ledger)@.wf(),
        match msg {
            ExecuteMsg::Receive(wrapper) => match old(ledger)@.bond(
                wrapper.sender@,
                Balance::Cw20 { address: info.sender, amount: wrapper.amount },
                now,
            ) {
                Ok(after) => r is Ok && r->Ok_0.payouts@.len() == 0 && final(ledger)@ == after,
                Err(e) => r == Err::<Response, ContractError>(e),
            },
            ExecuteMsg::Unbond { tokens } => if fee_paid(info.funds@) {
                match old(ledger)@.unbond(info.sender@, tokens, now) {
                    Ok(after) => r is Ok && r->Ok_0.payouts@.len() == 0 && final(ledger)@
                        == after,
                    Err(e) => r == Err::<Response, ContractError>(e),
                }
            } else {
                r is Err && fee_checked(info.funds@, "uust"@, FEE, Err(r->Err_0))
            },
            ExecuteMsg::Claim {  } => if fee_paid(info.funds@) {
                match old(ledger)@.claim(info.sender@, now) {
                    Ok((amount, after)) => r is Ok && pays_one(
                        r->Ok_0.payouts@,
                        old(ledger)@.config.staking_token,
                        info.sender,
                        amount,
                    ) && final(ledger)@ == after,
                    Err(e) => r == Err::<Response, ContractError>(e),
                }
            } else {
                r is Err && fee_checked(info.funds@, "uust"@, FEE, Err(r->Err_0))
            },
            ExecuteMsg::InstantClaim {  } => if fee_paid(info.funds@) {
                match old(ledger)@.instant_claim(info.sender@, now) {
                    Ok((paid, after)) => r is Ok && pays_instantly(
                        r->Ok_0.payouts@,
                        old(ledger)@.config.staking_token,
                        info.sender,
                        old(ledger)@.config.burn_address,
                        paid,
                    ) && final(ledger)@ == after,
                    Err(e) => r == Err::<Response, ContractError>(e),
                }
            } else {
                r is Err && fee_checked(info.funds@, "uust"@, FEE, Err(r->Err_0))
            },
            ExecuteMsg::Withdraw {  } => match old(ledger)@.withdraw(info.sender@, now) {
                Ok((amount, after)) => r is Ok && pays_one(
                    r->Ok_0.payouts@,
                    old(ledger)@.config.terraland_token,
                    info.sender,
                    amount,
                ) && final(ledger)@ == after,
                Err(e) => r == Err::<Response, ContractError>(e),
            },
            ExecuteMsg::UpdateConfig(new_config) => if info.sender@ == old(
                ledger,
            )@.config.owner@ {
                r is Ok && r->Ok_0.payouts@.len() == 0 && final(ledger)@ == (LedgerView {
                    config: merged_config(old(ledger)@.config, new_config),
                    total: old(ledger)@.total,
                    epoch_weights: old(ledger)@.epoch_weights,
                    accounts: old(ledger)@.accounts,
                })
            } else {
                r is Err && r->Err_0 is Unauthorized
            },
            ExecuteMsg::UstWithdraw { recipient } => final(ledger)@ == old(ledger)@
                && if info.sender@ == old(ledger)@.config.owner@ {
                r is Ok && r->Ok_0.payouts@.len() == 1 && (
                r->Ok_0.payouts@[0] matches Payout::AllNative { denom, recipient: to } && denom@
                    == "uust"@ && to == recipient)
            } else {
                r is Err && r->Err_0 is Unauthorized
            },
            ExecuteMsg::TokenWithdraw { token, recipient } => final(ledger)@ == old(ledger)@
                && if info.sender@ == old(ledger)@.config.owner@ {
                r is Ok && r->Ok_0.payouts@ == seq![Payout::AllOfToken { token, recipient }]
            } else {
                r is Err && r->Err_0 is Unauthorized
            },
        },
{
    match msg {
        ExecuteMsg::UpdateConfig(new_config) => execute_update_config(ledger, info, new_config),
        ExecuteMsg::Receive(wrapper) => execute_receive(ledger, now, info, wrapper),
        ExecuteMsg::Unbond { tokens } => unbond_for_fee(ledger, now, info, tokens),
        ExecuteMsg::Claim {  } => claim_for_fee(ledger, now, info),
        ExecuteMsg::InstantClaim {  } => instant_claim_for_fee(ledger, now, info),
        ExecuteMsg::Withdraw {  } => withdraw_reward(ledger, now, info),
        ExecuteMsg::UstWithdraw { recipient } => execute_ust_withdraw(
            ledger.config(),
            info,
            recipient,
        ),
        ExecuteMsg::TokenWithdraw { token, recipient } => execute_token_withdraw(
            ledger.config(),
            info,
            token,
            recipient,
        ),
    }
}

/// The answer to a query.
#[derive(Debug)]
pub enum QueryResponse<'a> {
    Config(&'a Config),
    Claims(ClaimsResponse),
    Staked(StakedResponse),
    Reward(RewardResponse),
    Total(TotalResponse),
    Member(MemberResponse),
    Withdrawn(WithdrawnResponse),
    Members(MemberListResponse),
}

/// What the account `id` can withdraw at `now`: what it has earned less
/// what it has been paid.
pub open spec fn withdrawable(
    s: LedgerView,
    id: Seq<char>,
    now: int,
) -> Result<u128, ContractError> {
    match reward_of(s, id, now) {
        Err(e) => Err(e),
        Ok(reward) => if s.account(id).withdrawn > reward {
            Err(ContractError::Underflow)
        } else {
            Ok((reward - s.account(id).withdrawn) as u128)
        },
    }
}

/// The settings of the contract.
pub fn query_config(ledger: &Ledger) -> (r: &Config)
    ensures
        *r == ledger@.config,
{
    ledger.config()
}

/// Stake, reward, withdrawals and claims of the account `address` at
/// `now`; nothing where it has never bonded.
pub fn query_member(ledger: &Ledger, now: u64, address: &String) -> (r: Result<
    MemberResponse,
    ContractError,
>)
    requires
        distinct_ids(ledger@.accounts),
    ensures
        match r {
            Ok(response) => member_answer(ledger@, address@, now as int, Ok(response.member)),
            Err(e) => member_answer(ledger@, address@, now as int, Err(e)),
        },
{
    match ledger.member(address, now) {
        Ok(member) => Ok(MemberResponse { member }),
        Err(e) => Err(e),
    }
}

/// A page of the accounts in the order of their addresses, from the first
/// after `start_after` on: ten where `limit` names no number, thirty at
/// most.
pub fn query_member_list(
    ledger: &Ledger,
    now: u64,
    start_after: Option<String>,
    limit: Option<u32>,
) -> (r: Result<MemberListResponse, ContractError>)
    requires
        distinct_ids(ledger@.accounts),
    ensures
        match r {
            Ok(response) => is_page(
                ledger@,
                id_of(start_after),
                page_size(limit),
                now as int,
                response.members@,
            ),
            Err(e) => exists|items: Seq<MemberListResponseItem>, id: Seq<char>| #[trigger]
                page_fails(ledger@, id_of(start_after), page_size(limit), now as int, e, items, id),
        },
{
    ledger.list_members(start_after, limit, now)
}

/// Answers `msg` from the ledger as it stands at `now`. Nothing is changed.
pub fn query<'a>(ledger: &'a Ledger, now: u64, msg: QueryMsg) -> (r: Result<
    QueryResponse<'a>,
    ContractError,
>)
    requires
        distinct_ids(ledger@.accounts),
    ensures
        match msg {
            QueryMsg::Config {  } => r matches Ok(QueryResponse::Config(cfg)) && *cfg
                == ledger@.config,
            QueryMsg::Claims { address } => r matches Ok(QueryResponse::Claims(response))
                && response.claims@ == ledger@.account(address@).claims,
            QueryMsg::Staked { address } => r matches Ok(QueryResponse::Staked(response))
                && response.stake == ledger@.account(address@).stake.amount && response.denom
                == ledger@.config.staking_token,
            QueryMsg::Reward { address } => match withdrawable(ledger@, address@, now as int) {
                Ok(amount) => r matches Ok(QueryResponse::Reward(response)) && response.reward
                    == amount,
                Err(e) => r matches Err(error) && error == e,
            },
            QueryMsg::Total {  } => r matches Ok(QueryResponse::Total(response))
                && response.total == ledger@.total.amount,
            QueryMsg::Member { address } => match r {
                Ok(QueryResponse::Member(response)) => member_answer(
                    ledger@,
                    address@,
                    now as int,
                    Ok(response.member),
                ),
                Ok(_) => false,
                Err(e) => member_answer(ledger@, address@, now as int, Err(e)),
            },
            QueryMsg::Withdrawn { address } => r matches Ok(QueryResponse::Withdrawn(response))
                && response.withdrawn == ledger@.account(address@).withdrawn,
            QueryMsg::ListMembers { start_after, limit } => match r {
                Ok(QueryResponse::Members(response)) => is_page(
                    ledger@,
                    id_of(start_after),
                    page_size(limit),
                    now as int,
                    response.members@,
                ),
                Ok(_) => false,
                Err(e) => exists|items: Seq<MemberListResponseItem>, id: Seq<char>| #[trigger]
                    page_fails(
                        ledger@,
                        id_of(start_after),
                        page_size(limit),
                        now as int,
                        e,
                        items,
                        id,
                    ),
            },
        },
{
    match msg {
        QueryMsg::Config {  } => Ok(QueryResponse::Config(query_config(ledger))),
        QueryMsg::Claims { address } => Ok(
            QueryResponse::Claims(ClaimsResponse { claims: ledger.claims(&address) }),
        ),
        QueryMsg::Staked { address } => Ok(
            QueryResponse::Staked(
                StakedResponse {
                    stake: ledger.staked(&address).amount,
                    denom: ledger.config().staking_token.clone(),
                },
            ),
        ),
        QueryMsg::Reward { address } => {
            let reward = match ledger.earned(&address, now) {
                Ok(reward) => reward,
                Err(e) => { return Err(e); },
            };
            match reward.checked_sub(ledger.withdrawn(&address)) {
                Some(amount) => Ok(QueryResponse::Reward(RewardResponse { reward: amount })),
                None => Err(ContractError::Underflow),
            }
        },
        QueryMsg::Total {  } => Ok(
            QueryResponse::Total(TotalResponse { total: ledger.total().amount }),
        ),
        QueryMsg::Member { address } => match query_member(ledger, now, &address) {
            Ok(response) => Ok(QueryResponse::Member(response)),
            Err(e) => Err(e),
        },
        QueryMsg::Withdrawn { address } => Ok(
            QueryResponse::Withdrawn(WithdrawnResponse { withdrawn: ledger.withdrawn(&address) }),
        ),
        QueryMsg::ListMembers { start_after, limit } => match query_member_list(
            ledger,
            now,
            start_after,
            limit,
        ) {
            Ok(response) => Ok(QueryResponse::Members(response)),
            Err(e) => Err(e),
        },
    }
}

} // verus!
