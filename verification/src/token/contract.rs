//! The rules of the token contract: the fee on swaps, transfers between
//! balances and who may change the settings.

use vstd::prelude::*;
use crate::error::ContractError;
use crate::math::{Decimal, mul_decimal, times};
use crate::payment::{Coin, MessageInfo};
use crate::response::{Payout, Response};
use crate::token::querier::{deduct_tax, tax_of};
use crate::token::state::{Config, SwapFeeConfig, SwapFeeConfigResponse};

verus! {

/// Whether the bytes are the JSON text of a swap message of a terraswap
/// pair, as `from_binary` of cosmwasm_std reads it.
pub uninterp spec fn parses_as_swap(msg: Seq<u8>) -> bool;

/// The longest message, in bytes, that is read as a hook message.
pub const MAX_HOOK_MSG_LEN: usize = 4096;

/// Whether the message has to be read to tell the fee, and can be: where
/// no swap fee is taken no message is read, else the message must not be
/// longer than `MAX_HOOK_MSG_LEN`.
pub open spec fn readable(msg: Seq<u8>, cfg: Option<SwapFeeConfig>) -> bool {
    cfg matches Some(cfg) && cfg.enable_swap_fee ==> msg.len() <= MAX_HOOK_MSG_LEN
}

/// How a send is split: `fee` goes to the fee receiver and `send` on to the
/// contract addressed.
#[derive(Clone, Copy, Debug, PartialEq, Eq, Structural)]
pub struct SendAmounts {
    pub fee: u128,
    pub send: u128,
}

/// The fee on sending `amount`: the configured percentage of it, rounded
/// down twice, where the fee is enabled and the send is a swap; else none.
pub open spec fn fee_amount(amount: u128, is_swap: bool, cfg: SwapFeeConfig) -> Result<
    u128,
    ContractError,
> {
    if cfg.enable_swap_fee && is_swap {
        if times(amount, cfg.swap_percent_fee) > u128::MAX {
            Err(ContractError::Overflow)
        } else {
            Ok((times(amount, cfg.swap_percent_fee) / 100) as u128)
        }
    } else {
        Ok(0)
    }
}

/// How a send of `amount` is split under `cfg`.
pub open spec fn send_amounts(amount: u128, is_swap: bool, cfg: Option<SwapFeeConfig>) -> Result<
    SendAmounts,
    ContractError,
> {
    match cfg {
        None => Ok(SendAmounts { fee: 0, send: amount }),
        Some(cfg) => match fee_amount(amount, is_swap, cfg) {
            Err(e) => Err(e),
            Ok(fee) => if fee > amount {
                Err(ContractError::Underflow)
            } else {
                Ok(SendAmounts { fee, send: (amount - fee) as u128 })
            },
        },
    }
}

/// The balances of sender and recipient after a transfer of `amount`.
pub open spec fn transferred(sender: u128, recipient: u128, amount: u128) -> Result<
    (u128, u128),
    ContractError,
> {
    if amount == 0 {
        Err(ContractError::InvalidZeroAmount)
    } else if amount > sender {
        Err(ContractError::Underflow)
    } else if recipient + amount > u128::MAX {
        Err(ContractError::Overflow)
    } else {
        Ok(((sender - amount) as u128, (recipient + amount) as u128))
    }
}

/// Reads `msg` with `from_binary` of cosmwasm_std as a hook message of a
/// terraswap pair and tells whether it is a swap. What the parser accepts
/// is not stated here: the result is named `parses_as_swap`. The parser
/// passes over fields it does not know by calling itself once for every
/// level that they are nested, so how deep it goes is bounded only by the
/// length of the message: longer messages than `MAX_HOOK_MSG_LEN` are left
/// out.
#[verifier::external_body]
pub(crate) fn is_swap_message(msg: &Vec<u8>) -> (r: bool)
    requires
        msg@.len() <= MAX_HOOK_MSG_LEN,
    ensures
        r == parses_as_swap(msg@),
{
    let binary = cosmwasm_std::Binary::from(msg.as_slice());
    match cosmwasm_std::from_binary::<terraswap::pair::Cw20HookMsg>(&binary) {
        Ok(terraswap::pair::Cw20HookMsg::Swap { .. }) => true,
        _ => false,
    }
}

/// The fee on sending `amount`, given whether the send is a swap.
pub fn swap_fee(amount: u128, is_swap: bool, swap_fee_config: &SwapFeeConfig) -> (r: Result<
    u128,
    ContractError,
>)
    ensures
        r == fee_amount(amount, is_swap, *swap_fee_config),
{
    if swap_fee_config.enable_swap_fee && is_swap {
        match mul_decimal(amount, swap_fee_config.swap_percent_fee) {
            Some(product) => Ok(product / 100),
            None => Err(ContractError::Overflow),
        }
    } else {
        Ok(0)
    }
}

/// The fee on sending `amount` with the message `msg`: the configured
/// percentage where the fee is enabled and the message is a swap. Where the
/// fee is enabled the message is read, and must not be longer than
/// `MAX_HOOK_MSG_LEN`.
pub fn calculate_fee_amount(amount: u128, msg: &Vec<u8>, swap_fee_config: &SwapFeeConfig) -> (r:
    Result<u128, ContractError>)
    requires
        readable(msg@, Some(*swap_fee_config)),
    ensures
        r == fee_amount(amount, parses_as_swap(msg@), *swap_fee_config),
{
    if swap_fee_config.enable_swap_fee {
        swap_fee(amount, is_swap_message(msg), swap_fee_config)
    } else {
        Ok(0)
    }
}

/// How a send is split once the fee is known: a fee of zero leaves the
/// whole amount to be sent; a fee above the amount fails with `Underflow`.
pub fn split_send(amount: u128, fee: u128) -> (r: Result<SendAmounts, ContractError>)
    ensures
        fee > amount ==> r is Err && r->Err_0 is Underflow,
        fee <= amount ==> r == Ok::<SendAmounts, ContractError>(
            SendAmounts { fee, send: (amount - fee) as u128 },
        ),
{
    match amount.checked_sub(fee) {
        Some(send) => Ok(SendAmounts { fee, send }),
        None => Err(ContractError::Underflow),
    }
}

/// How a send of `amount` with the message `msg` is split: where a swap fee
/// is configured and due, the fee goes to the fee receiver and the rest is
/// sent on; else the whole amount is sent on. Where a swap fee is enabled
/// the message is read, and must not be longer than `MAX_HOOK_MSG_LEN`.
pub fn execute_send(amount: u128, msg: &Vec<u8>, fee_config: Option<&SwapFeeConfig>) -> (r: Result<
    SendAmounts,
    ContractError,
>)
    requires
        readable(msg@, match fee_config {
            Some(cfg) => Some(*cfg),
            None => None,
        }),
    ensures
        r == send_amounts(amount, parses_as_swap(msg@), match fee_config {
            Some(cfg) => Some(*cfg),
            None => None,
        }),
{
    match fee_config {
        Some(cfg) => {
            let fee = match calculate_fee_amount(amount, msg, cfg) {
                Ok(fee) => fee,
                Err(e) => { return Err(e); },
            };
            split_send(amount, fee)
        },
        None => Ok(SendAmounts { fee: 0, send: amount }),
    }
}

/// How a send of `amount` on behalf of an owner is split: as a send by the
/// owner itself is, with the fee taken from the owner's balance.
pub fn execute_send_from(amount: u128, msg: &Vec<u8>, fee_config: Option<&SwapFeeConfig>) -> (r:
    Result<SendAmounts, ContractError>)
    requires
        readable(msg@, match fee_config {
            Some(cfg) => Some(*cfg),
            None => None,
        }),
    ensures
        r == send_amounts(amount, parses_as_swap(msg@), match fee_config {
            Some(cfg) => Some(*cfg),
            None => None,
        }),
{
    execute_send(amount, msg, fee_config)
}

/// Moves `amount` from the balance of the sender to that of a recipient
/// other than the sender, and returns both balances. Fails with
/// `InvalidZeroAmount` for nothing, with `Underflow` where the sender holds
/// less, and with `Overflow` where the recipient's balance would leave
/// `u128`.
pub fn transfer(sender_balance: u128, recipient_balance: u128, amount: u128) -> (r: Result<
    (u128, u128),
    ContractError,
>)
    ensures
        r == transferred(sender_balance, recipient_balance, amount),
{
    if amount == 0 {
        return Err(ContractError::InvalidZeroAmount);
    }
    let sender_balance = match sender_balance.checked_sub(amount) {
        Some(balance) => balance,
        None => { return Err(ContractError::Underflow); },
    };
    let recipient_balance = match recipient_balance.checked_add(amount) {
        Some(balance) => balance,
        None => { return Err(ContractError::Overflow); },
    };
    Ok((sender_balance, recipient_balance))
}

/// Replaces the owner on behalf of the owner; anyone else is refused as
/// `Unauthorized` and changes nothing.
pub fn execute_update_config(cfg: &mut Config, info: &MessageInfo, new_owner: Option<String>) -> (r:
    Result<(), ContractError>)
    ensures
        info.sender@ != old(cfg).owner@ ==> r is Err && r->Err_0 is Unauthorized && *final(cfg)
            == *old(cfg),
        info.sender@ == old(cfg).owner@ ==> r is Ok && final(cfg).owner == match new_owner {
            Some(owner) => owner,
            None => old(cfg).owner,
        },
{
    if info.sender != cfg.owner {
        return Err(ContractError::Unauthorized);
    }
    if let Some(owner) = new_owner {
        cfg.owner = owner;
    }
    Ok(())
}

/// Asks, on behalf of the owner, for the transfer of `amount` of `denom`
/// to `recipient`, less the tax that the chain takes at the given rate and
/// cap; anyone else is refused as `Unauthorized`.
pub fn execute_withdraw_locked_funds(
    cfg: &Config,
    info: &MessageInfo,
    denom: String,
    amount: u128,
    recipient: String,
    tax_rate: Decimal,
    tax_cap: u128,
) -> (r: Result<Response, ContractError>)
    ensures
        info.sender@ != cfg.owner@ ==> r is Err && r->Err_0 is Unauthorized,
        info.sender@ == cfg.owner@ ==> match tax_of(Coin { denom, amount }, tax_rate, tax_cap) {
            Ok(tax) => r is Ok && r->Ok_0.payouts@ == seq![
                Payout::Native { denom, recipient, amount: (amount - tax) as u128 },
            ],
            Err(e) => r == Err::<Response, ContractError>(e),
        },
{
    if info.sender != cfg.owner {
        return Err(ContractError::Unauthorized);
    }
    let coin = match deduct_tax(Coin { denom, amount }, tax_rate, tax_cap) {
        Ok(coin) => coin,
        Err(e) => { return Err(e); },
    };
    let mut payouts: Vec<Payout> = Vec::new();
    payouts.push(Payout::Native { denom: coin.denom, recipient, amount: coin.amount });
    assert(payouts@ =~= seq![
        Payout::Native { denom, recipient, amount: (amount - tax_of(
            Coin { denom, amount },
            tax_rate,
            tax_cap,
        )->Ok_0) as u128 },
    ]);
    Ok(Response { payouts })
}

/// Replaces, on behalf of the fee admin, the settings of the swap fee that
/// the message names. Where no swap fee is configured, or the sender is not
/// its admin, the sender is refused as `Unauthorized`.
pub fn update_swap_fee_config(
    stored: Option<SwapFeeConfig>,
    info: &MessageInfo,
    fee_admin: Option<String>,
    enable_swap_fee: Option<bool>,
    swap_percent_fee: Option<Decimal>,
    fee_receiver: Option<String>,
) -> (r: Result<SwapFeeConfig, ContractError>)
    ensures
        match stored {
            None => r is Err && r->Err_0 is Unauthorized,
            Some(cfg) => if cfg.fee_admin@ != info.sender@ {
                r is Err && r->Err_0 is Unauthorized
            } else {
                r == Ok::<SwapFeeConfig, ContractError>(
                    SwapFeeConfig {
                        fee_admin: match fee_admin {
                            Some(admin) => admin,
                            None => cfg.fee_admin,
                        },
                        enable_swap_fee: match enable_swap_fee {
                            Some(enable) => enable,
                            None => cfg.enable_swap_fee,
                        },
                        swap_percent_fee: match swap_percent_fee {
                            Some(fee) => fee,
                            None => cfg.swap_percent_fee,
                        },
                        fee_receiver: match fee_receiver {
                            Some(receiver) => receiver,
                            None => cfg.fee_receiver,
                        },
                    },
                )
            },
        },
{
    let mut swap_fee_config = match stored {
        Some(cfg) => cfg,
        None => { return Err(ContractError::Unauthorized); },
    };
    if swap_fee_config.fee_admin != info.sender {
        return Err(ContractError::Unauthorized);
    }
    if let Some(fee_admin) = fee_admin {
        swap_fee_config.fee_admin = fee_admin;
    }
    if let Some(enable_swap_fee) = enable_swap_fee {
        swap_fee_config.enable_swap_fee = enable_swap_fee;
    }
    if let Some(swap_percent_fee) = swap_percent_fee {
        swap_fee_config.swap_percent_fee = swap_percent_fee;
    }
    if let Some(fee_receiver) = fee_receiver {
        swap_fee_config.fee_receiver = fee_receiver;
    }
    Ok(swap_fee_config)
}

/// The settings of the swap fee; where none is configured, empty
/// addresses, no fee, and the fee disabled.
pub fn query_swap_fee_config(stored: Option<SwapFeeConfig>) -> (r: SwapFeeConfigResponse)
    ensures
        match stored {
            Some(cfg) => r.fee_admin == cfg.fee_admin && r.enable_swap_fee
                == cfg.enable_swap_fee && r.swap_percent_fee == cfg.swap_percent_fee
                && r.fee_receiver == cfg.fee_receiver,
            None => r.fee_admin@.len() == 0 && !r.enable_swap_fee && r.swap_percent_fee.atomics
                == 0 && r.fee_receiver@.len() == 0,
        },
{
    match stored {
        Some(swap_fee_config) => SwapFeeConfigResponse {
            fee_admin: swap_fee_config.fee_admin,
            enable_swap_fee: swap_fee_config.enable_swap_fee,
            swap_percent_fee: swap_fee_config.swap_percent_fee,
            fee_receiver: swap_fee_config.fee_receiver,
        },
        None => SwapFeeConfigResponse {
            fee_admin: String::new(),
            enable_swap_fee: false,
            swap_percent_fee: Decimal { atomics: 0 },
            fee_receiver: String::new(),
        },
    }
}

/// Lets a migration pass where the contract stored is this one, and
/// refuses any other as `PreviousContract` with the name stored.
pub fn migrate(stored_contract: &String) -> (r: Result<(), ContractError>)
    ensures
        stored_contract@ == "crates.io:tland-token"@ ==> r is Ok,
        stored_contract@ != "crates.io:tland-token"@ ==> r == Err::<(), ContractError>(
            ContractError::PreviousContract(*stored_contract),
        ),
{
    if *stored_contract != "crates.io:tland-token".to_owned() {
        return Err(ContractError::PreviousContract(stored_contract.clone()));
    }
    Ok(())
}

} // verus!
