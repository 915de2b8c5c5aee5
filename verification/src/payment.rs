//! Coins sent along with a message, and the fee some messages must carry.

use vstd::prelude::*;
use crate::error::{ContractError, PaymentError};

verus! {

/// An amount of a native denomination.
#[derive(Debug)]
pub struct Coin {
    pub denom: String,
    pub amount: u128,
}

/// Who sent a message and what funds came with it.
#[derive(Debug)]
pub struct MessageInfo {
    pub sender: String,
    pub funds: Vec<Coin>,
}

/// Whether the funds are a single coin of `denom` with an amount above zero.
pub open spec fn pays_in(funds: Seq<Coin>, denom: Seq<char>) -> bool {
    funds.len() == 1 && funds[0].amount != 0 && funds[0].denom@ == denom
}

/// Whether `e` is the reason why the funds are no payment in `denom`.
pub open spec fn payment_refused(funds: Seq<Coin>, denom: Seq<char>, e: PaymentError) -> bool {
    if funds.len() == 0 {
        e is NoFunds
    } else if funds.len() > 1 {
        e is MultipleDenoms
    } else if funds[0].amount == 0 {
        e is NoFunds
    } else {
        funds[0].denom@ != denom && e is MissingDenom && e->MissingDenom_0@ == denom
    }
}

/// Whether `r` is the result of asking for a fee of exactly `fee` in
/// `denom`.
pub open spec fn fee_checked(
    funds: Seq<Coin>,
    denom: Seq<char>,
    fee: u128,
    r: Result<(), ContractError>,
) -> bool {
    if !pays_in(funds, denom) {
        r is Err && r->Err_0 is Payment && payment_refused(funds, denom, r->Err_0->Payment_0)
    } else if funds[0].amount != fee {
        r is Err && r->Err_0 is InvalidFeeAmount
    } else {
        r is Ok
    }
}

/// Calls `cw0::must_pay` on the funds. That function accepts exactly one
/// coin, of the denomination asked for and with an amount above zero, and
/// returns its amount; it reports no coin or an empty one as `NoFunds`, two
/// or more coins as `MultipleDenoms`, and a single coin of another
/// denomination as `MissingDenom` with the denomination asked for.
#[verifier::external_body]
pub(crate) fn must_pay(funds: &Vec<Coin>, denom: &str) -> (r: Result<u128, PaymentError>)
    ensures
        match r {
            Ok(amount) => pays_in(funds@, denom@) && amount == funds@[0].amount,
            Err(e) => !pays_in(funds@, denom@) && payment_refused(funds@, denom@, e),
        },
{
    let funds = funds.iter().map(|c| cosmwasm_std::coin(c.amount, c.denom.clone())).collect();
    let info = cosmwasm_std::MessageInfo { sender: cosmwasm_std::Addr::unchecked(""), funds };
    match cw0::must_pay(&info, denom) {
        Ok(amount) => Ok(amount.u128()),
        Err(cw0::PaymentError::MissingDenom(d)) => Err(PaymentError::MissingDenom(d)),
        Err(cw0::PaymentError::ExtraDenom(d)) => Err(PaymentError::ExtraDenom(d)),
        Err(cw0::PaymentError::MultipleDenoms {}) => Err(PaymentError::MultipleDenoms),
        Err(cw0::PaymentError::NoFunds {}) => Err(PaymentError::NoFunds),
        Err(cw0::PaymentError::NonPayable {}) => Err(PaymentError::NonPayable),
    }
}

/// Checks that the funds are a single coin of `denom` whose amount is
/// exactly `fee`. Funds that are no payment in `denom` are refused with the
/// payment error; a payment of another amount with `InvalidFeeAmount`.
pub fn must_pay_exactly(funds: &Vec<Coin>, denom: &str, fee: u128) -> (r: Result<
    (),
    ContractError,
>)
    ensures
        fee_checked(funds@, denom@, fee, r),
{
    let amount = match must_pay(funds, denom) {
        Ok(amount) => amount,
        Err(e) => { return Err(ContractError::Payment(e)); },
    };
    if amount != fee {
        return Err(ContractError::InvalidFeeAmount);
    }
    Ok(())
}

} // verus!
