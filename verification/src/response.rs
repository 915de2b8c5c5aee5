//! The transfers that an operation asks the chain to carry out.

use vstd::prelude::*;

verus! {

/// A transfer the contract asks for. It is carried out by the chain after
/// the operation has been stored, never by the contract itself.
#[derive(Debug)]
pub enum Payout {
    /// `amount` of `token` to `recipient`.
    Token { token: String, recipient: String, amount: u128 },
    /// `amount` of the native `denom` to `recipient`.
    Native { denom: String, recipient: String, amount: u128 },
    /// Whatever the contract holds of the native `denom` to `recipient`.
    AllNative { denom: String, recipient: String },
    /// Whatever the contract holds of `token` to `recipient`.
    AllOfToken { token: String, recipient: String },
}

/// The transfers that an operation asks for.
#[derive(Debug)]
pub struct Response {
    pub payouts: Vec<Payout>,
}

/// Whether `payouts` is the single transfer of `amount` of `token` to
/// `recipient`.
pub open spec fn pays_one(
    payouts: Seq<Payout>,
    token: String,
    recipient: String,
    amount: u128,
) -> bool {
    payouts == seq![Payout::Token { token, recipient, amount }]
}

/// The request for the single transfer of `amount` of `token` to
/// `recipient`.
pub fn pay_one(token: String, recipient: String, amount: u128) -> (r: Response)
    ensures
        pays_one(r.payouts@, token, recipient, amount),
{
    let mut payouts: Vec<Payout> = Vec::new();
    payouts.push(Payout::Token { token, recipient, amount });
    assert(payouts@ =~= seq![Payout::Token { token, recipient, amount }]);
    Response { payouts }
}

} // verus!
