//! The errors that abort an operation.

use vstd::prelude::*;

verus! {

/// Why an operation was rejected. A rejected operation leaves every value it
/// was given unchanged.
#[derive(Debug)]
pub enum ContractError {
    /// An addition or multiplication left the range of its integer type.
    Overflow,
    /// A subtraction would have gone below zero.
    Underflow,
    /// No claim can be released at the given time.
    NothingToClaim,
    /// The reward earned so far has already been paid out.
    NothingToWithdraw,
    /// The bonded asset is not the configured staking token; holds its address.
    InvalidToken(String),
    /// The bonded asset is not a token of a contract.
    MissedToken,
    /// A bond was attempted outside the distribution window.
    StakingClosed,
    /// An administrative action was attempted by someone other than the owner.
    Unauthorized,
    /// The fee sent along with a message is not the required amount.
    InvalidFeeAmount,
    /// The funds sent along with a message are not a single coin of the required denomination.
    Payment(PaymentError),
    /// The sender is not registered as a member.
    MemberNotFound,
    /// A transfer of nothing was asked for.
    InvalidZeroAmount,
    /// A logo said to be SVG does not begin with an XML preamble.
    InvalidXmlPreamble,
    /// A logo said to be PNG does not begin with the PNG header.
    InvalidPngHeader,
    /// A logo is larger than the size allowed.
    LogoTooBig,
    /// The contract stored is another one than the one to migrate to; holds
    /// the name stored.
    PreviousContract(String),
}

/// Why the funds sent along with a message were not accepted as payment.
#[derive(Debug)]
pub enum PaymentError {
    /// The single coin sent is not of the required denomination, which it holds.
    MissingDenom(String),
    /// A coin of another denomination was sent; holds that denomination.
    ExtraDenom(String),
    /// More than one coin was sent.
    MultipleDenoms,
    /// No coin, or a coin of amount zero, was sent.
    NoFunds,
    /// Funds were sent with a message that accepts none.
    NonPayable,
}

} // verus!
