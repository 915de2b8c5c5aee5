//! The queries that the platform registry answers.

use vstd::prelude::*;

verus! {

#[derive(Debug)]
pub enum PlatformRegistryQueryMsg {
    /// Whether the address belongs to a registered user.
    IsRegistered { address: String },
    /// What the registry knows of the address.
    AddressBaseInfo { address: String },
}

#[derive(Clone, Copy, Debug, PartialEq, Eq, Structural)]
pub struct IsRegisteredResponse {
    pub is_registered: bool,
}

#[derive(Clone, Copy, Debug, PartialEq, Eq, Structural)]
pub struct AddressBaseInfoResponse {
    pub is_registered: bool,
    pub is_property_shareholder: bool,
}

} // verus!
