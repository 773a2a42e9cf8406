//! Messages and answers that the components exchange.
use vstd::prelude::*;

use crate::payment::Coin;

verus! {

/// Whether an address is a member's custody account.
#[derive(Debug, Clone, Copy, PartialEq, Eq)]
pub struct IsMemberResp {
    pub ok: bool,
}

/// Whether an address has an active proposal.
#[derive(Debug, Clone, Copy, PartialEq, Eq)]
pub struct IsProposedMemberResp {
    pub ok: bool,
}

/// A member's owner address and custody account.
#[derive(Debug, Clone, PartialEq, Eq)]
pub struct OwnerProxyResp {
    pub owner: String,
    pub proxy: String,
}

/// A candidate and the proposal opened for it.
#[derive(Debug, Clone, PartialEq, Eq)]
pub struct ProposalMemberData {
    pub owner_addr: String,
    pub proposal_addr: String,
}

/// A member's owner address and custody account.
#[derive(Debug, Clone, PartialEq, Eq)]
pub struct ProxyMemberData {
    pub owner_addr: String,
    pub proxy_addr: String,
}

/// The roster that genesis returns once every founder's custody account exists.
#[derive(Debug, Clone, PartialEq, Eq)]
pub struct InstantiationData {
    pub members: Vec<ProxyMemberData>,
}

/// What a custody account could withdraw; `None` where nothing.
#[derive(Debug, Clone, PartialEq, Eq)]
pub struct WithdrawableResp {
    pub funds: Option<Coin>,
}

} // verus!
