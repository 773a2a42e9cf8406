//! The custody account: one per member. It gates the member's economic
//! actions on the owner's signature, relays them to the membership and
//! distribution components, and hands whatever comes back to the owner at once.
use vstd::prelude::*;

use crate::error::ContractError;
use crate::payment::{is_payment_refusal, must_pay, pays_exactly, Coin, ATOM, VOTE_DENOM};

verus! {

/// Tag of the reply to a relayed proposal.
pub const PROPOSE_MEMBER_REPLY_ID: u64 = 1;

/// Tag of the reply to a relayed withdrawal.
pub const WITHDRAW_REPLY_ID: u64 = 2;

/// Tag of the reply to a relayed purchase of vote tokens.
pub const BUY_VOTE_TOKENS_REPLY_ID: u64 = 3;

/// What a custody account is created with.
#[derive(Debug, Clone)]
pub struct InstantiateMsg {
    pub owner: String,
    pub distribution_contract: String,
    pub membership_contract: String,
}

/// The state of a custody account.
#[derive(Debug, Clone)]
pub struct Custody {
    pub owner: String,
    pub distribution_contract: String,
    pub membership_contract: String,
}

/// The owner's requests.
#[derive(Debug, Clone, PartialEq, Eq)]
pub enum ExecMsg {
    ProposeMember { addr: String },
    BuyVoteTokens,
    Withdraw,
}

/// What a custody account can be asked.
#[derive(Debug, Clone, Copy, PartialEq, Eq)]
pub enum QueryMsg {
    /// What the distribution component holds for this account.
    Withdrawable,
}

/// The call that a request is relayed as, tagged for its reply.
#[derive(Debug, Clone, PartialEq, Eq)]
pub enum Relay {
    /// Propose `addr` to the membership component, with the vote tokens sent.
    ProposeMember { membership: String, addr: String, vote_tokens: u128, reply_id: u64 },
    /// Withdraw from the distribution component.
    Withdraw { distribution: String, reply_id: u64 },
    /// Buy vote tokens from the distribution component.
    BuyVoteTokens { distribution: String, reply_id: u64 },
}

/// A reply that a custody account resumes on.
#[derive(Debug, Clone, Copy, PartialEq, Eq)]
pub enum ReplyKind {
    ProposeMember,
    Withdraw,
    BuyVoteTokens,
}

impl Custody {
    /// Creates the account for `msg.owner`; the vote tokens it was funded with,
    /// `vote_balance`, go on to the owner.
    pub fn instantiate(msg: InstantiateMsg, vote_balance: u128) -> (r: (Custody, Coin))
        ensures
            r.0.owner == msg.owner,
            r.0.distribution_contract == msg.distribution_contract,
            r.0.membership_contract == msg.membership_contract,
            r.1.denom@ == VOTE_DENOM@,
            r.1.amount == vote_balance,
    {
        let c = Custody {
            owner: msg.owner,
            distribution_contract: msg.distribution_contract,
            membership_contract: msg.membership_contract,
        };
        (c, Coin { denom: VOTE_DENOM.to_owned(), amount: vote_balance })
    }

    /// Relays the owner's request; refused to anyone else, and a proposal must
    /// carry vote tokens.
    pub fn execute(&self, sender: &String, funds: &Vec<Coin>, msg: &ExecMsg) -> (r: Result<
        Relay,
        ContractError,
    >)
        ensures
            match *msg {
                ExecMsg::ProposeMember { addr } => {
                    &&& (!pays_exactly(funds@, VOTE_DENOM@) <==> r matches Err(
                        ContractError::Payment(_),
                    ))
                    &&& (r matches Err(ContractError::Payment(e)) ==> is_payment_refusal(
                        funds@,
                        VOTE_DENOM@,
                        e,
                    ))
                    &&& (pays_exactly(funds@, VOTE_DENOM@) && sender@ != self.owner@) <==> r
                        == Err::<Relay, _>(ContractError::Unauthorized)
                    &&& r is Err ==> r->Err_0 is Payment || r->Err_0 == ContractError::Unauthorized
                    &&& r is Ok ==> r == Ok::<_, ContractError>(
                        Relay::ProposeMember {
                            membership: self.membership_contract,
                            addr,
                            vote_tokens: funds@[0].amount,
                            reply_id: PROPOSE_MEMBER_REPLY_ID,
                        },
                    )
                },
                ExecMsg::BuyVoteTokens => {
                    &&& sender@ != self.owner@ <==> r is Err
                    &&& r is Err ==> r == Err::<Relay, _>(ContractError::Unauthorized)
                    &&& r is Ok ==> r == Ok::<_, ContractError>(
                        Relay::BuyVoteTokens {
                            distribution: self.distribution_contract,
                            reply_id: BUY_VOTE_TOKENS_REPLY_ID,
                        },
                    )
                },
                ExecMsg::Withdraw => {
                    &&& sender@ != self.owner@ <==> r is Err
                    &&& r is Err ==> r == Err::<Relay, _>(ContractError::Unauthorized)
                    &&& r is Ok ==> r == Ok::<_, ContractError>(
                        Relay::Withdraw {
                            distribution: self.distribution_contract,
                            reply_id: WITHDRAW_REPLY_ID,
                        },
                    )
                },
            },
    {
        match msg {
            ExecMsg::ProposeMember { addr } => self.propose_member(sender, funds, addr),
            ExecMsg::BuyVoteTokens => self.buy_vote_tokens(sender),
            ExecMsg::Withdraw => self.withdraw(sender),
        }
    }

    /// Relays a proposal of `addr`, with the vote tokens sent, to the membership
    /// component.
    pub fn propose_member(&self, sender: &String, funds: &Vec<Coin>, addr: &String) -> (r: Result<
        Relay,
        ContractError,
    >)
        ensures
            !pays_exactly(funds@, VOTE_DENOM@) <==> r matches Err(ContractError::Payment(_)),
            r matches Err(ContractError::Payment(e)) ==> is_payment_refusal(funds@, VOTE_DENOM@, e),
            (pays_exactly(funds@, VOTE_DENOM@) && sender@ != self.owner@) <==> r == Err::<Relay, _>(
                ContractError::Unauthorized,
            ),
            r is Err ==> r->Err_0 is Payment || r->Err_0 == ContractError::Unauthorized,
            r is Ok ==> r == Ok::<_, ContractError>(
                Relay::ProposeMember {
                    membership: self.membership_contract,
                    addr: *addr,
                    vote_tokens: funds@[0].amount,
                    reply_id: PROPOSE_MEMBER_REPLY_ID,
                },
            ),
    {
        let vote_tokens = match must_pay(funds, VOTE_DENOM) {
            Ok(a) => a,
            Err(e) => {
                return Err(ContractError::Payment(e));
            },
        };
        if *sender != self.owner {
            return Err(ContractError::Unauthorized);
        }
        Ok(
            Relay::ProposeMember {
                membership: self.membership_contract.clone(),
                addr: addr.clone(),
                vote_tokens,
                reply_id: PROPOSE_MEMBER_REPLY_ID,
            },
        )
    }

    /// Relays a withdrawal to the distribution component.
    pub fn withdraw(&self, sender: &String) -> (r: Result<Relay, ContractError>)
        ensures
            sender@ != self.owner@ <==> r is Err,
            r is Err ==> r == Err::<Relay, _>(ContractError::Unauthorized),
            r is Ok ==> r == Ok::<_, ContractError>(
                Relay::Withdraw {
                    distribution: self.distribution_contract,
                    reply_id: WITHDRAW_REPLY_ID,
                },
            ),
    {
        if *sender != self.owner {
            return Err(ContractError::Unauthorized);
        }
        Ok(
            Relay::Withdraw {
                distribution: self.distribution_contract.clone(),
                reply_id: WITHDRAW_REPLY_ID,
            },
        )
    }

    /// Relays a purchase of vote tokens to the distribution component.
    pub fn buy_vote_tokens(&self, sender: &String) -> (r: Result<Relay, ContractError>)
        ensures
            sender@ != self.owner@ <==> r is Err,
            r is Err ==> r == Err::<Relay, _>(ContractError::Unauthorized),
            r is Ok ==> r == Ok::<_, ContractError>(
                Relay::BuyVoteTokens {
                    distribution: self.distribution_contract,
                    reply_id: BUY_VOTE_TOKENS_REPLY_ID,
                },
            ),
    {
        if *sender != self.owner {
            return Err(ContractError::Unauthorized);
        }
        Ok(
            Relay::BuyVoteTokens {
                distribution: self.distribution_contract.clone(),
                reply_id: BUY_VOTE_TOKENS_REPLY_ID,
            },
        )
    }

    /// What goes on to the owner once a relayed call has returned funds: the
    /// whole `balance` of the relevant denomination (settlement currency after a
    /// withdrawal, vote tokens after a purchase); nothing where it is zero or
    /// where the reply relays nothing.
    pub fn forward_to_owner(&self, kind: ReplyKind, balance: u128) -> (r: Option<Coin>)
        ensures
            (kind == ReplyKind::ProposeMember || balance == 0) <==> r is None,
            r matches Some(c) ==> c.amount == balance && (kind == ReplyKind::Withdraw ==> c.denom@
                == ATOM@) && (kind == ReplyKind::BuyVoteTokens ==> c.denom@ == VOTE_DENOM@),
    {
        if balance == 0 {
            return None;
        }
        match kind {
            ReplyKind::ProposeMember => None,
            ReplyKind::Withdraw => Some(Coin { denom: ATOM.to_owned(), amount: balance }),
            ReplyKind::BuyVoteTokens => Some(Coin { denom: VOTE_DENOM.to_owned(), amount: balance }),
        }
    }
}

/// The continuation that the reply tagged `id` resumes.
pub fn reply_kind(id: u64) -> (r: Result<ReplyKind, ContractError>)
    ensures
        id == PROPOSE_MEMBER_REPLY_ID ==> r == Ok::<_, ContractError>(ReplyKind::ProposeMember),
        id == WITHDRAW_REPLY_ID ==> r == Ok::<_, ContractError>(ReplyKind::Withdraw),
        id == BUY_VOTE_TOKENS_REPLY_ID ==> r == Ok::<_, ContractError>(ReplyKind::BuyVoteTokens),
        (id != PROPOSE_MEMBER_REPLY_ID && id != WITHDRAW_REPLY_ID && id != BUY_VOTE_TOKENS_REPLY_ID)
            ==> r == Err::<ReplyKind, _>(ContractError::UnrecognizedReplyId(id)),
{
    if id == PROPOSE_MEMBER_REPLY_ID {
        Ok(ReplyKind::ProposeMember)
    } else if id == WITHDRAW_REPLY_ID {
        Ok(ReplyKind::Withdraw)
    } else if id == BUY_VOTE_TOKENS_REPLY_ID {
        Ok(ReplyKind::BuyVoteTokens)
    } else {
        Err(ContractError::UnrecognizedReplyId(id))
    }
}

} // verus!
