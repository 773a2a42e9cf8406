//! A proposal: collects the vote tokens committed to one candidacy and gates
//! the exchange of the joining fee for membership.
use vstd::prelude::*;

use crate::error::{ContractError, PaymentError};
use crate::ledger::{weight_sum, voters_distinct};
use crate::payment::{is_payment_refusal, must_pay, pays_exactly, Coin, VOTE_DENOM};
use crate::table::{
    copy_table, find_key, keys_unique, lemma_lookup_push, lemma_lookup_update, lookup,
};

verus! {

/// What a proposal is created with; the membership component supplies it.
#[derive(Debug, Clone)]
pub struct InstantiateMsg {
    pub proposer: String,
    pub proposed_owner: String,
    pub distribution_contract: String,
    pub membership_contract: String,
    pub joining_fee: Coin,
}

/// The immutable parameters of a proposal.
#[derive(Debug, Clone)]
pub struct Config {
    pub distribution_contract: String,
    pub membership_contract: String,
    pub joining_fee: Coin,
}

/// The state of a proposal.
#[derive(Debug)]
pub struct Proposal {
    /// The candidate.
    pub owner: String,
    pub config: Config,
    pub is_passed: bool,
    /// Committed vote tokens, keyed by the voter's custody account.
    pub voter_tokens: Vec<(String, u128)>,
    /// All vote tokens committed so far.
    pub total_votes: u128,
}

/// Asks the membership component whether a proposal now has a majority.
#[derive(Debug, Clone, PartialEq, Eq)]
pub struct VoteNotice {
    pub voter: String,
    pub voter_proxy: String,
    /// The weight committed to the proposal after this vote.
    pub committed: u128,
}

/// What a successful join sets off: the vote tokens go to the membership
/// component, which opens the new member's custody account with them, and the
/// fee goes to the distribution component, to be split among the voters.
#[derive(Debug)]
pub struct JoinOrder {
    pub new_member_vote_tokens: u128,
    pub fee: Coin,
    pub voter_tokens: Vec<(String, u128)>,
}

/// The weight committed under key `a`.
pub open spec fn tally(s: Seq<(String, u128)>, a: Seq<char>) -> int {
    match lookup(s, a) {
        Some(v) => v as int,
        None => 0,
    }
}

proof fn lemma_tally_bound(s: Seq<(String, u128)>, a: Seq<char>)
    ensures
        0 <= tally(s, a) <= weight_sum(s),
    decreases s.len(),
{
    if s.len() > 0 {
        lemma_tally_bound(s.drop_last(), a);
    }
}

proof fn lemma_weight_sum_update(s: Seq<(String, u128)>, i: int, e: (String, u128))
    requires
        0 <= i < s.len(),
    ensures
        weight_sum(s.update(i, e)) == weight_sum(s) - s[i].1 + e.1,
    decreases s.len(),
{
    let u = s.update(i, e);
    if i < s.len() - 1 {
        assert(u.drop_last() =~= s.drop_last().update(i, e));
        lemma_weight_sum_update(s.drop_last(), i, e);
    } else {
        assert(u.drop_last() =~= s.drop_last());
    }
}

/// Adds `amount` to the weight committed under `a`.
fn add_weight(v: &mut Vec<(String, u128)>, a: &String, amount: u128)
    requires
        keys_unique(old(v)@),
        weight_sum(old(v)@) + amount <= u128::MAX,
    ensures
        keys_unique(final(v)@),
        lookup(final(v)@, a@) == Some((tally(old(v)@, a@) + amount) as u128),
        forall|b: Seq<char>| b != a@ ==> lookup(final(v)@, b) == lookup(old(v)@, b),
        weight_sum(final(v)@) == weight_sum(old(v)@) + amount,
{
    proof {
        lemma_tally_bound(v@, a@);
    }
    match find_key(v, a) {
        Some(i) => {
            let key = v[i].0.clone();
            let nv = v[i].1 + amount;
            proof {
                lemma_weight_sum_update(v@, i as int, (key, nv));
                assert forall|b: Seq<char>| b != a@ implies lookup(v@.update(i as int, (key, nv)), b)
                    == lookup(v@, b) by {
                    lemma_lookup_update(v@, i as int, nv, b);
                }
                lemma_lookup_update(v@, i as int, nv, a@);
            }
            v.set(i, (key, nv));
        },
        None => {
            let key = a.clone();
            proof {
                assert(v@.push((key, amount)).drop_last() =~= v@);
                assert forall|b: Seq<char>| true implies lookup(v@.push((key, amount)), b) == if a@
                    == b {
                    Some(amount)
                } else {
                    lookup(v@, b)
                } by {
                    lemma_lookup_push(v@, (key, amount), b);
                }
            }
            v.push((key, amount));
        },
    }
}

impl Proposal {
    /// Voters are keyed uniquely and the total is their sum.
    pub open spec fn wf(&self) -> bool {
        &&& keys_unique(self.voter_tokens@)
        &&& self.total_votes == weight_sum(self.voter_tokens@)
    }

    /// Opens a proposal for `proposed_owner`, funded with the proposer's vote
    /// tokens, which count as the proposer's first vote.
    pub fn instantiate(msg: InstantiateMsg, funds: &Vec<Coin>) -> (r: Result<Proposal, ContractError>)
        ensures
            pays_exactly(funds@, VOTE_DENOM@) <==> r is Ok,
            r matches Err(ContractError::Payment(e)) ==> is_payment_refusal(funds@, VOTE_DENOM@, e),
            r is Err ==> r->Err_0 is Payment,
            r is Ok ==> ({
                let p = r->Ok_0;
                &&& p.wf()
                &&& p.owner == msg.proposed_owner
                &&& !p.is_passed
                &&& p.config.distribution_contract == msg.distribution_contract
                &&& p.config.membership_contract == msg.membership_contract
                &&& p.config.joining_fee == msg.joining_fee
                &&& p.voter_tokens@ == seq![(msg.proposer, funds@[0].amount)]
                &&& p.total_votes == funds@[0].amount
            }),
    {
        let amount = match must_pay(funds, VOTE_DENOM) {
            Ok(a) => a,
            Err(e) => {
                return Err(ContractError::Payment(e));
            },
        };
        let mut voter_tokens: Vec<(String, u128)> = Vec::new();
        let ghost proposer = msg.proposer;
        voter_tokens.push((msg.proposer, amount));
        proof {
            assert(voter_tokens@ =~= seq![(proposer, amount)]);
            assert(voter_tokens@.drop_last() =~= Seq::<(String, u128)>::empty());
            assert(weight_sum(Seq::<(String, u128)>::empty()) == 0);
            assert(weight_sum(voter_tokens@) == amount);
        }
        Ok(Proposal {
            owner: msg.proposed_owner,
            config: Config {
                distribution_contract: msg.distribution_contract,
                membership_contract: msg.membership_contract,
                joining_fee: msg.joining_fee,
            },
            is_passed: false,
            voter_tokens,
            total_votes: amount,
        })
    }

    /// Marks the proposal passed; only the membership component may.
    pub fn pass(&mut self, sender: &String) -> (r: Result<(), ContractError>)
        ensures
            r is Ok <==> sender@ == old(self).config.membership_contract@,
            r is Err ==> r == Err::<(), _>(ContractError::Unauthorized) && *final(self) == *old(self),
            r is Ok ==> final(self).is_passed && final(self).owner == old(self).owner
                && final(self).config == old(self).config && final(self).voter_tokens
                == old(self).voter_tokens && final(self).total_votes == old(self).total_votes,
    {
        if *sender != self.config.membership_contract {
            return Err(ContractError::Unauthorized);
        }
        self.is_passed = true;
        Ok(())
    }

    /// Commits the attached vote tokens of `sender`, whose custody account is
    /// `voter_proxy`, to the proposal; a second vote adds to the first. Returns
    /// the notice for the membership component, with the weight now committed.
    pub fn vote(&mut self, sender: &String, voter_proxy: &String, funds: &Vec<Coin>) -> (r: Result<
        VoteNotice,
        ContractError,
    >)
        requires
            old(self).wf(),
        ensures
            final(self).wf(),
            r is Err ==> *final(self) == *old(self),
            r is Err ==> r->Err_0 is Payment || r->Err_0 == ContractError::VoteRejectedProposalWasPassedEarlier
                || r->Err_0 == ContractError::Overflow,
            pays_exactly(funds@, VOTE_DENOM@) <==> !(r matches Err(ContractError::Payment(_))),
            r matches Err(ContractError::Payment(e)) ==> is_payment_refusal(funds@, VOTE_DENOM@, e),
            r == Err::<VoteNotice, _>(ContractError::VoteRejectedProposalWasPassedEarlier) <==> (
            pays_exactly(funds@, VOTE_DENOM@) && old(self).is_passed),
            r == Err::<VoteNotice, _>(ContractError::Overflow) <==> (pays_exactly(funds@, VOTE_DENOM@)
                && !old(self).is_passed && old(self).total_votes + funds@[0].amount > u128::MAX),
            r is Ok ==> ({
                let amount = funds@[0].amount;
                &&& lookup(final(self).voter_tokens@, voter_proxy@) == Some(
                    (tally(old(self).voter_tokens@, voter_proxy@) + amount) as u128,
                )
                &&& forall|b: Seq<char>|
                    b != voter_proxy@ ==> lookup(final(self).voter_tokens@, b) == lookup(
                        old(self).voter_tokens@,
                        b,
                    )
                &&& final(self).total_votes == old(self).total_votes + amount
                &&& final(self).owner == old(self).owner
                &&& final(self).config == old(self).config
                &&& final(self).is_passed == old(self).is_passed
                &&& r->Ok_0.voter == *sender
                &&& r->Ok_0.voter_proxy == *voter_proxy
                &&& r->Ok_0.committed == final(self).total_votes
            }),
    {
        let amount = match must_pay(funds, VOTE_DENOM) {
            Ok(a) => a,
            Err(e) => {
                return Err(ContractError::Payment(e));
            },
        };
        if self.is_passed {
            return Err(ContractError::VoteRejectedProposalWasPassedEarlier);
        }
        let total = match self.total_votes.checked_add(amount) {
            Some(t) => t,
            None => {
                return Err(ContractError::Overflow);
            },
        };
        add_weight(&mut self.voter_tokens, voter_proxy, amount);
        self.total_votes = total;
        Ok(VoteNotice { voter: sender.clone(), voter_proxy: voter_proxy.clone(), committed: total })
    }

    /// The candidate joins: it must pay at least the joining fee, in its
    /// denomination, and the proposal must have passed.
    pub fn join(&self, sender: &String, funds: &Vec<Coin>) -> (r: Result<JoinOrder, ContractError>)
        requires
            self.wf(),
        ensures
            pays_exactly(funds@, self.config.joining_fee.denom@) <==> !(r matches Err(ContractError::Payment(_))),
            r matches Err(ContractError::Payment(e)) ==> is_payment_refusal(
                funds@,
                self.config.joining_fee.denom@,
                e,
            ),
            r == Err::<JoinOrder, _>(ContractError::JoinRejected) <==> (pays_exactly(
                funds@,
                self.config.joining_fee.denom@,
            ) && funds@[0].amount < self.config.joining_fee.amount),
            r == Err::<JoinOrder, _>(ContractError::Unauthorized) <==> (pays_exactly(
                funds@,
                self.config.joining_fee.denom@,
            ) && funds@[0].amount >= self.config.joining_fee.amount && sender@ != self.owner@),
            r == Err::<JoinOrder, _>(ContractError::ProposalNotPassed) <==> (pays_exactly(
                funds@,
                self.config.joining_fee.denom@,
            ) && funds@[0].amount >= self.config.joining_fee.amount && sender@ == self.owner@
                && !self.is_passed),
            r is Err ==> r->Err_0 is Payment || r->Err_0 == ContractError::JoinRejected
                || r->Err_0 == ContractError::Unauthorized || r->Err_0
                == ContractError::ProposalNotPassed,
            r is Ok ==> ({
                let o = r->Ok_0;
                &&& o.new_member_vote_tokens == self.total_votes
                &&& o.fee.amount == funds@[0].amount
                &&& o.fee.denom == self.config.joining_fee.denom
                &&& o.voter_tokens@ == self.voter_tokens@
                &&& voters_distinct(o.voter_tokens@)
            }),
    {
        let fee_paid = match must_pay(funds, self.config.joining_fee.denom.as_str()) {
            Ok(a) => a,
            Err(e) => {
                return Err(ContractError::Payment(e));
            },
        };
        if fee_paid < self.config.joining_fee.amount {
            return Err(ContractError::JoinRejected);
        }
        if *sender != self.owner {
            return Err(ContractError::Unauthorized);
        }
        if !self.is_passed {
            return Err(ContractError::ProposalNotPassed);
        }
        Ok(JoinOrder {
            new_member_vote_tokens: self.total_votes,
            fee: Coin { denom: self.config.joining_fee.denom.clone(), amount: fee_paid },
            voter_tokens: copy_table(&self.voter_tokens),
        })
    }
}

} // verus!
