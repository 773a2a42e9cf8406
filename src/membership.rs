//! The membership component: the source of truth for who is a member, and the
//! orchestrator of genesis and of each admission (propose, vote, pass, join).
//!
//! Replies to its asynchronous calls arrive tagged; genesis tags each
//! founder's custody-account creation with the founder's index, so that the
//! fan-in neither depends on arrival order nor counts a duplicate twice.
use vstd::prelude::*;

use crate::error::ContractError;
use crate::msg::{
    InstantiationData, IsMemberResp, IsProposedMemberResp, OwnerProxyResp, ProposalMemberData,
    ProxyMemberData,
};
use crate::reply::{contract_address_of_reply, instantiated_address};
use crate::payment::{
    apply_share, is_payment_refusal, must_pay, pays_exactly, Coin, Share, ATOM, DECIMAL_FRACTIONAL,
    VOTE_DENOM,
};
use crate::table::{find_key, keys_unique, lemma_lookup_absent, lemma_lookup_push, lookup};

verus! {

/// Tag of the reply to the creation of the distribution component.
pub const DISTRIBUTION_INSTANTIATION_REPLY_ID: u64 = 2;

/// Tag of the reply to the creation of a proposal.
pub const PROPOSAL_INSTANTIATION_REPLY_ID: u64 = 3;

/// Tag of the reply to a proposal being passed.
pub const PROPOSAL_PASS_REPLY_ID: u64 = 4;

/// Tag of the reply to the creation of a new member's custody account.
pub const PROXY_INSTANTIATION_REPLY_ID: u64 = 5;

/// Founder `i`'s custody-account creation is tagged `FOUNDER_REPLY_BASE + i`.
pub const FOUNDER_REPLY_BASE: u64 = 16;

/// Genesis takes at most this many founders.
pub const MAX_INITIAL_MEMBERS: usize = 1000;

/// What the membership component is created with.
#[derive(Debug, Clone)]
pub struct InstantiateMsg {
    /// The founders' part of the vote tokens paid in at genesis.
    pub initial_vote_token_distribution_part: Share,
    pub vote_token_price: Coin,
    pub joining_fee: Coin,
    pub proxy_code_id: u64,
    pub proposal_code_id: u64,
    pub distribution_code_id: u64,
    pub initial_members: Vec<String>,
}

/// The parameters of the membership component.
#[derive(Debug, Clone)]
pub struct Config {
    pub proxy_code_id: u64,
    pub proposal_code_id: u64,
    pub distribution_code_id: u64,
    /// Empty until the distribution component reports its address.
    pub distribution_contract: String,
    pub joining_fee: Coin,
    pub vote_token_price: Coin,
    pub initial_vote_token_distribution_part: Share,
}

/// An active proposal for a candidate.
#[derive(Debug, Clone, PartialEq, Eq)]
pub struct Candidate {
    pub proposal: String,
    pub passed: bool,
}

/// The state of the membership component.
#[derive(Debug)]
pub struct Membership {
    pub config: Config,
    /// Members, keyed by custody account, each with its owner.
    pub members: Vec<(String, String)>,
    /// Active proposals, keyed by candidate.
    pub candidates: Vec<(String, Candidate)>,
    /// The founders, in the order their custody accounts were requested.
    pub founders: Vec<String>,
    /// Which founders' custody accounts have been confirmed.
    pub founder_confirmed: Vec<bool>,
    /// Whether the distribution component has reported its address.
    pub distribution_ready: bool,
}

/// What the membership component can be asked.
#[derive(Debug, Clone, PartialEq, Eq)]
pub enum QueryMsg {
    IsMember { addr: String },
    IsProposedMember { addr: String },
    OwnerProxy { owner: String },
}

/// The answer to a `QueryMsg`.
#[derive(Debug, Clone, PartialEq, Eq)]
pub enum QueryResp {
    IsMember(IsMemberResp),
    IsProposedMember(IsProposedMemberResp),
    OwnerProxy(OwnerProxyResp),
}

/// Create the distribution component with these parameters.
#[derive(Debug, Clone, PartialEq, Eq)]
pub struct DistributionInit {
    pub vote_token_price: u128,
    pub total_vote_tokens_in_circulation: u128,
    pub reply_id: u64,
}

/// Create a custody account for `owner`, funded with `vote_tokens`.
#[derive(Debug, Clone, PartialEq, Eq)]
pub struct ProxyInit {
    pub owner: String,
    pub vote_tokens: u128,
    pub reply_id: u64,
}

/// The requests that follow the creation of the distribution component: the
/// founders' custody accounts, and the rest of the vote tokens for the ledger.
#[derive(Debug)]
pub struct GenesisFanOut {
    pub proxies: Vec<ProxyInit>,
    pub to_distribution: u128,
}

/// Create a proposal for `proposed_owner`, funded with the proposer's `vote_tokens`.
#[derive(Debug, Clone, PartialEq, Eq)]
pub struct ProposalInit {
    pub proposer: String,
    pub proposed_owner: String,
    pub distribution_contract: String,
    pub joining_fee: Coin,
    pub vote_tokens: u128,
    pub reply_id: u64,
}

/// The continuation that a tagged reply resumes.
#[derive(Debug, Clone, Copy, PartialEq, Eq)]
pub enum ReplyKind {
    DistributionInstantiated,
    ProposalInstantiated,
    ProposalPassed,
    ProxyInstantiated,
    /// The custody account of the founder with this index.
    InitialProxyInstantiated(u64),
}

/// No two entries name the same owner.
pub open spec fn owners_unique(s: Seq<(String, String)>) -> bool {
    forall|i: int, j: int| 0 <= i < j < s.len() ==> s[i].1@ != s[j].1@
}

/// No two candidates share a proposal.
pub open spec fn proposals_unique(s: Seq<(String, Candidate)>) -> bool {
    forall|i: int, j: int| 0 <= i < j < s.len() ==> s[i].1.proposal@ != s[j].1.proposal@
}

/// No address is named twice.
pub open spec fn addresses_distinct(s: Seq<String>) -> bool {
    forall|i: int, j: int| 0 <= i < j < s.len() ==> s[i]@ != s[j]@
}

/// Every flag is set.
pub open spec fn all_set(s: Seq<bool>) -> bool {
    forall|i: int| 0 <= i < s.len() ==> s[i]
}

/// The tag of the reply for founder `i`.
pub open spec fn founder_reply_id(i: int) -> int {
    FOUNDER_REPLY_BASE + i
}

impl Membership {
    /// Members and candidates are keyed uniquely, owners and proposals too;
    /// founders are distinct, and a founder owns a member's custody account only
    /// once confirmed; no candidate is a founder or a member's owner.
    pub open spec fn wf(&self) -> bool {
        &&& self.tables_wf()
        &&& addresses_distinct(self.founders@)
        &&& forall|i: int, j: int|
            #![trigger self.founders@[i], self.members@[j]]
            0 <= i < self.founders@.len() && 0 <= j < self.members@.len()
                && self.members@[j].1@ == self.founders@[i]@ ==> self.founder_confirmed@[i]
        &&& forall|c: int|
            0 <= c < self.candidates@.len() ==> !self.is_founder_spec(
                #[trigger] self.candidates@[c].0@,
            ) && !self.is_owner_spec(self.candidates@[c].0@)
    }

    /// The tables are keyed uniquely, owners and proposals too, and each
    /// founder has one confirmation flag.
    pub open spec fn tables_wf(&self) -> bool {
        &&& keys_unique(self.members@)
        &&& owners_unique(self.members@)
        &&& keys_unique(self.candidates@)
        &&& proposals_unique(self.candidates@)
        &&& self.founder_confirmed@.len() == self.founders@.len()
        &&& 2 <= self.founders@.len() <= MAX_INITIAL_MEMBERS
        &&& self.config.initial_vote_token_distribution_part.atomics <= DECIMAL_FRACTIONAL
    }

    /// `a` is a member's custody account.
    pub open spec fn is_member_spec(&self, a: Seq<char>) -> bool {
        lookup(self.members@, a) is Some
    }

    /// `o` owns a member's custody account.
    pub open spec fn is_owner_spec(&self, o: Seq<char>) -> bool {
        exists|i: int| 0 <= i < self.members@.len() && self.members@[i].1@ == o
    }

    /// `proxy` is the custody account of a member owned by `owner`.
    pub open spec fn owned_by(&self, proxy: Seq<char>, owner: Seq<char>) -> bool {
        lookup(self.members@, proxy) matches Some(o) && o@ == owner
    }

    /// `o` is a founder.
    pub open spec fn is_founder_spec(&self, o: Seq<char>) -> bool {
        exists|i: int| 0 <= i < self.founders@.len() && self.founders@[i]@ == o
    }

    /// `a` has an active proposal.
    pub open spec fn is_candidate_spec(&self, a: Seq<char>) -> bool {
        lookup(self.candidates@, a) is Some
    }

    /// `p` is the proposal of an active candidacy.
    pub open spec fn is_proposal_spec(&self, p: Seq<char>) -> bool {
        exists|i: int| 0 <= i < self.candidates@.len() && self.candidates@[i].1.proposal@ == p
    }

    /// Whether `addr` is a member's custody account.
    pub fn is_member(&self, addr: &String) -> (r: IsMemberResp)
        requires
            self.wf(),
        ensures
            r.ok == self.is_member_spec(addr@),
    {
        IsMemberResp { ok: find_key(&self.members, addr).is_some() }
    }

    /// Whether `addr` has an active proposal.
    pub fn is_proposed_member(&self, addr: &String) -> (r: IsProposedMemberResp)
        requires
            self.wf(),
        ensures
            r.ok == self.is_candidate_spec(addr@),
    {
        IsProposedMemberResp { ok: find_key(&self.candidates, addr).is_some() }
    }

    /// The index of the member owned by `owner`.
    fn find_owner(&self, owner: &String) -> (r: Option<usize>)
        ensures
            match r {
                Some(i) => i < self.members@.len() && self.members@[i as int].1@ == owner@,
                None => !self.is_owner_spec(owner@),
            },
    {
        let mut i: usize = 0;
        while i < self.members.len()
            invariant
                i <= self.members@.len(),
                forall|j: int| 0 <= j < i ==> self.members@[j].1@ != owner@,
            decreases self.members@.len() - i,
        {
            if self.members[i].1 == *owner {
                return Some(i);
            }
            i += 1;
        }
        None
    }

    /// The index of founder `o`.
    fn find_founder(&self, o: &String) -> (r: Option<usize>)
        ensures
            match r {
                Some(i) => i < self.founders@.len() && self.founders@[i as int]@ == o@,
                None => !self.is_founder_spec(o@),
            },
    {
        let mut i: usize = 0;
        while i < self.founders.len()
            invariant
                i <= self.founders@.len(),
                forall|j: int| 0 <= j < i ==> self.founders@[j]@ != o@,
            decreases self.founders@.len() - i,
        {
            if self.founders[i] == *o {
                return Some(i);
            }
            i += 1;
        }
        None
    }

    /// The index of the candidacy whose proposal is `proposal`.
    fn find_proposal(&self, proposal: &String) -> (r: Option<usize>)
        ensures
            match r {
                Some(i) => i < self.candidates@.len() && self.candidates@[i as int].1.proposal@
                    == proposal@,
                None => !self.is_proposal_spec(proposal@),
            },
    {
        let mut i: usize = 0;
        while i < self.candidates.len()
            invariant
                i <= self.candidates@.len(),
                forall|j: int| 0 <= j < i ==> self.candidates@[j].1.proposal@ != proposal@,
            decreases self.candidates@.len() - i,
        {
            if self.candidates[i].1.proposal == *proposal {
                return Some(i);
            }
            i += 1;
        }
        None
    }

    /// The custody account of `owner`; refused where `owner` is not a member.
    pub fn owner_proxy(&self, owner: &String) -> (r: Result<OwnerProxyResp, ContractError>)
        requires
            self.wf(),
        ensures
            r is Err <==> !self.is_owner_spec(owner@),
            r is Err ==> r->Err_0 == ContractError::NotAMember,
            r is Ok ==> r->Ok_0.owner == *owner && self.owned_by(r->Ok_0.proxy@, owner@),
    {
        match self.find_owner(owner) {
            Some(i) => {
                proof {
                    crate::table::lemma_lookup_at(self.members@, i as int);
                }
                Ok(OwnerProxyResp { owner: owner.clone(), proxy: self.members[i].0.clone() })
            },
            None => Err(ContractError::NotAMember),
        }
    }

    /// Answers a query.
    pub fn query(&self, msg: &QueryMsg) -> (r: Result<QueryResp, ContractError>)
        requires
            self.wf(),
        ensures
            match *msg {
                QueryMsg::IsMember { addr } => r == Ok::<_, ContractError>(
                    QueryResp::IsMember(IsMemberResp { ok: self.is_member_spec(addr@) }),
                ),
                QueryMsg::IsProposedMember { addr } => r == Ok::<_, ContractError>(
                    QueryResp::IsProposedMember(
                        IsProposedMemberResp { ok: self.is_candidate_spec(addr@) },
                    ),
                ),
                QueryMsg::OwnerProxy { owner } => match r {
                    Ok(QueryResp::OwnerProxy(p)) => p.owner == owner && self.owned_by(p.proxy@, owner@),
                    Err(e) => e == ContractError::NotAMember && !self.is_owner_spec(owner@),
                    _ => false,
                },
            },
    {
        match msg {
            QueryMsg::IsMember { addr } => Ok(QueryResp::IsMember(self.is_member(addr))),
            QueryMsg::IsProposedMember { addr } => Ok(
                QueryResp::IsProposedMember(self.is_proposed_member(addr)),
            ),
            QueryMsg::OwnerProxy { owner } => match self.owner_proxy(owner) {
                Ok(p) => Ok(QueryResp::OwnerProxy(p)),
                Err(e) => Err(e),
            },
        }
    }

    /// Records `proxy` as the custody account of `owner`; refused where either
    /// is already a member's.
    fn register_member(&mut self, proxy: &String, owner: &String) -> (r: Result<(), ContractError>)
        requires
            old(self).tables_wf(),
        ensures
            final(self).tables_wf(),
            r is Err <==> (old(self).is_member_spec(proxy@) || old(self).is_owner_spec(owner@)),
            r is Err ==> r->Err_0 == ContractError::AlreadyAMember && *final(self) == *old(self),
            r is Ok ==> final(self).members@ == old(self).members@.push((*proxy, *owner)),
            final(self).candidates == old(self).candidates,
            final(self).founders == old(self).founders,
            final(self).founder_confirmed == old(self).founder_confirmed,
            final(self).config == old(self).config,
            final(self).distribution_ready == old(self).distribution_ready,
    {
        if find_key(&self.members, proxy).is_some() || self.find_owner(owner).is_some() {
            return Err(ContractError::AlreadyAMember);
        }
        let ghost before = self.members@;
        self.members.push((proxy.clone(), owner.clone()));
        proof {
            assert forall|i: int, j: int| 0 <= i < j < self.members@.len() implies self.members@[i].0@
                != self.members@[j].0@ by {
                if j == before.len() {
                    assert(lookup(before, proxy@) is None);
                    if self.members@[i].0@ == proxy@ {
                        crate::table::lemma_lookup_at(before, i);
                    }
                }
            }
        }
        Ok(())
    }
}

} // verus!

verus! {

/// Whether no address is named twice.
fn all_distinct(v: &Vec<String>) -> (r: bool)
    ensures
        r == addresses_distinct(v@),
{
    let mut i: usize = 0;
    while i < v.len()
        invariant
            i <= v@.len(),
            forall|a: int, b: int| 0 <= a < b < v@.len() && a < i ==> v@[a]@ != v@[b]@,
        decreases v@.len() - i,
    {
        let mut j: usize = i + 1;
        while j < v.len()
            invariant
                i < v@.len(),
                i + 1 <= j <= v@.len(),
                forall|a: int, b: int| 0 <= a < b < v@.len() && a < i ==> v@[a]@ != v@[b]@,
                forall|b: int| i < b < j ==> v@[i as int]@ != v@[b]@,
            decreases v@.len() - j,
        {
            if v[i] == v[j] {
                return false;
            }
            j += 1;
        }
        i += 1;
    }
    true
}

/// Genesis accepts the founders' number.
pub open spec fn founders_counted(msg: InstantiateMsg) -> bool {
    2 <= msg.initial_members@.len() <= MAX_INITIAL_MEMBERS
}

/// ... and the payment in vote tokens.
pub open spec fn genesis_paid(msg: InstantiateMsg, funds: Seq<Coin>) -> bool {
    founders_counted(msg) && pays_exactly(funds, VOTE_DENOM@)
}

/// ... and the founders' part is at most the whole.
pub open spec fn genesis_part_ok(msg: InstantiateMsg, funds: Seq<Coin>) -> bool {
    genesis_paid(msg, funds) && msg.initial_vote_token_distribution_part.atomics
        <= DECIMAL_FRACTIONAL
}

/// ... and the joining fee is in the settlement denomination.
pub open spec fn genesis_fee_ok(msg: InstantiateMsg, funds: Seq<Coin>) -> bool {
    genesis_part_ok(msg, funds) && msg.joining_fee.denom@ == ATOM@
}

/// `part` of `amount`, rounded down.
pub open spec fn part_of(amount: int, part: Share) -> int {
    amount * part.atomics / DECIMAL_FRACTIONAL as int
}

/// Genesis accepts everything: the founders are distinct too.
pub open spec fn genesis_accepted(msg: InstantiateMsg, funds: Seq<Coin>) -> bool {
    genesis_fee_ok(msg, funds) && addresses_distinct(msg.initial_members@)
}

impl Membership {
    /// Starts genesis: checks the parameters and asks for the distribution
    /// component, to be credited with all the vote tokens paid in.
    pub fn instantiate(msg: InstantiateMsg, funds: &Vec<Coin>) -> (r: Result<
        (Membership, DistributionInit),
        ContractError,
    >)
        ensures
            msg.initial_members@.len() < 2 <==> r == Err::<(Membership, DistributionInit), _>(
                ContractError::NotEnoughInitialMembers,
            ),
            msg.initial_members@.len() > MAX_INITIAL_MEMBERS <==> r == Err::<
                (Membership, DistributionInit),
                _,
            >(ContractError::TooManyInitialMembers),
            (founders_counted(msg) && !pays_exactly(funds@, VOTE_DENOM@)) <==> r matches Err(
                ContractError::Payment(_),
            ),
            r matches Err(ContractError::Payment(e)) ==> is_payment_refusal(funds@, VOTE_DENOM@, e),
            (genesis_paid(msg, funds@) && !genesis_part_ok(msg, funds@)) <==> r == Err::<
                (Membership, DistributionInit),
                _,
            >(ContractError::InvalidDistributionPart),
            (genesis_part_ok(msg, funds@) && !genesis_fee_ok(msg, funds@)) <==> r == Err::<
                (Membership, DistributionInit),
                _,
            >(ContractError::JoiningFeeDenomInvalid),
            (genesis_fee_ok(msg, funds@) && !genesis_accepted(msg, funds@)) <==> r == Err::<
                (Membership, DistributionInit),
                _,
            >(ContractError::DuplicateInitialMember),
            genesis_accepted(msg, funds@) <==> r is Ok,
            r matches Ok((m, d)) ==> {
                &&& m.wf()
                &&& m.founders@ == msg.initial_members@
                &&& forall|i: int| 0 <= i < m.founder_confirmed@.len() ==> !m.founder_confirmed@[i]
                &&& m.members@.len() == 0
                &&& m.candidates@.len() == 0
                &&& !m.distribution_ready
                &&& m.config.joining_fee == msg.joining_fee
                &&& m.config.vote_token_price == msg.vote_token_price
                &&& m.config.proxy_code_id == msg.proxy_code_id
                &&& m.config.proposal_code_id == msg.proposal_code_id
                &&& m.config.distribution_code_id == msg.distribution_code_id
                &&& d.vote_token_price == msg.vote_token_price.amount
                &&& m.config.initial_vote_token_distribution_part
                    == msg.initial_vote_token_distribution_part
                &&& d.total_vote_tokens_in_circulation == part_of(
                    funds@[0].amount as int,
                    msg.initial_vote_token_distribution_part,
                )
                &&& d.reply_id == DISTRIBUTION_INSTANTIATION_REPLY_ID
            },
    {
        let n = msg.initial_members.len();
        if n < 2 {
            return Err(ContractError::NotEnoughInitialMembers);
        }
        if n > MAX_INITIAL_MEMBERS {
            return Err(ContractError::TooManyInitialMembers);
        }
        let vote_funds = match must_pay(funds, VOTE_DENOM) {
            Ok(a) => a,
            Err(e) => {
                return Err(ContractError::Payment(e));
            },
        };
        if msg.initial_vote_token_distribution_part.atomics > DECIMAL_FRACTIONAL {
            return Err(ContractError::InvalidDistributionPart);
        }
        let atom = ATOM.to_owned();
        if msg.joining_fee.denom != atom {
            return Err(ContractError::JoiningFeeDenomInvalid);
        }
        if !all_distinct(&msg.initial_members) {
            return Err(ContractError::DuplicateInitialMember);
        }
        let mut confirmed: Vec<bool> = Vec::new();
        let mut i: usize = 0;
        while i < n
            invariant
                i <= n,
                confirmed@.len() == i,
                forall|j: int| 0 <= j < i ==> !confirmed@[j],
            decreases n - i,
        {
            confirmed.push(false);
            i += 1;
        }
        let dist = DistributionInit {
            vote_token_price: msg.vote_token_price.amount,
            total_vote_tokens_in_circulation: apply_share(
                vote_funds,
                msg.initial_vote_token_distribution_part,
            ),
            reply_id: DISTRIBUTION_INSTANTIATION_REPLY_ID,
        };
        let m = Membership {
            config: Config {
                proxy_code_id: msg.proxy_code_id,
                proposal_code_id: msg.proposal_code_id,
                distribution_code_id: msg.distribution_code_id,
                distribution_contract: String::new(),
                joining_fee: msg.joining_fee,
                vote_token_price: msg.vote_token_price,
                initial_vote_token_distribution_part: msg.initial_vote_token_distribution_part,
            },
            members: Vec::new(),
            candidates: Vec::new(),
            founders: msg.initial_members,
            founder_confirmed: confirmed,
            distribution_ready: false,
        };
        Ok((m, dist))
    }
}

} // verus!

verus! {

/// One step of the genesis fan-in: the confirmation of founder `i` sets its
/// flag, and the roster comes back exactly when this confirmation is the one
/// that completes the set.
pub open spec fn fan_in_step(old: Seq<bool>, new: Seq<bool>, i: int, roster: bool) -> bool {
    &&& 0 <= i < old.len()
    &&& new == old.update(i, true)
    &&& roster == (!old[i] && all_set(new))
}

/// `new` is `old` once the distribution component at `addr` exists: the
/// address recorded, one custody-account request per founder, each with an
/// equal share of the founders' part of `vote_balance` and the founder's tag,
/// and the rest of `vote_balance` for the distribution component.
pub open spec fn fanned_out(
    old: Membership,
    new: Membership,
    addr: Seq<char>,
    vote_balance: int,
    out: GenesisFanOut,
) -> bool {
    let inits = out.proxies@;
    let n = old.founders@.len();
    let share = part_of(vote_balance, old.config.initial_vote_token_distribution_part) / n as int;
    &&& new.distribution_ready
    &&& new.config.distribution_contract@ == addr
    &&& new.config.proxy_code_id == old.config.proxy_code_id
    &&& new.config.proposal_code_id == old.config.proposal_code_id
    &&& new.config.distribution_code_id == old.config.distribution_code_id
    &&& new.config.joining_fee == old.config.joining_fee
    &&& new.config.vote_token_price == old.config.vote_token_price
    &&& new.config.initial_vote_token_distribution_part
        == old.config.initial_vote_token_distribution_part
    &&& new.members == old.members
    &&& new.candidates == old.candidates
    &&& new.founders == old.founders
    &&& new.founder_confirmed == old.founder_confirmed
    &&& inits.len() == n
    &&& forall|i: int|
        0 <= i < n ==> #[trigger] inits[i].owner == old.founders@[i] && inits[i].vote_tokens
            == share && inits[i].reply_id == founder_reply_id(i)
    &&& out.to_distribution == vote_balance - n * share
}

impl Membership {
    /// The distribution component exists: records its address and asks for one
    /// custody account per founder, each tagged with the founder's index and
    /// funded with an equal share of the founders' part of `vote_balance`; what
    /// is left of `vote_balance` goes to the distribution component.
    pub fn distribution_instantiated(&mut self, distribution_addr: String, vote_balance: u128) -> (r:
        Result<GenesisFanOut, ContractError>)
        requires
            old(self).wf(),
        ensures
            final(self).wf(),
            old(self).distribution_ready <==> r is Err,
            r is Err ==> r->Err_0 == ContractError::UnrecognizedReplyId(
                DISTRIBUTION_INSTANTIATION_REPLY_ID,
            ),
            r is Err ==> *final(self) == *old(self),
            r matches Ok(out) ==> fanned_out(
                *old(self),
                *final(self),
                distribution_addr@,
                vote_balance as int,
                out,
            ),
    {
        if self.distribution_ready {
            return Err(ContractError::UnrecognizedReplyId(DISTRIBUTION_INSTANTIATION_REPLY_ID));
        }
        let n = self.founders.len();
        let founders_part = apply_share(vote_balance, self.config.initial_vote_token_distribution_part);
        let share = founders_part / (n as u128);
        proof {
            assert(founders_part <= vote_balance) by (nonlinear_arith)
                requires
                    founders_part == vote_balance * self.config.initial_vote_token_distribution_part.atomics
                        / DECIMAL_FRACTIONAL as int,
                    self.config.initial_vote_token_distribution_part.atomics <= DECIMAL_FRACTIONAL,
            ;
            assert(share * n <= founders_part) by (nonlinear_arith)
                requires
                    share == founders_part as int / (n as int),
                    n >= 2,
            ;
        }
        let mut inits: Vec<ProxyInit> = Vec::new();
        let mut i: usize = 0;
        while i < n
            invariant
                *self == *old(self),
                n == self.founders@.len(),
                2 <= n <= MAX_INITIAL_MEMBERS,
                i <= n,
                inits@.len() == i,
                forall|j: int|
                    0 <= j < i ==> #[trigger] inits@[j].owner == self.founders@[j]
                        && inits@[j].vote_tokens == share && inits@[j].reply_id == founder_reply_id(j),
            decreases n - i,
        {
            inits.push(
                ProxyInit {
                    owner: self.founders[i].clone(),
                    vote_tokens: share,
                    reply_id: FOUNDER_REPLY_BASE + i as u64,
                },
            );
            i += 1;
        }
        self.config.distribution_contract = distribution_addr;
        self.distribution_ready = true;
        proof {
            assert((n as int) * share == share * (n as int)) by (nonlinear_arith);
        }
        Ok(GenesisFanOut { proxies: inits, to_distribution: vote_balance - share * (n as u128) })
    }

    /// Reads the distribution component's address from the reply payload, then
    /// goes on as `distribution_instantiated`.
    pub fn distribution_instantiated_reply(
        &mut self,
        data: &Option<Vec<u8>>,
        vote_balance: u128,
    ) -> (r: Result<GenesisFanOut, ContractError>)
        requires
            old(self).wf(),
        ensures
            final(self).wf(),
            r is Err ==> *final(self) == *old(self),
            data is None ==> r == Err::<GenesisFanOut, _>(ContractError::DataMissing),
            match *data {
                None => true,
                Some(d) => match instantiated_address(d@) {
                    None => r == Err::<GenesisFanOut, _>(ContractError::ParseError),
                    Some(a) => {
                        &&& (old(self).distribution_ready <==> r is Err)
                        &&& (r is Err ==> r->Err_0 == ContractError::UnrecognizedReplyId(
                            DISTRIBUTION_INSTANTIATION_REPLY_ID,
                        ))
                        &&& (r matches Ok(out) ==> fanned_out(
                            *old(self),
                            *final(self),
                            a,
                            vote_balance as int,
                            out,
                        ))
                    },
                },
            },
    {
        match contract_address_of_reply(data) {
            Ok(addr) => self.distribution_instantiated(addr, vote_balance),
            Err(e) => Err(e),
        }
    }

    /// The roster of members, as owner and custody account.
    pub fn roster(&self) -> (r: InstantiationData)
        ensures
            r.members@.len() == self.members@.len(),
            forall|i: int|
                0 <= i < self.members@.len() ==> #[trigger] r.members@[i].proxy_addr
                    == self.members@[i].0 && r.members@[i].owner_addr == self.members@[i].1,
    {
        let mut members: Vec<ProxyMemberData> = Vec::new();
        let mut i: usize = 0;
        while i < self.members.len()
            invariant
                i <= self.members@.len(),
                members@.len() == i,
                forall|j: int|
                    0 <= j < i ==> #[trigger] members@[j].proxy_addr == self.members@[j].0
                        && members@[j].owner_addr == self.members@[j].1,
            decreases self.members@.len() - i,
        {
            members.push(
                ProxyMemberData {
                    owner_addr: self.members[i].1.clone(),
                    proxy_addr: self.members[i].0.clone(),
                },
            );
            i += 1;
        }
        InstantiationData { members }
    }

    /// Whether every founder's custody account is confirmed.
    fn all_confirmed(&self) -> (r: bool)
        ensures
            r == all_set(self.founder_confirmed@),
    {
        let mut i: usize = 0;
        while i < self.founder_confirmed.len()
            invariant
                i <= self.founder_confirmed@.len(),
                forall|j: int| 0 <= j < i ==> self.founder_confirmed@[j],
            decreases self.founder_confirmed@.len() - i,
        {
            if !self.founder_confirmed[i] {
                return false;
            }
            i += 1;
        }
        true
    }

    /// A founder's custody account `proxy_addr` exists, confirmed by the reply
    /// tagged `reply_id`. The founder becomes a member. A second confirmation of
    /// the same founder changes nothing. The confirmation that completes the set
    /// returns the roster; every other returns `None`.
    pub fn initial_proxy_instantiated(&mut self, reply_id: u64, proxy_addr: &String) -> (r: Result<
        Option<InstantiationData>,
        ContractError,
    >)
        requires
            old(self).wf(),
        ensures
            final(self).wf(),
            r is Err ==> *final(self) == *old(self),
            founder_confirmation(*old(self), *final(self), reply_id, proxy_addr@, r),
            r is Ok && !old(self).founder_confirmed@[reply_id - FOUNDER_REPLY_BASE]
                ==> final(self).members@ == old(self).members@.push(
                (*proxy_addr, old(self).founders@[reply_id - FOUNDER_REPLY_BASE]),
            ),
    {
        if reply_id < FOUNDER_REPLY_BASE || !self.distribution_ready {
            return Err(ContractError::UnrecognizedReplyId(reply_id));
        }
        let index = reply_id - FOUNDER_REPLY_BASE;
        if index >= self.founders.len() as u64 {
            return Err(ContractError::UnrecognizedReplyId(reply_id));
        }
        let i = index as usize;
        if self.founder_confirmed[i] {
            proof {
                assert(self.founder_confirmed@.update(i as int, true) =~= self.founder_confirmed@);
            }
            return Ok(None);
        }
        let owner = self.founders[i].clone();
        proof {
            if self.is_owner_spec(owner@) {
                let j = choose|j: int| 0 <= j < self.members@.len() && self.members@[j].1@ == owner@;
                assert(self.founders@[i as int] == self.founders@[i as int]);
                assert(self.members@[j] == self.members@[j]);
            }
        }
        let ghost old_self = *self;
        if let Err(e) = self.register_member(proxy_addr, &owner) {
            return Err(e);
        }
        self.founder_confirmed.set(i, true);
        proof {
            assert forall|k: int, j: int|
                #![trigger self.founders@[k], self.members@[j]]
                0 <= k < self.founders@.len() && 0 <= j < self.members@.len()
                    && self.members@[j].1@ == self.founders@[k]@ implies self.founder_confirmed@[k] by {
                if j < old_self.members@.len() {
                    assert(self.members@[j] == old_self.members@[j]);
                    assert(old_self.founders@[k] == self.founders@[k]);
                } else if k != i {
                    assert(self.founders@[k]@ != self.founders@[i as int]@);
                }
            }
            assert forall|c: int| 0 <= c < self.candidates@.len() implies !self.is_founder_spec(
                #[trigger] self.candidates@[c].0@,
            ) && !self.is_owner_spec(self.candidates@[c].0@) by {
                assert(self.candidates@[c] == old_self.candidates@[c]);
                assert(!old_self.is_founder_spec(self.candidates@[c].0@));
                assert(!old_self.is_owner_spec(self.candidates@[c].0@));
                if self.is_owner_spec(self.candidates@[c].0@) {
                    let j = choose|j: int| 0 <= j < self.members@.len() && self.members@[j].1@
                        == self.candidates@[c].0@;
                    if j < old_self.members@.len() {
                        assert(self.members@[j] == old_self.members@[j]);
                    } else {
                        assert(old_self.founders@[i as int]@ == self.candidates@[c].0@);
                    }
                }
            }
            assert(self.members@.drop_last() =~= old_self.members@);
        }
        if self.all_confirmed() {
            Ok(Some(self.roster()))
        } else {
            Ok(None)
        }
    }
}

} // verus!

verus! {

/// A founder's confirmation tagged `reply_id` names no founder, or comes
/// before the fan-out.
pub open spec fn founder_reply_unknown(m: Membership, reply_id: u64) -> bool {
    reply_id < FOUNDER_REPLY_BASE || reply_id - FOUNDER_REPLY_BASE >= m.founders@.len()
        || !m.distribution_ready
}

/// `d` lists `members` in order, as owner and custody account.
pub open spec fn roster_lists(d: InstantiationData, members: Seq<(String, String)>) -> bool {
    &&& d.members@.len() == members.len()
    &&& forall|k: int|
        0 <= k < members.len() ==> #[trigger] d.members@[k].proxy_addr == members[k].0
            && d.members@[k].owner_addr == members[k].1
}

/// The outcome of the confirmation tagged `reply_id` that founder
/// `reply_id - FOUNDER_REPLY_BASE` has custody account `proxy`: refused for an
/// unknown tag, and where `proxy` is a member's already; a repeated
/// confirmation changes nothing; otherwise the founder becomes a member, and
/// the roster of all members comes back exactly when this confirmation
/// completes the set.
pub open spec fn founder_confirmation(
    old: Membership,
    new: Membership,
    reply_id: u64,
    proxy: Seq<char>,
    r: Result<Option<InstantiationData>, ContractError>,
) -> bool {
    let i = reply_id - FOUNDER_REPLY_BASE;
    &&& founder_reply_unknown(old, reply_id) <==> r == Err::<Option<InstantiationData>, _>(
        ContractError::UnrecognizedReplyId(reply_id),
    )
    &&& (!founder_reply_unknown(old, reply_id) ==> ((!old.founder_confirmed@[i]
        && old.is_member_spec(proxy)) <==> r == Err::<Option<InstantiationData>, _>(
        ContractError::AlreadyAMember,
    )))
    &&& (r is Err ==> r->Err_0 == ContractError::UnrecognizedReplyId(reply_id) || r->Err_0
        == ContractError::AlreadyAMember)
    &&& (r matches Ok(roster) ==> {
        &&& fan_in_step(old.founder_confirmed@, new.founder_confirmed@, i, roster is Some)
        &&& old.founder_confirmed@[i] ==> new == old
        &&& !old.founder_confirmed@[i] ==> {
            &&& new.members@.len() == old.members@.len() + 1
            &&& new.members@.drop_last() == old.members@
            &&& new.members@.last().0@ == proxy
            &&& new.members@.last().1 == old.founders@[i]
        }
        &&& new.candidates == old.candidates
        &&& new.founders == old.founders
        &&& new.distribution_ready == old.distribution_ready
        &&& (roster matches Some(d) ==> roster_lists(d, new.members@))
    })
}

/// The outcome of the report that proposal `proposal` for candidate `owner`
/// exists: refused where a candidacy is active for `owner` or at `proposal`,
/// else where `owner` is a member's owner or a founder; otherwise the
/// candidacy, not yet passed, joins the table.
pub open spec fn candidacy_opened(
    old: Membership,
    new: Membership,
    proposal: Seq<char>,
    owner: Seq<char>,
    r: Result<ProposalMemberData, ContractError>,
) -> bool {
    let taken = old.is_candidate_spec(owner) || old.is_proposal_spec(proposal);
    &&& taken <==> r == Err::<ProposalMemberData, _>(ContractError::ExistingProposalInProgress)
    &&& (!taken && (old.is_owner_spec(owner) || old.is_founder_spec(owner))) <==> r == Err::<
        ProposalMemberData,
        _,
    >(ContractError::AlreadyAMember)
    &&& (r is Err ==> r->Err_0 == ContractError::ExistingProposalInProgress || r->Err_0
        == ContractError::AlreadyAMember)
    &&& (r matches Ok(d) ==> {
        &&& d.owner_addr@ == owner
        &&& d.proposal_addr@ == proposal
        &&& new.candidates@.len() == old.candidates@.len() + 1
        &&& new.candidates@.drop_last() == old.candidates@
        &&& new.candidates@.last().0@ == owner
        &&& new.candidates@.last().1.proposal@ == proposal
        &&& !new.candidates@.last().1.passed
        &&& new.members == old.members
        &&& new.founders == old.founders
        &&& new.founder_confirmed == old.founder_confirmed
    })
}

/// The outcome of the report that custody account `proxy` exists for a
/// joining `owner`: refused where `proxy` or `owner` is a member's already or
/// `owner` is a founder, else where `owner` still has an active candidacy;
/// otherwise the member joins the table.
pub open spec fn member_admitted(
    old: Membership,
    new: Membership,
    proxy: Seq<char>,
    owner: Seq<char>,
    r: Result<ProxyMemberData, ContractError>,
) -> bool {
    let known = old.is_member_spec(proxy) || old.is_owner_spec(owner) || old.is_founder_spec(owner);
    &&& known <==> r == Err::<ProxyMemberData, _>(ContractError::AlreadyAMember)
    &&& (!known && old.is_candidate_spec(owner)) <==> r == Err::<ProxyMemberData, _>(
        ContractError::ExistingProposalInProgress,
    )
    &&& (r is Err ==> r->Err_0 == ContractError::AlreadyAMember || r->Err_0
        == ContractError::ExistingProposalInProgress)
    &&& (r matches Ok(d) ==> {
        &&& d.owner_addr@ == owner
        &&& d.proxy_addr@ == proxy
        &&& new.members@.len() == old.members@.len() + 1
        &&& new.members@.drop_last() == old.members@
        &&& new.members@.last().0@ == proxy
        &&& new.members@.last().1@ == owner
        &&& new.candidates == old.candidates
        &&& new.founders == old.founders
        &&& new.founder_confirmed == old.founder_confirmed
    })
}

/// The continuation that the reply tagged `id` resumes.
pub fn reply_kind(id: u64) -> (r: Result<ReplyKind, ContractError>)
    ensures
        id == DISTRIBUTION_INSTANTIATION_REPLY_ID ==> r == Ok::<_, ContractError>(
            ReplyKind::DistributionInstantiated,
        ),
        id == PROPOSAL_INSTANTIATION_REPLY_ID ==> r == Ok::<_, ContractError>(
            ReplyKind::ProposalInstantiated,
        ),
        id == PROPOSAL_PASS_REPLY_ID ==> r == Ok::<_, ContractError>(ReplyKind::ProposalPassed),
        id == PROXY_INSTANTIATION_REPLY_ID ==> r == Ok::<_, ContractError>(
            ReplyKind::ProxyInstantiated,
        ),
        id >= FOUNDER_REPLY_BASE ==> r == Ok::<_, ContractError>(
            ReplyKind::InitialProxyInstantiated((id - FOUNDER_REPLY_BASE) as u64),
        ),
        (id < FOUNDER_REPLY_BASE && id != DISTRIBUTION_INSTANTIATION_REPLY_ID && id
            != PROPOSAL_INSTANTIATION_REPLY_ID && id != PROPOSAL_PASS_REPLY_ID && id
            != PROXY_INSTANTIATION_REPLY_ID) ==> r == Err::<ReplyKind, _>(
            ContractError::UnrecognizedReplyId(id),
        ),
{
    if id >= FOUNDER_REPLY_BASE {
        Ok(ReplyKind::InitialProxyInstantiated(id - FOUNDER_REPLY_BASE))
    } else if id == DISTRIBUTION_INSTANTIATION_REPLY_ID {
        Ok(ReplyKind::DistributionInstantiated)
    } else if id == PROPOSAL_INSTANTIATION_REPLY_ID {
        Ok(ReplyKind::ProposalInstantiated)
    } else if id == PROPOSAL_PASS_REPLY_ID {
        Ok(ReplyKind::ProposalPassed)
    } else if id == PROXY_INSTANTIATION_REPLY_ID {
        Ok(ReplyKind::ProxyInstantiated)
    } else {
        Err(ContractError::UnrecognizedReplyId(id))
    }
}

impl Membership {
    /// A member's custody account `sender` proposes `addr` for membership,
    /// committing the attached vote tokens. Refused where `addr` has an active
    /// proposal (at most one proposal per candidate), and where it is a member
    /// already or a founder.
    pub fn propose_member(&self, sender: &String, funds: &Vec<Coin>, addr: &String) -> (r: Result<
        ProposalInit,
        ContractError,
    >)
        requires
            self.wf(),
        ensures
            !pays_exactly(funds@, VOTE_DENOM@) <==> r matches Err(ContractError::Payment(_)),
            r matches Err(ContractError::Payment(e)) ==> is_payment_refusal(funds@, VOTE_DENOM@, e),
            (pays_exactly(funds@, VOTE_DENOM@) && !self.is_member_spec(sender@)) <==> r == Err::<
                ProposalInit,
                _,
            >(ContractError::Unauthorized),
            (pays_exactly(funds@, VOTE_DENOM@) && self.is_member_spec(sender@)
                && self.is_candidate_spec(addr@)) <==> r == Err::<ProposalInit, _>(
                ContractError::ExistingProposalInProgress,
            ),
            (pays_exactly(funds@, VOTE_DENOM@) && self.is_member_spec(sender@)
                && !self.is_candidate_spec(addr@) && (self.is_owner_spec(addr@) || self.is_founder_spec(
                addr@,
            ))) <==> r == Err::<ProposalInit, _>(ContractError::AlreadyAMember),
            r is Err ==> r->Err_0 is Payment || r->Err_0 == ContractError::Unauthorized || r->Err_0
                == ContractError::AlreadyAMember || r->Err_0 == ContractError::ExistingProposalInProgress,
            r matches Ok(p) ==> {
                &&& p.proposer == *sender
                &&& p.proposed_owner == *addr
                &&& p.distribution_contract == self.config.distribution_contract
                &&& p.joining_fee == self.config.joining_fee
                &&& p.vote_tokens == funds@[0].amount
                &&& p.reply_id == PROPOSAL_INSTANTIATION_REPLY_ID
            },
    {
        let vote_tokens = match must_pay(funds, VOTE_DENOM) {
            Ok(a) => a,
            Err(e) => {
                return Err(ContractError::Payment(e));
            },
        };
        if find_key(&self.members, sender).is_none() {
            return Err(ContractError::Unauthorized);
        }
        if find_key(&self.candidates, addr).is_some() {
            return Err(ContractError::ExistingProposalInProgress);
        }
        if self.find_owner(addr).is_some() || self.find_founder(addr).is_some() {
            return Err(ContractError::AlreadyAMember);
        }
        Ok(
            ProposalInit {
                proposer: sender.clone(),
                proposed_owner: addr.clone(),
                distribution_contract: self.config.distribution_contract.clone(),
                joining_fee: self.config.joining_fee.copied(),
                vote_tokens,
                reply_id: PROPOSAL_INSTANTIATION_REPLY_ID,
            },
        )
    }

    /// The proposal `proposal_addr` for candidate `owner` exists: the candidacy
    /// becomes active. Refused where the candidate already has an active
    /// proposal or the proposal address is taken, and where it is a member or
    /// a founder.
    pub fn proposal_instantiated(&mut self, proposal_addr: &String, owner: &String) -> (r: Result<
        ProposalMemberData,
        ContractError,
    >)
        requires
            old(self).wf(),
        ensures
            final(self).wf(),
            r is Err ==> *final(self) == *old(self),
            candidacy_opened(*old(self), *final(self), proposal_addr@, owner@, r),
            r is Ok ==> final(self).candidates@ == old(self).candidates@.push(
                (*owner, Candidate { proposal: *proposal_addr, passed: false }),
            ),
    {
        if find_key(&self.candidates, owner).is_some() || self.find_proposal(proposal_addr).is_some() {
            return Err(ContractError::ExistingProposalInProgress);
        }
        if self.find_owner(owner).is_some() || self.find_founder(owner).is_some() {
            return Err(ContractError::AlreadyAMember);
        }
        let ghost before = self.candidates@;
        let ghost old_self = *self;
        let entry = (owner.clone(), Candidate { proposal: proposal_addr.clone(), passed: false });
        self.candidates.push(entry);
        proof {
            assert forall|i: int, j: int| 0 <= i < j < self.candidates@.len() implies self.candidates@[
                i].0@ != self.candidates@[j].0@ by {
                if j == before.len() && self.candidates@[i].0@ == owner@ {
                    crate::table::lemma_lookup_at(before, i);
                }
            }
            assert forall|c: int| 0 <= c < self.candidates@.len() implies !self.is_founder_spec(
                #[trigger] self.candidates@[c].0@,
            ) && !self.is_owner_spec(self.candidates@[c].0@) by {
                if c < before.len() {
                    assert(self.candidates@[c] == old_self.candidates@[c]);
                }
            }
            assert(self.candidates@.drop_last() =~= before);
        }
        Ok(ProposalMemberData { owner_addr: owner.clone(), proposal_addr: proposal_addr.clone() })
    }

    /// The proposal `sender` reports a vote by `voter` through its custody
    /// account `voter_proxy`, with `committed` vote tokens now behind the
    /// candidacy out of `total_vote_tokens` in circulation. The candidacy passes
    /// where `committed >= total_vote_tokens / 2`; the answer says whether it did,
    /// and if so the proposal is to be told to pass.
    pub fn vote_member_proposal(
        &mut self,
        sender: &String,
        voter: &String,
        voter_proxy: &String,
        committed: u128,
        total_vote_tokens: u128,
    ) -> (r: Result<bool, ContractError>)
        requires
            old(self).wf(),
        ensures
            final(self).wf(),
            r is Err ==> *final(self) == *old(self),
            !old(self).is_proposal_spec(sender@) <==> r == Err::<bool, _>(
                ContractError::NotProposedMember,
            ),
            (old(self).is_proposal_spec(sender@) && !old(self).owned_by(voter_proxy@, voter@)) <==> r
                == Err::<bool, _>(ContractError::MemberProxyMismatch),
            r is Err ==> r->Err_0 == ContractError::NotProposedMember || r->Err_0
                == ContractError::MemberProxyMismatch,
            r matches Ok(passed) ==> passed == (committed >= total_vote_tokens / 2),
            r matches Ok(passed) ==> exists|i: int|
                0 <= i < old(self).candidates@.len() && old(self).candidates@[i].1.proposal@
                    == sender@ && final(self).candidates@ == old(self).candidates@.update(
                    i,
                    (
                        old(self).candidates@[i].0,
                        Candidate {
                            proposal: old(self).candidates@[i].1.proposal,
                            passed: old(self).candidates@[i].1.passed || passed,
                        },
                    ),
                ),
            r is Ok ==> final(self).members == old(self).members && final(self).founders == old(
                self,
            ).founders && final(self).founder_confirmed == old(self).founder_confirmed,
    {
        let i = match self.find_proposal(sender) {
            Some(i) => i,
            None => {
                return Err(ContractError::NotProposedMember);
            },
        };
        let owner_ok = match find_key(&self.members, voter_proxy) {
            Some(k) => self.members[k].1 == *voter,
            None => false,
        };
        if !owner_ok {
            return Err(ContractError::MemberProxyMismatch);
        }
        let passed = committed >= total_vote_tokens / 2;
        let key = self.candidates[i].0.clone();
        let proposal = self.candidates[i].1.proposal.clone();
        let was_passed = self.candidates[i].1.passed;
        let ghost before = self.candidates@;
        let entry = (key, Candidate { proposal, passed: was_passed || passed });
        proof {
            crate::table::lemma_lookup_update(before, i as int, entry.1, before[i as int].0@);
        }
        self.candidates.set(i, entry);
        proof {
            assert forall|a: int, b: int| 0 <= a < b < self.candidates@.len() implies self.candidates@[
                a].1.proposal@ != self.candidates@[b].1.proposal@ by {
                assert(self.candidates@[a].1.proposal@ == before[a].1.proposal@);
                assert(self.candidates@[b].1.proposal@ == before[b].1.proposal@);
            }
        }
        Ok(passed)
    }
}

} // verus!

verus! {

impl Membership {
    /// The passed proposal `sender` hands over its vote tokens for its
    /// candidate, who has paid the joining fee: the candidacy ends, and a custody
    /// account funded with those tokens is to be created for the candidate.
    pub fn new_member(&mut self, sender: &String, funds: &Vec<Coin>) -> (r: Result<
        ProxyInit,
        ContractError,
    >)
        requires
            old(self).wf(),
        ensures
            final(self).wf(),
            r is Err ==> *final(self) == *old(self),
            !pays_exactly(funds@, VOTE_DENOM@) <==> r matches Err(ContractError::Payment(_)),
            r matches Err(ContractError::Payment(e)) ==> is_payment_refusal(funds@, VOTE_DENOM@, e),
            (pays_exactly(funds@, VOTE_DENOM@) && !old(self).is_proposal_spec(sender@)) <==> r
                == Err::<ProxyInit, _>(ContractError::NotProposedMember),
            (pays_exactly(funds@, VOTE_DENOM@) && exists|i: int|
                0 <= i < old(self).candidates@.len() && old(self).candidates@[i].1.proposal@
                    == sender@ && !old(self).candidates@[i].1.passed) <==> r == Err::<ProxyInit, _>(
                ContractError::ProposalNotPassed,
            ),
            r is Err ==> r->Err_0 is Payment || r->Err_0 == ContractError::NotProposedMember
                || r->Err_0 == ContractError::ProposalNotPassed,
            r matches Ok(p) ==> exists|i: int|
                0 <= i < old(self).candidates@.len() && old(self).candidates@[i].1.proposal@
                    == sender@ && old(self).candidates@[i].1.passed && p.owner
                    == old(self).candidates@[i].0 && final(self).candidates@ == old(
                    self,
                ).candidates@.remove(i),
            r matches Ok(p) ==> p.vote_tokens == funds@[0].amount && p.reply_id
                == PROXY_INSTANTIATION_REPLY_ID,
            r is Ok ==> final(self).members == old(self).members && final(self).founders == old(
                self,
            ).founders && final(self).founder_confirmed == old(self).founder_confirmed,
    {
        let vote_tokens = match must_pay(funds, VOTE_DENOM) {
            Ok(a) => a,
            Err(e) => {
                return Err(ContractError::Payment(e));
            },
        };
        let i = match self.find_proposal(sender) {
            Some(i) => i,
            None => {
                return Err(ContractError::NotProposedMember);
            },
        };
        if !self.candidates[i].1.passed {
            return Err(ContractError::ProposalNotPassed);
        }
        let ghost before = self.candidates@;
        let owner = self.candidates[i].0.clone();
        proof {
            assert forall|a: Seq<char>| true implies lookup(before.remove(i as int), a) == if before[i as int].0@ == a {
                None
            } else {
                lookup(before, a)
            } by {
                crate::table::lemma_lookup_remove(before, i as int, a);
            }
            crate::table::lemma_lookup_remove(before, i as int, owner@);
        }
        self.candidates.remove(i);
        proof {
            assert forall|a: int, b: int| 0 <= a < b < self.candidates@.len() implies self.candidates@[
                a].1.proposal@ != self.candidates@[b].1.proposal@ by {
                let a0 = if a < i { a } else { a + 1 };
                let b0 = if b < i { b } else { b + 1 };
                assert(self.candidates@[a] == before[a0]);
                assert(self.candidates@[b] == before[b0]);
            }
        }
        Ok(ProxyInit { owner, vote_tokens, reply_id: PROXY_INSTANTIATION_REPLY_ID })
    }

    /// A new member's custody account `proxy_addr` exists for `owner`: the
    /// candidate becomes a member. Refused where either is a member's already,
    /// where `owner` is a founder, and where `owner` still has an active proposal.
    pub fn proxy_instantiated(&mut self, proxy_addr: &String, owner: &String) -> (r: Result<
        ProxyMemberData,
        ContractError,
    >)
        requires
            old(self).wf(),
        ensures
            final(self).wf(),
            r is Err ==> *final(self) == *old(self),
            member_admitted(*old(self), *final(self), proxy_addr@, owner@, r),
            r is Ok ==> final(self).members@ == old(self).members@.push((*proxy_addr, *owner)),
    {
        if self.find_founder(owner).is_some() {
            return Err(ContractError::AlreadyAMember);
        }
        if find_key(&self.members, proxy_addr).is_some() || self.find_owner(owner).is_some() {
            return Err(ContractError::AlreadyAMember);
        }
        if find_key(&self.candidates, owner).is_some() {
            return Err(ContractError::ExistingProposalInProgress);
        }
        let ghost old_self = *self;
        match self.register_member(proxy_addr, owner) {
            Ok(()) => {
                proof {
                    assert forall|i: int, j: int|
                        #![trigger self.founders@[i], self.members@[j]]
                        0 <= i < self.founders@.len() && 0 <= j < self.members@.len()
                            && self.members@[j].1@ == self.founders@[i]@ implies self.founder_confirmed@[i] by {
                        if j < old_self.members@.len() {
                            assert(self.members@[j] == old_self.members@[j]);
                            assert(old_self.founders@[i] == self.founders@[i]);
                        }
                    }
                    assert forall|c: int| 0 <= c < self.candidates@.len() implies !self.is_founder_spec(
                        #[trigger] self.candidates@[c].0@,
                    ) && !self.is_owner_spec(self.candidates@[c].0@) by {
                        assert(self.candidates@[c] == old_self.candidates@[c]);
                        assert(!old_self.is_owner_spec(self.candidates@[c].0@));
                        if self.is_owner_spec(self.candidates@[c].0@) {
                            let j = choose|j: int| 0 <= j < self.members@.len() && self.members@[j].1@
                                == self.candidates@[c].0@;
                            if j < old_self.members@.len() {
                                assert(self.members@[j] == old_self.members@[j]);
                            }
                        }
                    }
                    assert(self.members@.drop_last() =~= old_self.members@);
                }
                Ok(ProxyMemberData { owner_addr: owner.clone(), proxy_addr: proxy_addr.clone() })
            },
            Err(e) => Err(e),
        }
    }

    /// Reads the new custody account's address from the reply payload, then
    /// goes on as `proxy_instantiated`.
    pub fn proxy_instantiated_reply(&mut self, data: &Option<Vec<u8>>, owner: &String) -> (r: Result<
        ProxyMemberData,
        ContractError,
    >)
        requires
            old(self).wf(),
        ensures
            final(self).wf(),
            r is Err ==> *final(self) == *old(self),
            data is None ==> r == Err::<ProxyMemberData, _>(ContractError::DataMissing),
            match *data {
                None => true,
                Some(d) => match instantiated_address(d@) {
                    None => r == Err::<ProxyMemberData, _>(ContractError::ParseError),
                    Some(a) => member_admitted(*old(self), *final(self), a, owner@, r),
                },
            },
    {
        match contract_address_of_reply(data) {
            Ok(addr) => self.proxy_instantiated(&addr, owner),
            Err(e) => Err(e),
        }
    }

    /// Reads the new proposal's address from the reply payload, then goes on as
    /// `proposal_instantiated`.
    pub fn proposal_instantiated_reply(&mut self, data: &Option<Vec<u8>>, owner: &String) -> (r:
        Result<ProposalMemberData, ContractError>)
        requires
            old(self).wf(),
        ensures
            final(self).wf(),
            r is Err ==> *final(self) == *old(self),
            data is None ==> r == Err::<ProposalMemberData, _>(ContractError::DataMissing),
            match *data {
                None => true,
                Some(d) => match instantiated_address(d@) {
                    None => r == Err::<ProposalMemberData, _>(ContractError::ParseError),
                    Some(a) => candidacy_opened(*old(self), *final(self), a, owner@, r),
                },
            },
    {
        match contract_address_of_reply(data) {
            Ok(addr) => self.proposal_instantiated(&addr, owner),
            Err(e) => Err(e),
        }
    }

    /// Reads a founder's custody-account address from the reply payload, then
    /// goes on as `initial_proxy_instantiated`.
    pub fn initial_proxy_instantiated_reply(&mut self, reply_id: u64, data: &Option<Vec<u8>>) -> (r:
        Result<Option<InstantiationData>, ContractError>)
        requires
            old(self).wf(),
        ensures
            final(self).wf(),
            r is Err ==> *final(self) == *old(self),
            data is None ==> r == Err::<Option<InstantiationData>, _>(ContractError::DataMissing),
            match *data {
                None => true,
                Some(d) => match instantiated_address(d@) {
                    None => r == Err::<Option<InstantiationData>, _>(ContractError::ParseError),
                    Some(a) => founder_confirmation(*old(self), *final(self), reply_id, a, r),
                },
            },
    {
        match contract_address_of_reply(data) {
            Ok(addr) => self.initial_proxy_instantiated(reply_id, &addr),
            Err(e) => Err(e),
        }
    }
}

} // verus!

verus! {

/// A confirmation of founder `j` is among the first `k` of `ids`.
pub open spec fn arrived(ids: Seq<int>, k: int, j: int) -> bool {
    exists|t: int| 0 <= t < k && ids[t] == j
}

/// No double admission: in every well-formed state each candidate has at most
/// one active proposal, and no candidate is a member's owner or a founder.
pub proof fn law_one_candidacy_per_candidate(m: Membership)
    requires
        m.wf(),
    ensures
        forall|i: int, j: int|
            0 <= i < m.candidates@.len() && 0 <= j < m.candidates@.len() && m.candidates@[i].0@
                == m.candidates@[j].0@ ==> i == j,
        forall|c: int|
            0 <= c < m.candidates@.len() ==> !m.is_owner_spec(#[trigger] m.candidates@[c].0@)
                && !m.is_founder_spec(m.candidates@[c].0@),
{
}

/// `flags[k + 1]` follows from `flags[k]` by the confirmation of founder
/// `ids[k]`, which returned the roster where `rosters[k]`.
pub open spec fn fan_in_run(flags: Seq<Seq<bool>>, ids: Seq<int>, rosters: Seq<bool>) -> bool {
    &&& flags.len() == ids.len() + 1
    &&& rosters.len() == ids.len()
    &&& forall|k: int|
        0 <= k < ids.len() ==> fan_in_step(flags[k], flags[k + 1], ids[k], #[trigger] rosters[k])
}

proof fn lemma_run_monotone(flags: Seq<Seq<bool>>, ids: Seq<int>, rosters: Seq<bool>, k: int, m: int)
    requires
        fan_in_run(flags, ids, rosters),
        0 <= k <= m < flags.len(),
    ensures
        flags[m].len() == flags[k].len(),
        forall|j: int| 0 <= j < flags[k].len() && flags[k][j] ==> flags[m][j],
    decreases m - k,
{
    if k < m {
        lemma_run_monotone(flags, ids, rosters, k, m - 1);
        assert(fan_in_step(flags[m - 1], flags[m], ids[m - 1], rosters[m - 1]));
    }
}

proof fn lemma_run_witness(flags: Seq<Seq<bool>>, ids: Seq<int>, rosters: Seq<bool>, k: int, j: int)
    requires
        fan_in_run(flags, ids, rosters),
        0 <= k < flags.len(),
        0 <= j < flags[0].len(),
        !flags[0][j],
        flags[k][j],
    ensures
        exists|t: int| 0 <= t < k && ids[t] == j,
    decreases k,
{
    lemma_run_monotone(flags, ids, rosters, 0, k);
    if k > 0 {
        assert(fan_in_step(flags[k - 1], flags[k], ids[k - 1], rosters[k - 1]));
        lemma_run_monotone(flags, ids, rosters, 0, k - 1);
        if ids[k - 1] != j {
            lemma_run_witness(flags, ids, rosters, k - 1, j);
            let t = choose|t: int| 0 <= t < k - 1 && ids[t] == j;
            assert(0 <= t < k && ids[t] == j);
        }
    }
}

proof fn lemma_run_completes(flags: Seq<Seq<bool>>, ids: Seq<int>, rosters: Seq<bool>, m: int)
    requires
        fan_in_run(flags, ids, rosters),
        0 <= m < flags.len(),
        !all_set(flags[0]),
        all_set(flags[m]),
    ensures
        exists|k: int| 0 <= k < m && rosters[k],
    decreases m,
{
    if m == 0 {
    } else if all_set(flags[m - 1]) {
        lemma_run_completes(flags, ids, rosters, m - 1);
        let k = choose|k: int| 0 <= k < m - 1 && rosters[k];
        assert(0 <= k < m && rosters[k]);
    } else {
        let k = m - 1;
        assert(fan_in_step(flags[k], flags[m], ids[k], rosters[k]));
        let j = choose|j: int| 0 <= j < flags[k].len() && !flags[k][j];
        assert(flags[m][j]);
        assert(j == ids[k]);
        assert(rosters[k]);
    }
}

/// Fan-in finalization: over any sequence of founder confirmations, in any
/// order and with any duplicates, starting with none confirmed, the roster is
/// returned at most once; when it is, every founder's confirmation has
/// arrived; and once every founder's confirmation has arrived, it has been
/// returned.
pub proof fn law_fan_in_once(flags: Seq<Seq<bool>>, ids: Seq<int>, rosters: Seq<bool>)
    requires
        fan_in_run(flags, ids, rosters),
        flags[0].len() > 0,
        forall|j: int| 0 <= j < flags[0].len() ==> !flags[0][j],
    ensures
        forall|k1: int, k2: int| 0 <= k1 < k2 < ids.len() ==> !(rosters[k1] && rosters[k2]),
        forall|k: int, j: int|
            0 <= k < ids.len() && rosters[k] && 0 <= j < flags[0].len() ==> #[trigger] arrived(
                ids,
                k + 1,
                j,
            ),
        (forall|j: int| 0 <= j < flags[0].len() ==> #[trigger] arrived(ids, ids.len() as int, j))
            ==> exists|k: int| 0 <= k < ids.len() && rosters[k],
{
    assert forall|k1: int, k2: int| 0 <= k1 < k2 < ids.len() implies !(rosters[k1]
        && rosters[k2]) by {
        if rosters[k1] {
            assert(fan_in_step(flags[k1], flags[k1 + 1], ids[k1], rosters[k1]));
            assert(fan_in_step(flags[k2], flags[k2 + 1], ids[k2], rosters[k2]));
            lemma_run_monotone(flags, ids, rosters, k1 + 1, k2);
            assert(flags[k2][ids[k2]]);
        }
    }
    assert forall|k: int, j: int|
        0 <= k < ids.len() && rosters[k] && 0 <= j < flags[0].len() implies #[trigger] arrived(
        ids,
        k + 1,
        j,
    ) by {
        assert(fan_in_step(flags[k], flags[k + 1], ids[k], rosters[k]));
        lemma_run_monotone(flags, ids, rosters, 0, k + 1);
        lemma_run_witness(flags, ids, rosters, k + 1, j);
    }
    if forall|j: int| 0 <= j < flags[0].len() ==> #[trigger] arrived(ids, ids.len() as int, j) {
        let m = ids.len() as int;
        lemma_run_monotone(flags, ids, rosters, 0, m);
        assert forall|j: int| 0 <= j < flags[m].len() implies flags[m][j] by {
            assert(arrived(ids, ids.len() as int, j));
            let t = choose|t: int| 0 <= t < ids.len() && ids[t] == j;
            assert(fan_in_step(flags[t], flags[t + 1], ids[t], rosters[t]));
            lemma_run_monotone(flags, ids, rosters, t + 1, m);
        }
        assert(!flags[0][0]);
        lemma_run_completes(flags, ids, rosters, m);
    }
}

} // verus!
