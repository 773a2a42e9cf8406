use coop_treasury::custody::{self, Custody, Relay};
use coop_treasury::ledger::{self, Distribution};
use coop_treasury::membership::{self, Membership, ReplyKind};
use coop_treasury::msg::{InstantiationData, ProposalMemberData, ProxyMemberData, WithdrawableResp};
use coop_treasury::payment::{coin, Coin, Share, ATOM, VOTE_DENOM};
use coop_treasury::proposal::{self, Proposal};

/// A host for the components: a bank, the components' states by address, and
/// the routing of each request and reply between them.
struct World {
    bank: Vec<(String, String, u128)>,
    membership_addr: String,
    membership: Option<Membership>,
    distribution_addr: String,
    distribution: Option<Distribution>,
    proposals: Vec<(String, Proposal)>,
    custodies: Vec<(String, Custody)>,
}

fn coins(amount: u128, denom: &str) -> Vec<Coin> {
    vec![coin(amount, denom)]
}

fn protobuf_address(addr: &str) -> Option<Vec<u8>> {
    let mut data = vec![0x0a, addr.len() as u8];
    data.extend_from_slice(addr.as_bytes());
    Some(data)
}

impl World {
    fn new(initial: &[(&str, u128, &str)]) -> World {
        let mut w = World {
            bank: Vec::new(),
            membership_addr: "membership".to_string(),
            membership: None,
            distribution_addr: "distribution".to_string(),
            distribution: None,
            proposals: Vec::new(),
            custodies: Vec::new(),
        };
        for (addr, amount, denom) in initial {
            w.mint(addr, *amount, denom);
        }
        w
    }

    fn mint(&mut self, addr: &str, amount: u128, denom: &str) {
        for entry in self.bank.iter_mut() {
            if entry.0 == addr && entry.1 == denom {
                entry.2 += amount;
                return;
            }
        }
        self.bank.push((addr.to_string(), denom.to_string(), amount));
    }

    fn balance(&self, addr: &str, denom: &str) -> Coin {
        let amount = self
            .bank
            .iter()
            .find(|e| e.0 == addr && e.1 == denom)
            .map(|e| e.2)
            .unwrap_or(0);
        coin(amount, denom)
    }

    fn send(&mut self, from: &str, to: &str, funds: &[Coin]) {
        for c in funds {
            let entry = self
                .bank
                .iter_mut()
                .find(|e| e.0 == from && e.1 == c.denom)
                .expect("no balance");
            assert!(entry.2 >= c.amount, "insufficient funds");
            entry.2 -= c.amount;
            self.mint(to, c.amount, &c.denom);
        }
    }

    fn membership(&mut self) -> &mut Membership {
        self.membership.as_mut().unwrap()
    }

    fn distribution(&mut self) -> &mut Distribution {
        self.distribution.as_mut().unwrap()
    }

    fn custody(&self, addr: &str) -> &Custody {
        &self.custodies.iter().find(|c| c.0 == addr).unwrap().1
    }

    fn proposal(&mut self, addr: &str) -> &mut Proposal {
        &mut self.proposals.iter_mut().find(|p| p.0 == addr).unwrap().1
    }

    /// Creates a custody account for `owner` funded with `vote_tokens`, which
    /// it hands on to the owner.
    fn create_custody(&mut self, owner: &str, vote_tokens: u128) -> String {
        let addr = format!("proxy{}", self.custodies.len() + 1);
        self.send(&self.membership_addr.clone(), &addr, &coins(vote_tokens, VOTE_DENOM));
        let msg = custody::InstantiateMsg {
            owner: owner.to_string(),
            distribution_contract: self.distribution_addr.clone(),
            membership_contract: self.membership_addr.clone(),
        };
        let (c, forward) = Custody::instantiate(msg, vote_tokens);
        self.send(&addr, owner, &[forward]);
        self.custodies.push((addr.clone(), c));
        addr
    }

    fn instantiate_membership(
        &mut self,
        sender: &str,
        part: Share,
        vote_token_price: Coin,
        joining_fee: Coin,
        members: &[&str],
        funds: &[Coin],
    ) -> Result<InstantiationData, coop_treasury::error::ContractError> {
        let msg = membership::InstantiateMsg {
            initial_vote_token_distribution_part: part,
            vote_token_price,
            joining_fee,
            proxy_code_id: 1,
            proposal_code_id: 2,
            distribution_code_id: 3,
            initial_members: members.iter().map(|m| m.to_string()).collect(),
        };
        let funds = funds.to_vec();
        let (m, init) = Membership::instantiate(msg, &funds)?;
        self.send(sender, &self.membership_addr.clone(), &funds);
        self.membership = Some(m);
        let d = Distribution::instantiate(
            self.membership_addr.clone(),
            ledger::InstantiateMsg {
                vote_token_price: init.vote_token_price,
                total_vote_tokens_in_circulation: init.total_vote_tokens_in_circulation,
            },
        )?;
        self.distribution = Some(d);
        assert_eq!(membership::reply_kind(init.reply_id), Ok(ReplyKind::DistributionInstantiated));
        let balance = self.balance(&self.membership_addr, VOTE_DENOM).amount;
        let data = protobuf_address(&self.distribution_addr.clone());
        let fan_out = self.membership().distribution_instantiated_reply(&data, balance)?;
        self.send(
            &self.membership_addr.clone(),
            &self.distribution_addr.clone(),
            &coins(fan_out.to_distribution, VOTE_DENOM),
        );
        let mut roster = None;
        // Confirmations arrive in reverse order of the requests.
        let mut created = Vec::new();
        for init in fan_out.proxies.iter() {
            created.push((init.reply_id, self.create_custody(&init.owner, init.vote_tokens)));
        }
        for (reply_id, addr) in created.iter().rev() {
            let kind = membership::reply_kind(*reply_id)?;
            assert!(matches!(kind, ReplyKind::InitialProxyInstantiated(_)));
            if let Some(r) = self.membership().initial_proxy_instantiated_reply(*reply_id, &protobuf_address(addr))? {
                assert!(roster.is_none());
                roster = Some(r);
            }
        }
        Ok(roster.expect("roster"))
    }

    fn propose_member(
        &mut self,
        proxy: &str,
        sender: &str,
        funds: &[Coin],
        candidate: &str,
    ) -> Result<ProposalMemberData, coop_treasury::error::ContractError> {
        let funds = funds.to_vec();
        let relay = self.custody(proxy).propose_member(&sender.to_string(), &funds, &candidate.to_string())?;
        self.send(sender, proxy, &funds);
        let Relay::ProposeMember { addr, vote_tokens, .. } = relay else { panic!("relay") };
        let proxy_funds = coins(vote_tokens, VOTE_DENOM);
        let init = self.membership().propose_member(&proxy.to_string(), &proxy_funds, &addr)?;
        self.send(proxy, &self.membership_addr.clone(), &proxy_funds);
        let proposal_addr = format!("proposal{}", self.proposals.len() + 1);
        let msg = proposal::InstantiateMsg {
            proposer: init.proposer.clone(),
            proposed_owner: init.proposed_owner.clone(),
            distribution_contract: init.distribution_contract.clone(),
            membership_contract: self.membership_addr.clone(),
            joining_fee: init.joining_fee.clone(),
        };
        let p = Proposal::instantiate(msg, &coins(init.vote_tokens, VOTE_DENOM))?;
        self.send(&self.membership_addr.clone(), &proposal_addr, &coins(init.vote_tokens, VOTE_DENOM));
        self.proposals.push((proposal_addr.clone(), p));
        let owner = init.proposed_owner.clone();
        self.membership().proposal_instantiated_reply(&protobuf_address(&proposal_addr), &owner)
    }

    fn vote(&mut self, proposal_addr: &str, sender: &str, funds: &[Coin]) -> Result<(), coop_treasury::error::ContractError> {
        let funds = funds.to_vec();
        let voter_proxy = self.membership().owner_proxy(&sender.to_string())?.proxy;
        let notice = self.proposal(proposal_addr).vote(&sender.to_string(), &voter_proxy, &funds)?;
        self.send(sender, proposal_addr, &funds);
        let total = self.distribution().total_vote_tokens_in_circulation;
        let passed = self.membership().vote_member_proposal(
            &proposal_addr.to_string(),
            &notice.voter,
            &notice.voter_proxy,
            notice.committed,
            total,
        )?;
        if passed {
            let membership_addr = self.membership_addr.clone();
            self.proposal(proposal_addr).pass(&membership_addr)?;
        }
        Ok(())
    }

    fn join(&mut self, proposal_addr: &str, sender: &str, funds: &[Coin]) -> Result<ProxyMemberData, coop_treasury::error::ContractError> {
        let funds = funds.to_vec();
        let order = self.proposal(proposal_addr).join(&sender.to_string(), &funds)?;
        self.send(sender, proposal_addr, &funds);
        let vote_funds = coins(order.new_member_vote_tokens, VOTE_DENOM);
        let init = self.membership().new_member(&proposal_addr.to_string(), &vote_funds)?;
        self.send(proposal_addr, &self.membership_addr.clone(), &vote_funds);
        let proxy = self.create_custody(&init.owner, init.vote_tokens);
        let data = self.membership().proxy_instantiated_reply(&protobuf_address(&proxy), &init.owner)?;
        let fee = vec![order.fee.clone()];
        self.distribution().distribute_joining_fee(&fee, &order.voter_tokens)?;
        self.send(proposal_addr, &self.distribution_addr.clone(), &fee);
        Ok(data)
    }

    fn is_member(&mut self, proxy: &str) -> bool {
        self.membership().is_member(&proxy.to_string()).ok
    }

    fn withdrawable(&mut self, proxy: &str) -> WithdrawableResp {
        self.distribution().withdrawable(&proxy.to_string())
    }

    fn withdraw(&mut self, proxy: &str, sender: &str) -> Result<(), coop_treasury::error::ContractError> {
        let relay = self.custody(proxy).withdraw(&sender.to_string())?;
        assert!(matches!(relay, Relay::Withdraw { .. }));
        let is_member = self.is_member(proxy);
        let payout = self.distribution().withdraw(is_member, &proxy.to_string())?;
        if payout > 0 {
            self.send(&self.distribution_addr.clone(), proxy, &coins(payout, ATOM));
        }
        let balance = self.balance(proxy, ATOM).amount;
        if let Some(c) = self.custody(proxy).forward_to_owner(custody::ReplyKind::Withdraw, balance) {
            self.send(proxy, sender, &[c]);
        }
        Ok(())
    }

    fn buy_vote_tokens(&mut self, proxy: &str, sender: &str) -> Result<(), coop_treasury::error::ContractError> {
        let relay = self.custody(proxy).buy_vote_tokens(&sender.to_string())?;
        assert!(matches!(relay, Relay::BuyVoteTokens { .. }));
        let is_member = self.is_member(proxy);
        let available = self.balance(&self.distribution_addr, VOTE_DENOM).amount;
        let votes = self.distribution().buy_vote_tokens(is_member, &proxy.to_string(), available)?;
        if votes > 0 {
            self.send(&self.distribution_addr.clone(), proxy, &coins(votes, VOTE_DENOM));
        }
        let balance = self.balance(proxy, VOTE_DENOM).amount;
        if let Some(c) = self.custody(proxy).forward_to_owner(custody::ReplyKind::BuyVoteTokens, balance) {
            self.send(proxy, sender, &[c]);
        }
        Ok(())
    }
}

fn proxies_by_owner(data: InstantiationData) -> std::collections::HashMap<String, String> {
    data.members.into_iter().map(|m| (m.owner_addr, m.proxy_addr)).collect()
}

#[test]
fn sample_member_vote_flow_from_exercise() {
    let members = ["member1", "member2", "member3"];
    let mut app = World::new(&[("admin", 100, VOTE_DENOM), ("candidate", 100, ATOM)]);

    let data = app
        .instantiate_membership(
            "admin",
            Share::percent(19),
            coin(5, ATOM),
            coin(30, ATOM),
            &members,
            &coins(100, VOTE_DENOM),
        )
        .unwrap();

    let proxies = proxies_by_owner(data);
    assert_eq!(proxies.len(), 3);
    let member1_proxy = proxies.get(members[0]).unwrap().clone();
    let member2_proxy = proxies.get(members[1]).unwrap().clone();
    let member3_proxy = proxies.get(members[2]).unwrap().clone();

    assert!(app.is_member(&member1_proxy));
    assert!(app.is_member(&member2_proxy));

    assert_eq!(app.balance("member1", VOTE_DENOM), coin(6, VOTE_DENOM));
    assert_eq!(app.balance("member2", VOTE_DENOM), coin(6, VOTE_DENOM));
    assert_eq!(app.balance("member3", VOTE_DENOM), coin(6, VOTE_DENOM));

    let proposal_data = app
        .propose_member(&member1_proxy, "member1", &coins(5, VOTE_DENOM), "candidate")
        .unwrap();
    assert_eq!(proposal_data.owner_addr, "candidate".to_string());
    let candidate_proposal = proposal_data.proposal_addr;

    assert_eq!(app.balance(&candidate_proposal, VOTE_DENOM), coin(5, VOTE_DENOM));

    app.vote(&candidate_proposal, "member2", &coins(3, VOTE_DENOM)).unwrap();
    assert_eq!(app.balance(&candidate_proposal, VOTE_DENOM), coin(8, VOTE_DENOM));

    app.vote(&candidate_proposal, "member3", &coins(2, VOTE_DENOM)).unwrap();
    assert_eq!(app.balance(&candidate_proposal, VOTE_DENOM), coin(10, VOTE_DENOM));

    let candidate_proxy_data = app.join(&candidate_proposal, "candidate", &coins(100, ATOM)).unwrap();
    assert!(app.is_member(&candidate_proxy_data.proxy_addr));

    assert_eq!(app.balance("candidate", VOTE_DENOM), coin(10, VOTE_DENOM));

    assert_eq!(app.withdrawable(&member1_proxy), WithdrawableResp { funds: Some(coin(50, ATOM)) });
    assert_eq!(app.withdrawable(&member2_proxy), WithdrawableResp { funds: Some(coin(30, ATOM)) });
    assert_eq!(app.withdrawable(&member3_proxy), WithdrawableResp { funds: Some(coin(20, ATOM)) });

    app.withdraw(&member1_proxy, "member1").unwrap();
    assert_eq!(app.balance("member1", ATOM), coin(50, ATOM));
    assert_eq!(app.withdrawable(&member1_proxy), WithdrawableResp { funds: None });
    assert_eq!(app.balance("distribution", ATOM), coin(50, ATOM));

    app.buy_vote_tokens(&member2_proxy, "member2").unwrap();
    assert_eq!(app.balance("member2", VOTE_DENOM), coin(9, VOTE_DENOM));
    assert_eq!(app.withdrawable(&member2_proxy), WithdrawableResp { funds: None });
    assert_eq!(app.balance("distribution", ATOM), coin(50, ATOM));

    assert_eq!(
        coin(app.distribution().total_vote_tokens_in_circulation, VOTE_DENOM),
        coin(25, VOTE_DENOM)
    );
    assert_eq!(app.balance("distribution", VOTE_DENOM), coin(76, VOTE_DENOM));
}

#[test]
fn member_vote_flow_with_rewards_and_vote_tokens_buy() {
    let members = ["alice", "bob"];
    let mut app = World::new(&[("admin", 100, VOTE_DENOM), ("charlie", 30, ATOM)]);

    let data = app
        .instantiate_membership(
            "admin",
            Share::percent(10),
            coin(5, ATOM),
            coin(30, ATOM),
            &members,
            &coins(100, VOTE_DENOM),
        )
        .unwrap();

    let proxies = proxies_by_owner(data);
    assert_eq!(proxies.len(), 2);
    let alice_proxy = proxies.get(members[0]).unwrap().clone();
    let bob_proxy = proxies.get(members[1]).unwrap().clone();

    assert!(app.is_member(&alice_proxy));
    assert!(app.is_member(&bob_proxy));

    assert_eq!(app.balance("alice", VOTE_DENOM), coin(5, VOTE_DENOM));
    assert_eq!(app.balance("bob", VOTE_DENOM), coin(5, VOTE_DENOM));

    let proposal_data = app
        .propose_member(&alice_proxy, "alice", &coins(3, VOTE_DENOM), "charlie")
        .unwrap();
    assert_eq!(proposal_data.owner_addr, "charlie".to_string());
    let charlie_proposal = proposal_data.proposal_addr;

    assert_eq!(app.balance(&charlie_proposal, VOTE_DENOM), coin(3, VOTE_DENOM));

    app.vote(&charlie_proposal, "bob", &coins(3, VOTE_DENOM)).unwrap();
    assert_eq!(app.balance(&charlie_proposal, VOTE_DENOM), coin(6, VOTE_DENOM));

    let charlie_proxy_data = app.join(&charlie_proposal, "charlie", &coins(30, ATOM)).unwrap();
    assert!(app.is_member(&charlie_proxy_data.proxy_addr));

    assert_eq!(app.balance("charlie", VOTE_DENOM), coin(6, VOTE_DENOM));

    assert_eq!(app.withdrawable(&alice_proxy), WithdrawableResp { funds: Some(coin(15, ATOM)) });
    assert_eq!(app.withdrawable(&bob_proxy), WithdrawableResp { funds: Some(coin(15, ATOM)) });

    app.withdraw(&alice_proxy, "alice").unwrap();
    assert_eq!(app.balance("alice", ATOM), coin(15, ATOM));
    assert_eq!(app.withdrawable(&alice_proxy), WithdrawableResp { funds: None });
    assert_eq!(app.balance("distribution", ATOM), coin(15, ATOM));

    app.buy_vote_tokens(&bob_proxy, "bob").unwrap();
    assert_eq!(app.balance("bob", VOTE_DENOM), coin(5, VOTE_DENOM));
    assert_eq!(app.withdrawable(&bob_proxy), WithdrawableResp { funds: None });
    assert_eq!(app.balance("distribution", ATOM), coin(15, ATOM));

    assert_eq!(
        coin(app.distribution().total_vote_tokens_in_circulation, VOTE_DENOM),
        coin(13, VOTE_DENOM)
    );
}
