use coop_treasury::error::{ContractError, PaymentError};
use coop_treasury::payment::{coin, Coin, ATOM, VOTE_DENOM};
use coop_treasury::proposal::{InstantiateMsg, Proposal};

fn s(x: &str) -> String {
    x.to_string()
}

fn votes(n: u128) -> Vec<Coin> {
    vec![coin(n, VOTE_DENOM)]
}

fn proposal() -> Proposal {
    let msg = InstantiateMsg {
        proposer: s("pa"),
        proposed_owner: s("x"),
        distribution_contract: s("dist"),
        membership_contract: s("membership"),
        joining_fee: coin(30, ATOM),
    };
    Proposal::instantiate(msg, &votes(5)).unwrap()
}

#[test]
fn the_proposer_tokens_are_the_first_vote() {
    let p = proposal();
    assert_eq!(p.voter_tokens, vec![(s("pa"), 5)]);
    assert_eq!(p.total_votes, 5);
    assert!(!p.is_passed);
}

#[test]
fn a_proposal_needs_vote_tokens() {
    let msg = InstantiateMsg {
        proposer: s("pa"),
        proposed_owner: s("x"),
        distribution_contract: s("dist"),
        membership_contract: s("membership"),
        joining_fee: coin(30, ATOM),
    };
    let r = Proposal::instantiate(msg, &vec![coin(5, ATOM)]);
    assert_eq!(r.unwrap_err(), ContractError::Payment(PaymentError::MissingDenom(s(VOTE_DENOM))));
}

#[test]
fn revoting_adds_to_the_tally() {
    let mut p = proposal();
    let n = p.vote(&s("b"), &s("pb"), &votes(3)).unwrap();
    assert_eq!(n.committed, 8);
    assert_eq!(n.voter_proxy, s("pb"));
    let n = p.vote(&s("b"), &s("pb"), &votes(2)).unwrap();
    assert_eq!(n.committed, 10);
    assert_eq!(p.voter_tokens, vec![(s("pa"), 5), (s("pb"), 5)]);
}

#[test]
fn votes_after_passing_are_rejected() {
    let mut p = proposal();
    assert_eq!(p.pass(&s("pa")), Err(ContractError::Unauthorized));
    p.pass(&s("membership")).unwrap();
    assert!(p.is_passed);
    assert_eq!(p.vote(&s("b"), &s("pb"), &votes(3)), Err(ContractError::VoteRejectedProposalWasPassedEarlier));
    assert_eq!(p.total_votes, 5);
}

#[test]
fn a_vote_overflowing_the_tally_is_refused() {
    let mut p = proposal();
    assert_eq!(p.vote(&s("b"), &s("pb"), &votes(u128::MAX)), Err(ContractError::Overflow));
}

#[test]
fn join_checks_fee_candidate_and_pass() {
    let mut p = proposal();
    assert_eq!(p.join(&s("x"), &vec![coin(29, ATOM)]).unwrap_err(), ContractError::JoinRejected);
    assert_eq!(p.join(&s("x"), &votes(30)).unwrap_err(), ContractError::Payment(PaymentError::MissingDenom(s(ATOM))));
    assert_eq!(p.join(&s("y"), &vec![coin(30, ATOM)]).unwrap_err(), ContractError::Unauthorized);
    assert_eq!(p.join(&s("x"), &vec![coin(30, ATOM)]).unwrap_err(), ContractError::ProposalNotPassed);
    p.vote(&s("b"), &s("pb"), &votes(3)).unwrap();
    p.pass(&s("membership")).unwrap();
    let order = p.join(&s("x"), &vec![coin(100, ATOM)]).unwrap();
    assert_eq!(order.new_member_vote_tokens, 8);
    assert_eq!(order.fee, coin(100, ATOM));
    assert_eq!(order.voter_tokens, vec![(s("pa"), 5), (s("pb"), 3)]);
}
