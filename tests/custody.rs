use coop_treasury::custody::{reply_kind, Custody, ExecMsg, InstantiateMsg, Relay, ReplyKind};
use coop_treasury::error::{ContractError, PaymentError};
use coop_treasury::payment::{coin, ATOM, VOTE_DENOM};

fn s(x: &str) -> String {
    x.to_string()
}

fn account() -> Custody {
    let msg = InstantiateMsg { owner: s("alice"), distribution_contract: s("dist"), membership_contract: s("membership") };
    let (c, forward) = Custody::instantiate(msg, 6);
    assert_eq!(forward, coin(6, VOTE_DENOM));
    c
}

#[test]
fn only_the_owner_acts() {
    let c = account();
    assert_eq!(c.withdraw(&s("bob")), Err(ContractError::Unauthorized));
    assert_eq!(c.buy_vote_tokens(&s("bob")), Err(ContractError::Unauthorized));
    assert_eq!(c.propose_member(&s("bob"), &vec![coin(2, VOTE_DENOM)], &s("x")), Err(ContractError::Unauthorized));
}

#[test]
fn requests_are_relayed() {
    let c = account();
    assert_eq!(
        c.execute(&s("alice"), &vec![coin(2, VOTE_DENOM)], &ExecMsg::ProposeMember { addr: s("x") }),
        Ok(Relay::ProposeMember { membership: s("membership"), addr: s("x"), vote_tokens: 2, reply_id: 1 })
    );
    assert_eq!(c.execute(&s("alice"), &vec![], &ExecMsg::Withdraw), Ok(Relay::Withdraw { distribution: s("dist"), reply_id: 2 }));
    assert_eq!(
        c.execute(&s("alice"), &vec![], &ExecMsg::BuyVoteTokens),
        Ok(Relay::BuyVoteTokens { distribution: s("dist"), reply_id: 3 })
    );
    assert_eq!(
        c.propose_member(&s("alice"), &vec![coin(2, ATOM)], &s("x")),
        Err(ContractError::Payment(PaymentError::MissingDenom(s(VOTE_DENOM))))
    );
}

#[test]
fn returned_funds_go_to_the_owner() {
    let c = account();
    assert_eq!(c.forward_to_owner(ReplyKind::Withdraw, 15), Some(coin(15, ATOM)));
    assert_eq!(c.forward_to_owner(ReplyKind::BuyVoteTokens, 3), Some(coin(3, VOTE_DENOM)));
    assert_eq!(c.forward_to_owner(ReplyKind::Withdraw, 0), None);
    assert_eq!(c.forward_to_owner(ReplyKind::ProposeMember, 4), None);
}

#[test]
fn custody_reply_tags_are_routed() {
    assert_eq!(reply_kind(1), Ok(ReplyKind::ProposeMember));
    assert_eq!(reply_kind(2), Ok(ReplyKind::Withdraw));
    assert_eq!(reply_kind(3), Ok(ReplyKind::BuyVoteTokens));
    assert_eq!(reply_kind(9), Err(ContractError::UnrecognizedReplyId(9)));
}
