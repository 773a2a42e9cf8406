use coop_treasury::error::{ContractError, PaymentError};
use coop_treasury::ledger::{Distribution, InstantiateMsg, MemberData, QueryMsg, POINTS_SCALE};
use coop_treasury::msg::WithdrawableResp;
use coop_treasury::payment::{coin, ATOM, VOTE_DENOM};

fn ledger(price: u128, circulation: u128) -> Distribution {
    Distribution::instantiate(
        "membership".to_string(),
        InstantiateMsg { vote_token_price: price, total_vote_tokens_in_circulation: circulation },
    )
    .unwrap()
}

fn voters(list: &[(&str, u128)]) -> Vec<(String, u128)> {
    list.iter().map(|(a, w)| (a.to_string(), *w)).collect()
}

fn account(d: &Distribution, a: &str) -> MemberData {
    d.members.iter().find(|e| e.0 == a).map(|e| e.1).unwrap_or(MemberData::empty())
}

fn total_points(d: &Distribution) -> u128 {
    d.members
        .iter()
        .map(|e| e.1.reward_balance * POINTS_SCALE + e.1.points_balance)
        .sum::<u128>()
        + d.correction.points_balance
}

#[test]
fn three_equal_voters_split_a_fee_of_one_hundred() {
    let mut d = ledger(5, 0);
    let v = voters(&[("a", 1), ("b", 1), ("c", 1)]);
    d.distribute(100, 3, &v).unwrap();
    for a in ["a", "b", "c"] {
        assert_eq!(account(&d, a), MemberData { reward_balance: 33, points_balance: 33 });
    }
    assert_eq!(d.correction.points_balance, 1);
}

#[test]
fn three_rounds_carry_points_until_withdrawal() {
    let mut d = ledger(5, 0);
    let v = voters(&[("a", 1), ("b", 1), ("c", 1)]);
    for _ in 0..3 {
        d.distribute(100, 3, &v).unwrap();
    }
    assert_eq!(account(&d, "a"), MemberData { reward_balance: 99, points_balance: 99 });
    assert_eq!(d.correction.points_balance, 3);
    assert_eq!(total_points(&d), 300 * POINTS_SCALE);
    d.distribute(100, 3, &v).unwrap();
    assert_eq!(account(&d, "a"), MemberData { reward_balance: 132, points_balance: 132 });
    assert_eq!(d.withdraw(true, &"a".to_string()), Ok(133));
    assert_eq!(account(&d, "a"), MemberData { reward_balance: 0, points_balance: 32 });
}

#[test]
fn distribution_conserves_points() {
    let mut d = ledger(5, 0);
    d.distribute(77, 7, &voters(&[("a", 3), ("b", 4)])).unwrap();
    d.distribute(13, 9, &voters(&[("b", 2), ("c", 7)])).unwrap();
    assert_eq!(total_points(&d), 90 * POINTS_SCALE);
}

#[test]
fn zero_total_weight_is_invalid() {
    let mut d = ledger(5, 0);
    assert_eq!(d.distribute(100, 0, &voters(&[])), Err(ContractError::InvalidWeight));
    assert_eq!(d.correction.points_balance, 0);
}

#[test]
fn weights_beyond_the_total_are_invalid() {
    let mut d = ledger(5, 0);
    assert_eq!(d.distribute(100, 2, &voters(&[("a", 2), ("b", 1)])), Err(ContractError::InvalidWeight));
    assert!(d.members.is_empty());
}

#[test]
fn fee_too_large_for_points_overflows() {
    let mut d = ledger(5, 0);
    assert_eq!(d.distribute(u128::MAX, 1, &voters(&[("a", 1)])), Err(ContractError::Overflow));
    assert!(d.members.is_empty());
}

#[test]
fn withdraw_twice_pays_once() {
    let mut d = ledger(5, 0);
    d.distribute(100, 10, &voters(&[("a", 5), ("b", 5)])).unwrap();
    assert_eq!(d.withdraw(true, &"a".to_string()), Ok(50));
    assert_eq!(d.withdraw(true, &"a".to_string()), Ok(0));
    assert_eq!(d.withdrawable(&"a".to_string()), WithdrawableResp { funds: None });
    assert_eq!(d.withdrawable(&"b".to_string()), WithdrawableResp { funds: Some(coin(50, ATOM)) });
}

#[test]
fn withdraw_by_a_non_member_is_unauthorized() {
    let mut d = ledger(5, 0);
    d.distribute(100, 1, &voters(&[("a", 1)])).unwrap();
    assert_eq!(d.withdraw(false, &"a".to_string()), Err(ContractError::Unauthorized));
    assert_eq!(account(&d, "a").reward_balance, 100);
}

#[test]
fn buying_vote_tokens_keeps_the_change() {
    let mut d = ledger(7, 10);
    d.distribute(30, 1, &voters(&[("a", 1)])).unwrap();
    assert_eq!(d.buy_vote_tokens(true, &"a".to_string(), 100), Ok(4));
    assert_eq!(account(&d, "a"), MemberData { reward_balance: 2, points_balance: 0 });
    assert_eq!(d.total_vote_tokens_in_circulation, 14);
}

#[test]
fn buying_more_vote_tokens_than_held_is_refused() {
    let mut d = ledger(5, 10);
    d.distribute(30, 1, &voters(&[("a", 1)])).unwrap();
    assert_eq!(d.buy_vote_tokens(true, &"a".to_string(), 5), Err(ContractError::InsufficientVoteTokens));
    assert_eq!(d.buy_vote_tokens(false, &"a".to_string(), 50), Err(ContractError::Unauthorized));
    assert_eq!(account(&d, "a").reward_balance, 30);
}

#[test]
fn buying_beyond_the_circulation_limit_overflows() {
    let mut d = ledger(1, u128::MAX);
    d.distribute(3, 1, &voters(&[("a", 1)])).unwrap();
    assert_eq!(d.buy_vote_tokens(true, &"a".to_string(), 10), Err(ContractError::Overflow));
}

#[test]
fn zero_vote_token_price_is_refused() {
    let r = Distribution::instantiate(
        "membership".to_string(),
        InstantiateMsg { vote_token_price: 0, total_vote_tokens_in_circulation: 0 },
    );
    assert_eq!(r.unwrap_err(), ContractError::ZeroVoteTokenPrice);
}

#[test]
fn joining_fee_is_split_by_committed_weight() {
    let mut d = ledger(5, 0);
    let funds = vec![coin(4, VOTE_DENOM), coin(100, ATOM)];
    d.distribute_joining_fee(&funds, &voters(&[("a", 5), ("b", 3), ("c", 2)])).unwrap();
    assert_eq!(d.query(&QueryMsg::Withdrawable { proxy: "a".to_string() }), WithdrawableResp {
        funds: Some(coin(50, ATOM)),
    });
    assert_eq!(account(&d, "c").reward_balance, 20);
}

#[test]
fn joining_fee_without_settlement_coin_is_refused() {
    let mut d = ledger(5, 0);
    let r = d.distribute_joining_fee(&vec![coin(10, VOTE_DENOM)], &voters(&[("a", 1)]));
    assert_eq!(r, Err(ContractError::Payment(PaymentError::MissingDenom(ATOM.to_string()))));
}

#[test]
fn joining_fee_without_voters_is_invalid() {
    let mut d = ledger(5, 0);
    let r = d.distribute_joining_fee(&vec![coin(10, ATOM)], &voters(&[]));
    assert_eq!(r, Err(ContractError::InvalidWeight));
}

#[test]
fn with_reward_balance_replaces_the_balance() {
    let d = MemberData { reward_balance: 3, points_balance: 7 }.with_reward_balance(11);
    assert_eq!(d, MemberData { reward_balance: 11, points_balance: 7 });
}

#[test]
fn joining_fee_rounds_match_the_direct_split() {
    let mut d = ledger(5, 0);
    let v = voters(&[("a", 1), ("b", 1), ("c", 1)]);
    for _ in 0..3 {
        d.distribute_joining_fee(&vec![coin(100, ATOM)], &v).unwrap();
    }
    assert_eq!(account(&d, "b"), MemberData { reward_balance: 99, points_balance: 99 });
    assert_eq!(d.correction.points_balance, 3);
}
