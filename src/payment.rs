use vstd::prelude::*;

use crate::error::PaymentError;

verus! {

/// The denomination of voting weight.
pub const VOTE_DENOM: &'static str = "vote";

/// The denomination of the settlement currency in which fees are paid.
pub const ATOM: &'static str = "atom";

/// An amount of one denomination.
#[derive(Debug, Clone, PartialEq, Eq)]
pub struct Coin {
    pub denom: String,
    pub amount: u128,
}

/// Builds a coin.
pub fn coin(amount: u128, denom: &str) -> (r: Coin)
    ensures
        r.amount == amount,
        r.denom@ == denom@,
{
    Coin { denom: denom.to_owned(), amount }
}

impl Coin {
    /// A copy of the coin.
    pub fn copied(&self) -> (r: Coin)
        ensures
            r == *self,
    {
        Coin { denom: self.denom.clone(), amount: self.amount }
    }
}

/// The fixed-point unit of a `Share`: one whole is this many atomics.
pub const DECIMAL_FRACTIONAL: u128 = 1_000_000_000_000_000_000;

/// A non-negative fraction with eighteen decimal places, held as its atomics.
#[derive(Debug, Clone, Copy, PartialEq, Eq)]
pub struct Share {
    pub atomics: u128,
}

impl Share {
    /// `x` percent.
    pub fn percent(x: u64) -> (r: Share)
        ensures
            r.atomics == x * 10_000_000_000_000_000,
    {
        Share { atomics: x as u128 * 10_000_000_000_000_000 }
    }
}

/// Relies on cosmwasm_std's `Uint128 * Decimal`: the floor of `amount` times the
/// fraction, computed without intermediate overflow; a fraction of at most one
/// keeps the result within `amount`, so it does not panic.
#[verifier::external_body]
pub(crate) fn apply_share(amount: u128, share: Share) -> (r: u128)
    requires
        share.atomics <= DECIMAL_FRACTIONAL,
    ensures
        r == amount * share.atomics / DECIMAL_FRACTIONAL as int,
{
    let part = cosmwasm_std::Decimal::new(cosmwasm_std::Uint128::new(share.atomics));
    (cosmwasm_std::Uint128::new(amount) * part).u128()
}

/// `must_pay` accepts exactly one non-zero coin, of the required denomination.
pub open spec fn pays_exactly(funds: Seq<Coin>, denom: Seq<char>) -> bool {
    funds.len() == 1 && funds[0].amount != 0 && funds[0].denom@ == denom
}

/// The refusal that `must_pay` gives where `pays_exactly` does not hold.
pub open spec fn is_payment_refusal(funds: Seq<Coin>, denom: Seq<char>, e: PaymentError) -> bool {
    if funds.len() == 0 || (funds.len() == 1 && funds[0].amount == 0) {
        e == PaymentError::NoFunds
    } else if funds.len() > 1 {
        e == PaymentError::MultipleDenoms
    } else {
        match e {
            PaymentError::MissingDenom(d) => d@ == denom,
            _ => false,
        }
    }
}

/// Relies on cw_utils::must_pay: it accepts exactly one coin of non-zero amount
/// and of the given denomination and returns its amount; otherwise `NoFunds` for
/// no coin or a zero one, `MultipleDenoms` for two or more, else `MissingDenom`.
#[verifier::external_body]
pub(crate) fn must_pay(funds: &Vec<Coin>, denom: &str) -> (r: Result<u128, PaymentError>)
    ensures
        pays_exactly(funds@, denom@) <==> r is Ok,
        r is Ok ==> r->Ok_0 == funds@[0].amount,
        r is Err ==> is_payment_refusal(funds@, denom@, r->Err_0),
{
    let info = cosmwasm_std::MessageInfo {
        sender: cosmwasm_std::Addr::unchecked(""),
        funds: funds.iter().map(|c| cosmwasm_std::Coin::new(c.amount, c.denom.clone())).collect(),
    };
    match cw_utils::must_pay(&info, denom) {
        Ok(a) => Ok(a.u128()),
        Err(cw_utils::PaymentError::MissingDenom(d)) => Err(PaymentError::MissingDenom(d)),
        Err(cw_utils::PaymentError::ExtraDenom(d)) => Err(PaymentError::ExtraDenom(d)),
        Err(cw_utils::PaymentError::MultipleDenoms {}) => Err(PaymentError::MultipleDenoms),
        Err(cw_utils::PaymentError::NoFunds {}) => Err(PaymentError::NoFunds),
        Err(cw_utils::PaymentError::NonPayable {}) => Err(PaymentError::NonPayable),
    }
}

} // verus!

verus! {

/// The amount of the first coin of denomination `d`.
pub open spec fn amount_of(funds: Seq<Coin>, d: Seq<char>) -> Option<u128>
    decreases funds.len(),
{
    if funds.len() == 0 {
        None
    } else if funds[0].denom@ == d {
        Some(funds[0].amount)
    } else {
        amount_of(funds.skip(1), d)
    }
}

proof fn lemma_amount_of_first(funds: Seq<Coin>, d: Seq<char>, i: int)
    requires
        0 <= i <= funds.len(),
        forall|j: int| 0 <= j < i ==> funds[j].denom@ != d,
    ensures
        i < funds.len() && funds[i].denom@ == d ==> amount_of(funds, d) == Some(funds[i].amount),
        i == funds.len() ==> amount_of(funds, d) is None,
    decreases i,
{
    if i > 0 {
        let t = funds.skip(1);
        assert forall|j: int| 0 <= j < i - 1 implies t[j].denom@ != d by {
            assert(t[j] == funds[j + 1]);
        }
        lemma_amount_of_first(t, d, i - 1);
        if i < funds.len() {
            assert(t[i - 1] == funds[i]);
        }
    }
}

/// The amount of the first coin of denomination `d`, if one was sent.
pub fn find_denom(funds: &Vec<Coin>, d: &str) -> (r: Option<u128>)
    ensures
        r == amount_of(funds@, d@),
{
    let ds = d.to_owned();
    let mut i: usize = 0;
    while i < funds.len()
        invariant
            i <= funds@.len(),
            ds@ == d@,
            forall|j: int| 0 <= j < i ==> funds@[j].denom@ != d@,
        decreases funds@.len() - i,
    {
        if funds[i].denom == ds {
            proof {
                lemma_amount_of_first(funds@, d@, i as int);
            }
            return Some(funds[i].amount);
        }
        i += 1;
    }
    proof {
        lemma_amount_of_first(funds@, d@, i as int);
    }
    None
}

} // verus!
