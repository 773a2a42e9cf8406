//! The fee-distribution ledger: splits integer fee amounts among recipients in
//! proportion to integer weights, keeping every sub-unit of value as points.
use vstd::prelude::*;
use vstd::arithmetic::div_mod::lemma_fundamental_div_mod;
use vstd::arithmetic::mul::lemma_mul_inequality;

use crate::error::{missing_denom, ContractError, PaymentError};
use crate::msg::WithdrawableResp;
use crate::payment::{amount_of, find_denom, Coin, ATOM};
use crate::table::{copy_table, find_key, keys_unique, lemma_lookup_push, lemma_lookup_update, lookup};

verus! {

/// Points per unit of settlement currency.
pub const POINTS_SCALE: u128 = 100;

/// A recipient's account: whole units ready to withdraw, and points not yet
/// worth a whole unit.
#[derive(Debug, Clone, Copy, PartialEq, Eq)]
pub struct MemberData {
    pub reward_balance: u128,
    pub points_balance: u128,
}

/// Points that no single recipient could be credited with.
#[derive(Debug, Clone, Copy, PartialEq, Eq)]
pub struct Correction {
    pub points_balance: u128,
}

impl MemberData {
    /// An account with nothing in it.
    pub fn empty() -> (r: MemberData)
        ensures
            r == zero_member(),
    {
        MemberData { reward_balance: 0, points_balance: 0 }
    }

    /// The same account with its reward balance replaced.
    pub fn with_reward_balance(self, bal: u128) -> (r: MemberData)
        ensures
            r.reward_balance == bal,
            r.points_balance == self.points_balance,
    {
        MemberData { reward_balance: bal, ..self }
    }
}

pub open spec fn zero_member() -> MemberData {
    MemberData { reward_balance: 0, points_balance: 0 }
}

/// What an account is worth, in points.
pub open spec fn points_of(d: MemberData) -> int {
    d.reward_balance * POINTS_SCALE + d.points_balance
}

/// What a withdrawal of the account pays out: its balance and its whole units of points.
pub open spec fn payable(d: MemberData) -> int {
    d.reward_balance + d.points_balance as int / POINTS_SCALE as int
}

/// An account whose pay-out fits the integer type.
pub open spec fn account_fits(d: MemberData) -> bool {
    payable(d) <= u128::MAX
}

/// The account of address `a`; an address never credited has an empty one.
pub open spec fn member_of(s: Seq<(String, MemberData)>, a: Seq<char>) -> MemberData {
    match lookup(s, a) {
        Some(d) => d,
        None => zero_member(),
    }
}

/// The value held by all accounts, in points.
pub open spec fn ledger_points(s: Seq<(String, MemberData)>) -> int
    decreases s.len(),
{
    if s.len() == 0 {
        0
    } else {
        ledger_points(s.drop_last()) + points_of(s.last().1)
    }
}

/// The sum of the weights of a distribution.
pub open spec fn weight_sum(v: Seq<(String, u128)>) -> int
    decreases v.len(),
{
    if v.len() == 0 {
        0
    } else {
        weight_sum(v.drop_last()) + v.last().1
    }
}

/// No recipient of a distribution is named twice.
pub open spec fn voters_distinct(v: Seq<(String, u128)>) -> bool {
    forall|i: int, j: int| 0 <= i < j < v.len() ==> v[i].0@ != v[j].0@
}

/// Points given to each unit of weight when `fee` is split over `total_weight`.
pub open spec fn points_per_weight(fee: int, total_weight: int) -> int {
    fee * POINTS_SCALE / total_weight
}

/// The account `d` after a credit of `w * ppw` points: whole units to the
/// balance, the rest to the points.
pub open spec fn credited(d: MemberData, w: int, ppw: int) -> MemberData {
    MemberData {
        reward_balance: (d.reward_balance + (w * ppw) / POINTS_SCALE as int) as u128,
        points_balance: (d.points_balance + (w * ppw) % POINTS_SCALE as int) as u128,
    }
}

/// The credit of `w * ppw` points to `d` stays within the integer type.
pub open spec fn credit_fits(d: MemberData, w: int, ppw: int) -> bool {
    &&& w * ppw <= u128::MAX
    &&& d.points_balance + (w * ppw) % POINTS_SCALE as int <= u128::MAX
    &&& d.reward_balance + (w * ppw) / POINTS_SCALE as int + (d.points_balance + (w * ppw)
        % POINTS_SCALE as int) / POINTS_SCALE as int <= u128::MAX
}

/// The account after settlement: whole units of points join the pay-out, which
/// leaves the balance.
pub open spec fn settled(d: MemberData) -> MemberData {
    MemberData { reward_balance: 0, points_balance: d.points_balance % POINTS_SCALE }
}

proof fn lemma_points_push(s: Seq<(String, MemberData)>, e: (String, MemberData))
    ensures
        ledger_points(s.push(e)) == ledger_points(s) + points_of(e.1),
{
    assert(s.push(e).drop_last() =~= s);
}

proof fn lemma_points_update(s: Seq<(String, MemberData)>, i: int, e: (String, MemberData))
    requires
        0 <= i < s.len(),
    ensures
        ledger_points(s.update(i, e)) == ledger_points(s) - points_of(s[i].1) + points_of(e.1),
    decreases s.len(),
{
    let u = s.update(i, e);
    if i < s.len() - 1 {
        assert(u.drop_last() =~= s.drop_last().update(i, e));
        lemma_points_update(s.drop_last(), i, e);
    } else {
        assert(u.drop_last() =~= s.drop_last());
    }
}

proof fn lemma_credit_points(d: MemberData, w: int, ppw: int)
    requires
        credit_fits(d, w, ppw),
        w >= 0,
        ppw >= 0,
    ensures
        points_of(credited(d, w, ppw)) == points_of(d) + w * ppw,
        account_fits(credited(d, w, ppw)),
{
    lemma_fundamental_div_mod(w * ppw, POINTS_SCALE as int);
    assert(0 <= w * ppw) by (nonlinear_arith)
        requires
            w >= 0,
            ppw >= 0,
    ;
}

} // verus!

verus! {

/// Credits `w * ppw` points to the account of `a`, opening it if needed.
/// Returns false, and changes nothing, where the credit would overflow.
fn credit_account(members: &mut Vec<(String, MemberData)>, a: &String, w: u128, ppw: u128) -> (ok:
    bool)
    requires
        keys_unique(old(members)@),
    ensures
        keys_unique(final(members)@),
        ok == credit_fits(member_of(old(members)@, a@), w as int, ppw as int),
        !ok ==> final(members)@ == old(members)@,
        ok ==> lookup(final(members)@, a@) == Some(
            credited(member_of(old(members)@, a@), w as int, ppw as int),
        ),
        ok ==> forall|b: Seq<char>| b != a@ ==> lookup(final(members)@, b) == lookup(old(members)@, b),
        ok ==> ledger_points(final(members)@) == ledger_points(old(members)@) + w * ppw,
        (forall|i: int| 0 <= i < old(members)@.len() ==> account_fits(old(members)@[i].1)) ==> (
        forall|i: int| 0 <= i < final(members)@.len() ==> account_fits(final(members)@[i].1)),
{
    let found = find_key(members, a);
    let d = match found {
        Some(i) => members[i].1,
        None => MemberData::empty(),
    };
    assert(d == member_of(members@, a@));
    let points = match w.checked_mul(ppw) {
        Some(p) => p,
        None => {
            return false;
        },
    };
    let amount = points / POINTS_SCALE;
    let rest = points % POINTS_SCALE;
    let new_points = match d.points_balance.checked_add(rest) {
        Some(p) => p,
        None => {
            return false;
        },
    };
    let new_reward = match d.reward_balance.checked_add(amount) {
        Some(r) => r,
        None => {
            return false;
        },
    };
    if new_reward.checked_add(new_points / POINTS_SCALE).is_none() {
        return false;
    }
    let nd = MemberData { reward_balance: new_reward, points_balance: new_points };
    proof {
        lemma_credit_points(d, w as int, ppw as int);
    }
    assert(nd == credited(d, w as int, ppw as int));
    match found {
        Some(i) => {
            let key = members[i].0.clone();
            proof {
                lemma_points_update(members@, i as int, (key, nd));
                assert forall|b: Seq<char>| true implies lookup(members@.update(i as int, (key, nd)), b)
                    == if members@[i as int].0@ == b {
                    Some(nd)
                } else {
                    lookup(members@, b)
                } by {
                    lemma_lookup_update(members@, i as int, nd, b);
                }
                lemma_lookup_update(members@, i as int, nd, a@);
            }
            members.set(i, (key, nd));
        },
        None => {
            let key = a.clone();
            proof {
                lemma_points_push(members@, (key, nd));
                assert forall|b: Seq<char>| true implies lookup(members@.push((key, nd)), b) == if a@
                    == b {
                    Some(nd)
                } else {
                    lookup(members@, b)
                } by {
                    lemma_lookup_push(members@, (key, nd), b);
                }
            }
            members.push((key, nd));
        },
    }
    true
}

} // verus!

verus! {

/// The state of the distribution component.
#[derive(Debug)]
pub struct Distribution {
    /// The membership component, whose answer decides who may withdraw.
    pub membership_contract: String,
    /// Settlement units per vote token.
    pub vote_token_price: u128,
    /// Vote tokens held by members; majorities are counted against it.
    pub total_vote_tokens_in_circulation: u128,
    pub correction: Correction,
    /// Accounts keyed by custody-account address.
    pub members: Vec<(String, MemberData)>,
}

/// What the distribution component can be asked.
#[derive(Debug, Clone, PartialEq, Eq)]
pub enum QueryMsg {
    /// What the custody account `proxy` could withdraw.
    Withdrawable { proxy: String },
}

/// What the distribution component is created with.
#[derive(Debug, Clone)]
pub struct InstantiateMsg {
    pub vote_token_price: u128,
    pub total_vote_tokens_in_circulation: u128,
}

impl Distribution {
    /// Accounts are keyed uniquely, each pay-out fits, and tokens have a price.
    pub open spec fn wf(&self) -> bool {
        &&& keys_unique(self.members@)
        &&& forall|i: int| 0 <= i < self.members@.len() ==> account_fits(self.members@[i].1)
        &&& self.vote_token_price > 0
    }

    /// All the value that the ledger holds, in points.
    pub open spec fn total_points(&self) -> int {
        ledger_points(self.members@) + self.correction.points_balance
    }

    /// The account of address `a`.
    pub open spec fn account(&self, a: Seq<char>) -> MemberData {
        member_of(self.members@, a)
    }

    /// Every integer that a distribution of `fee` over `total_weight` writes fits.
    pub open spec fn distribution_fits(
        &self,
        fee: int,
        total_weight: int,
        voters: Seq<(String, u128)>,
    ) -> bool {
        let ppw = points_per_weight(fee, total_weight);
        &&& fee * POINTS_SCALE <= u128::MAX
        &&& self.correction.points_balance + (fee * POINTS_SCALE - ppw * total_weight) <= u128::MAX
        &&& forall|j: int|
            0 <= j < voters.len() ==> credit_fits(
                #[trigger] self.account(voters[j].0@),
                voters[j].1 as int,
                ppw,
            )
    }

    /// Creates the ledger; `sender` is the membership component that creates it.
    pub fn instantiate(sender: String, msg: InstantiateMsg) -> (r: Result<Distribution, ContractError>)
        ensures
            msg.vote_token_price == 0 <==> r == Err::<Distribution, _>(
                ContractError::ZeroVoteTokenPrice,
            ),
            msg.vote_token_price > 0 <==> r is Ok,
            r is Ok ==> ({
                let d = r->Ok_0;
                &&& d.wf()
                &&& d.membership_contract == sender
                &&& d.vote_token_price == msg.vote_token_price
                &&& d.total_vote_tokens_in_circulation == msg.total_vote_tokens_in_circulation
                &&& d.correction.points_balance == 0
                &&& d.members@.len() == 0
            }),
    {
        if msg.vote_token_price == 0 {
            return Err(ContractError::ZeroVoteTokenPrice);
        }
        Ok(Distribution {
            membership_contract: sender,
            vote_token_price: msg.vote_token_price,
            total_vote_tokens_in_circulation: msg.total_vote_tokens_in_circulation,
            correction: Correction { points_balance: 0 },
            members: Vec::new(),
        })
    }

    /// Splits `fee` among `voters` in proportion to their weights over
    /// `total_weight`. Each voter gets `weight * ppw` points, where
    /// `ppw = fee * POINTS_SCALE / total_weight`; whole units go to its balance and
    /// the rest to its points. What the floor division leaves goes to the correction.
    pub fn distribute(&mut self, fee: u128, total_weight: u128, voters: &Vec<(String, u128)>) -> (r:
        Result<(), ContractError>)
        requires
            old(self).wf(),
            voters_distinct(voters@),
        ensures
            final(self).wf(),
            r is Err ==> *final(self) == *old(self),
            r is Err ==> r == Err::<(), _>(ContractError::InvalidWeight) || r == Err::<(), _>(
                ContractError::Overflow,
            ),
            r == Err::<(), _>(ContractError::InvalidWeight) <==> (total_weight == 0 || weight_sum(
                voters@,
            ) > total_weight),
            r == Err::<(), _>(ContractError::Overflow) <==> (total_weight != 0 && weight_sum(voters@)
                <= total_weight && !old(self).distribution_fits(
                fee as int,
                total_weight as int,
                voters@,
            )),
            r is Ok ==> distributed(*old(self), *final(self), fee as int, total_weight as int, voters@),
    {
        if total_weight == 0 {
            return Err(ContractError::InvalidWeight);
        }
        let sum = match weight_total(voters) {
            Some(w) => w,
            None => {
                return Err(ContractError::InvalidWeight);
            },
        };
        if sum > total_weight {
            return Err(ContractError::InvalidWeight);
        }
        let total_points = match fee.checked_mul(POINTS_SCALE) {
            Some(p) => p,
            None => {
                return Err(ContractError::Overflow);
            },
        };
        let ppw = total_points / total_weight;
        proof {
            lemma_fundamental_div_mod(total_points as int, total_weight as int);
            assert(0 <= ppw * total_weight <= total_points) by (nonlinear_arith)
                requires
                    total_weight > 0,
                    ppw == total_points / total_weight,
                    total_points == total_weight * (total_points / total_weight) + total_points
                        % total_weight,
                    total_points % total_weight >= 0,
            ;
        }
        let remainder = total_points - ppw * total_weight;
        let new_correction = match self.correction.points_balance.checked_add(remainder) {
            Some(c) => c,
            None => {
                return Err(ContractError::Overflow);
            },
        };
        let ghost old_members = self.members@;
        let mut members = copy_table(&self.members);
        let mut k: usize = 0;
        while k < voters.len()
            invariant
                k <= voters@.len(),
                voters_distinct(voters@),
                old_members == self.members@,
                total_weight > 0,
                sum == weight_sum(voters@),
                sum <= total_weight,
                total_points == fee * POINTS_SCALE,
                remainder == total_points - ppw * total_weight,
                new_correction == self.correction.points_balance + remainder,
                self.wf(),
                ppw == points_per_weight(fee as int, total_weight as int),
                keys_unique(members@),
                forall|i: int| 0 <= i < members@.len() ==> account_fits(members@[i].1),
                forall|j: int|
                    0 <= j < k ==> #[trigger] lookup(members@, voters@[j].0@) == Some(
                        credited(member_of(old_members, voters@[j].0@), voters@[j].1 as int, ppw as int),
                    ),
                forall|j: int|
                    0 <= j < k ==> credit_fits(
                        #[trigger] member_of(old_members, voters@[j].0@),
                        voters@[j].1 as int,
                        ppw as int,
                    ),
                forall|a: Seq<char>|
                    (forall|j: int| 0 <= j < k ==> voters@[j].0@ != a) ==> lookup(members@, a)
                        == lookup(old_members, a),
                ledger_points(members@) == ledger_points(old_members) + ppw * weight_sum(
                    voters@.take(k as int),
                ),
            decreases voters@.len() - k,
        {
            let ghost before = members@;
            proof {
                assert forall|j: int| 0 <= j < k implies voters@[j].0@ != voters@[k as int].0@ by {}
                assert(voters@.take(k + 1).drop_last() =~= voters@.take(k as int));
            }
            let ok = credit_account(&mut members, &voters[k].0, voters[k].1, ppw);
            if !ok {
                proof {
                    assert(!credit_fits(
                        self.account(voters@[k as int].0@),
                        voters@[k as int].1 as int,
                        ppw as int,
                    ));
                    assert(!old(self).distribution_fits(fee as int, total_weight as int, voters@));
                }
                return Err(ContractError::Overflow);
            }
            proof {
                assert(ppw * weight_sum(voters@.take(k + 1)) == ppw * weight_sum(voters@.take(k as int))
                    + voters@[k as int].1 * ppw) by (nonlinear_arith)
                    requires
                        weight_sum(voters@.take(k + 1)) == weight_sum(voters@.take(k as int))
                            + voters@[k as int].1,
                ;
            }
            k += 1;
        }
        assert(voters@.take(voters@.len() as int) =~= voters@);
        self.correction = Correction { points_balance: new_correction };
        self.members = members;
        Ok(())
    }
}

/// `new` is `old` after `fee` was split over `total_weight` among `voters`:
/// each voter's account credited with `weight * ppw` points, the floor
/// division's remainder added to the correction, every other account unchanged.
pub open spec fn distributed(
    old: Distribution,
    new: Distribution,
    fee: int,
    total_weight: int,
    voters: Seq<(String, u128)>,
) -> bool {
    let ppw = points_per_weight(fee, total_weight);
    &&& new.correction.points_balance == old.correction.points_balance + (fee * POINTS_SCALE - ppw
        * total_weight)
    &&& forall|j: int|
        0 <= j < voters.len() ==> #[trigger] new.account(voters[j].0@) == credited(
            old.account(voters[j].0@),
            voters[j].1 as int,
            ppw,
        )
    &&& forall|a: Seq<char>|
        (forall|j: int| 0 <= j < voters.len() ==> voters[j].0@ != a) ==> lookup(new.members@, a)
            == lookup(old.members@, a)
    &&& ledger_points(new.members@) == ledger_points(old.members@) + ppw * weight_sum(voters)
    &&& new.membership_contract == old.membership_contract
    &&& new.vote_token_price == old.vote_token_price
    &&& new.total_vote_tokens_in_circulation == old.total_vote_tokens_in_circulation
}

proof fn lemma_weight_prefix(v: Seq<(String, u128)>, k: int)
    requires
        0 <= k <= v.len(),
    ensures
        weight_sum(v.take(k)) <= weight_sum(v),
    decreases v.len(),
{
    if k < v.len() {
        assert(v.drop_last().take(k) =~= v.take(k));
        lemma_weight_prefix(v.drop_last(), k);
    } else {
        assert(v.take(k) =~= v);
    }
}

} // verus!

verus! {

/// Stores `d` as the account of `a`.
fn put_account(members: &mut Vec<(String, MemberData)>, a: &String, d: MemberData)
    requires
        keys_unique(old(members)@),
        account_fits(d),
        forall|i: int| 0 <= i < old(members)@.len() ==> account_fits(old(members)@[i].1),
    ensures
        keys_unique(final(members)@),
        forall|i: int| 0 <= i < final(members)@.len() ==> account_fits(final(members)@[i].1),
        lookup(final(members)@, a@) == Some(d),
        forall|b: Seq<char>| b != a@ ==> lookup(final(members)@, b) == lookup(old(members)@, b),
        ledger_points(final(members)@) == ledger_points(old(members)@) - points_of(
            member_of(old(members)@, a@),
        ) + points_of(d),
{
    match find_key(members, a) {
        Some(i) => {
            let key = members[i].0.clone();
            proof {
                lemma_points_update(members@, i as int, (key, d));
                assert forall|b: Seq<char>| b != a@ implies lookup(
                    members@.update(i as int, (key, d)),
                    b,
                ) == lookup(members@, b) by {
                    lemma_lookup_update(members@, i as int, d, b);
                }
                lemma_lookup_update(members@, i as int, d, a@);
            }
            members.set(i, (key, d));
        },
        None => {
            let key = a.clone();
            proof {
                lemma_points_push(members@, (key, d));
                assert forall|b: Seq<char>| true implies lookup(members@.push((key, d)), b) == if a@
                    == b {
                    Some(d)
                } else {
                    lookup(members@, b)
                } by {
                    lemma_lookup_push(members@, (key, d), b);
                }
            }
            members.push((key, d));
        },
    }
}

proof fn lemma_settle_points(d: MemberData)
    ensures
        points_of(d) == payable(d) * POINTS_SCALE + points_of(settled(d)),
        account_fits(settled(d)),
        settled(d).points_balance < POINTS_SCALE,
{
    lemma_fundamental_div_mod(d.points_balance as int, POINTS_SCALE as int);
}

impl Distribution {
    /// The account of `a` as stored: an address never credited has an empty one.
    fn load_account(&self, a: &String) -> (d: MemberData)
        requires
            self.wf(),
        ensures
            d == self.account(a@),
            account_fits(d),
    {
        match find_key(&self.members, a) {
            Some(i) => self.members[i].1,
            None => MemberData::empty(),
        }
    }

    /// What `proxy` could withdraw now: its balance and the whole units of its
    /// points, in the settlement currency; `None` where that is zero.
    pub fn withdrawable(&self, proxy: &String) -> (r: WithdrawableResp)
        requires
            self.wf(),
        ensures
            payable(self.account(proxy@)) == 0 <==> r.funds is None,
            r.funds matches Some(c) ==> c.amount == payable(self.account(proxy@)) && c.denom@
                == ATOM@,
    {
        let d = self.load_account(proxy);
        let amount = d.reward_balance + d.points_balance / POINTS_SCALE;
        if amount == 0 {
            WithdrawableResp { funds: None }
        } else {
            WithdrawableResp { funds: Some(Coin { denom: ATOM.to_owned(), amount }) }
        }
    }

    /// Answers a query.
    pub fn query(&self, msg: &QueryMsg) -> (r: WithdrawableResp)
        requires
            self.wf(),
        ensures
            match *msg {
                QueryMsg::Withdrawable { proxy } => {
                    &&& (payable(self.account(proxy@)) == 0 <==> r.funds is None)
                    &&& (r.funds matches Some(c) ==> c.amount == payable(self.account(proxy@))
                        && c.denom@ == ATOM@)
                },
            },
    {
        match msg {
            QueryMsg::Withdrawable { proxy } => self.withdrawable(proxy),
        }
    }

    /// Settles the account of `sender` and pays it out whole: the pay-out is its
    /// balance plus the whole units of its points, and the account keeps only the
    /// points below one unit. Refused to a caller that is not a member.
    pub fn withdraw(&mut self, is_member: bool, sender: &String) -> (r: Result<u128, ContractError>)
        requires
            old(self).wf(),
        ensures
            final(self).wf(),
            !is_member <==> r is Err,
            r is Err ==> r == Err::<u128, _>(ContractError::Unauthorized) && *final(self) == *old(
                self,
            ),
            r is Ok ==> withdrawn(*old(self), *final(self), sender@, r->Ok_0 as int),
    {
        if !is_member {
            return Err(ContractError::Unauthorized);
        }
        let d = self.load_account(sender);
        let payout = d.reward_balance + d.points_balance / POINTS_SCALE;
        let nd = MemberData { reward_balance: 0, points_balance: d.points_balance % POINTS_SCALE };
        proof {
            lemma_settle_points(d);
        }
        put_account(&mut self.members, sender, nd);
        Ok(payout)
    }

    /// Settles the account of `sender` as `withdraw` does and buys vote tokens
    /// with the pay-out at `vote_token_price`; what does not buy a whole token
    /// stays in the balance. The purchased tokens join those in circulation.
    /// `available` is what the ledger holds of vote tokens to hand out.
    pub fn buy_vote_tokens(&mut self, is_member: bool, sender: &String, available: u128) -> (r:
        Result<u128, ContractError>)
        requires
            old(self).wf(),
        ensures
            final(self).wf(),
            r is Err ==> *final(self) == *old(self),
            !is_member <==> r == Err::<u128, _>(ContractError::Unauthorized),
            r == Err::<u128, _>(ContractError::InsufficientVoteTokens) <==> (is_member && payable(
                old(self).account(sender@),
            ) / old(self).vote_token_price as int > available),
            r == Err::<u128, _>(ContractError::Overflow) <==> (is_member && payable(
                old(self).account(sender@),
            ) / old(self).vote_token_price as int <= available
                && old(self).total_vote_tokens_in_circulation + payable(old(self).account(sender@))
                / old(self).vote_token_price as int > u128::MAX),
            r is Err ==> r->Err_0 == ContractError::Unauthorized || r->Err_0
                == ContractError::InsufficientVoteTokens || r->Err_0 == ContractError::Overflow,
            r is Ok ==> bought(*old(self), *final(self), sender@, r->Ok_0 as int),
    {
        if !is_member {
            return Err(ContractError::Unauthorized);
        }
        let d = self.load_account(sender);
        let payout = d.reward_balance + d.points_balance / POINTS_SCALE;
        let votes = payout / self.vote_token_price;
        let change = payout % self.vote_token_price;
        if votes > available {
            return Err(ContractError::InsufficientVoteTokens);
        }
        let total = match self.total_vote_tokens_in_circulation.checked_add(votes) {
            Some(t) => t,
            None => {
                return Err(ContractError::Overflow);
            },
        };
        let nd = MemberData { reward_balance: change, points_balance: d.points_balance % POINTS_SCALE };
        proof {
            lemma_settle_points(d);
            lemma_fundamental_div_mod(payout as int, self.vote_token_price as int);
        }
        put_account(&mut self.members, sender, nd);
        self.total_vote_tokens_in_circulation = total;
        Ok(votes)
    }
}

/// `new` is `old` after `a` withdrew `payout`.
pub open spec fn withdrawn(old: Distribution, new: Distribution, a: Seq<char>, payout: int) -> bool {
    &&& payout == payable(old.account(a))
    &&& new.account(a) == settled(old.account(a))
    &&& ledger_points(new.members@) == ledger_points(old.members@) - payout * POINTS_SCALE
    &&& forall|b: Seq<char>| b != a ==> lookup(new.members@, b) == lookup(old.members@, b)
    &&& new.correction == old.correction
    &&& new.membership_contract == old.membership_contract
    &&& new.vote_token_price == old.vote_token_price
    &&& new.total_vote_tokens_in_circulation == old.total_vote_tokens_in_circulation
}

/// `new` is `old` after `a` bought `votes` vote tokens with its pay-out.
pub open spec fn bought(old: Distribution, new: Distribution, a: Seq<char>, votes: int) -> bool {
    let payout = payable(old.account(a));
    &&& votes == payout / old.vote_token_price as int
    &&& new.account(a) == MemberData {
        reward_balance: (payout % old.vote_token_price as int) as u128,
        points_balance: old.account(a).points_balance % POINTS_SCALE,
    }
    &&& forall|b: Seq<char>| b != a ==> lookup(new.members@, b) == lookup(old.members@, b)
    &&& new.correction == old.correction
    &&& new.membership_contract == old.membership_contract
    &&& new.vote_token_price == old.vote_token_price
    &&& new.total_vote_tokens_in_circulation == old.total_vote_tokens_in_circulation + votes
}

} // verus!

verus! {

/// The sum of the weights, where it fits the integer type.
fn weight_total(voters: &Vec<(String, u128)>) -> (r: Option<u128>)
    ensures
        r is Some <==> weight_sum(voters@) <= u128::MAX,
        r is Some ==> r->Some_0 == weight_sum(voters@),
{
    let mut sum: u128 = 0;
    let mut k: usize = 0;
    while k < voters.len()
        invariant
            k <= voters@.len(),
            sum == weight_sum(voters@.take(k as int)),
        decreases voters@.len() - k,
    {
        proof {
            assert(voters@.take(k + 1).drop_last() =~= voters@.take(k as int));
            lemma_weight_prefix(voters@, k as int + 1);
        }
        sum = match sum.checked_add(voters[k].1) {
            Some(s) => s,
            None => {
                return None;
            },
        };
        k += 1;
    }
    assert(voters@.take(voters@.len() as int) =~= voters@);
    Some(sum)
}

impl Distribution {
    /// Splits the joining fee attached in the settlement denomination among the
    /// voters who backed the admission, over the sum of their committed weights.
    pub fn distribute_joining_fee(&mut self, funds: &Vec<Coin>, voter_tokens: &Vec<(String, u128)>) -> (r:
        Result<(), ContractError>)
        requires
            old(self).wf(),
            voters_distinct(voter_tokens@),
        ensures
            final(self).wf(),
            r is Err ==> *final(self) == *old(self),
            amount_of(funds@, ATOM@) is None ==> r is Err && missing_denom(r->Err_0, ATOM@),
            amount_of(funds@, ATOM@) matches Some(fee) ==> {
                let w = weight_sum(voter_tokens@);
                &&& r == Err::<(), _>(ContractError::InvalidWeight) <==> w == 0
                &&& r == Err::<(), _>(ContractError::Overflow) <==> (w != 0 && (w > u128::MAX
                    || !old(self).distribution_fits(fee as int, w, voter_tokens@)))
                &&& r is Ok ==> distributed(*old(self), *final(self), fee as int, w, voter_tokens@)
                &&& !(r matches Err(ContractError::Payment(_)))
            },
            r is Err ==> r->Err_0 is Payment || r->Err_0 == ContractError::InvalidWeight || r->Err_0
                == ContractError::Overflow,
    {
        let fee = match find_denom(funds, ATOM) {
            Some(f) => f,
            None => {
                return Err(ContractError::Payment(PaymentError::MissingDenom(ATOM.to_owned())));
            },
        };
        let total = match weight_total(voter_tokens) {
            Some(w) => w,
            None => {
                return Err(ContractError::Overflow);
            },
        };
        self.distribute(fee, total, voter_tokens)
    }
}

} // verus!

verus! {

/// The fees of a sequence of distributions, added up.
pub open spec fn fee_total(fees: Seq<u128>) -> int
    decreases fees.len(),
{
    if fees.len() == 0 {
        0
    } else {
        fee_total(fees.drop_last()) + fees.last()
    }
}

/// Conservation: a distribution whose total weight is the sum of its voters'
/// weights adds exactly `fee * POINTS_SCALE` points to the ledger, counting the
/// accounts' balances, their points and the correction; no value is created or lost.
pub proof fn law_distribution_conserves(
    old: Distribution,
    new: Distribution,
    fee: u128,
    voters: Seq<(String, u128)>,
)
    requires
        distributed(old, new, fee as int, weight_sum(voters), voters),
    ensures
        new.total_points() == old.total_points() + fee * POINTS_SCALE,
{
}

/// Conservation over any sequence of distributions: after distributions of
/// `fees[i]` among `voters[i]`, each over the sum of its voters' weights, the
/// ledger holds `POINTS_SCALE` points for each unit of fee ever distributed.
pub proof fn law_distributions_conserve(
    states: Seq<Distribution>,
    fees: Seq<u128>,
    voters: Seq<Seq<(String, u128)>>,
)
    requires
        states.len() == fees.len() + 1,
        voters.len() == fees.len(),
        forall|i: int|
            0 <= i < fees.len() ==> distributed(
                #[trigger] states[i],
                states[i + 1],
                fees[i] as int,
                weight_sum(voters[i]),
                voters[i],
            ),
    ensures
        states.last().total_points() == states[0].total_points() + fee_total(fees) * POINTS_SCALE,
    decreases fees.len(),
{
    if fees.len() > 0 {
        let n = fees.len() - 1;
        law_distributions_conserve(states.drop_last(), fees.drop_last(), voters.drop_last());
        law_distribution_conserves(states[n], states[n + 1], fees[n], voters[n]);
        assert(states.drop_last().last() == states[n]);
    }
}

/// A withdrawal takes out of the ledger exactly what it pays.
pub proof fn law_withdraw_conserves(old: Distribution, new: Distribution, a: Seq<char>, payout: int)
    requires
        withdrawn(old, new, a, payout),
    ensures
        new.total_points() == old.total_points() - payout * POINTS_SCALE,
{
}

/// Settlement is idempotent: of two withdrawals in a row with no distribution
/// between them, the first pays what was withdrawable and the second pays nothing.
pub proof fn law_withdraw_twice(
    s0: Distribution,
    s1: Distribution,
    s2: Distribution,
    a: Seq<char>,
    first: int,
    second: int,
)
    requires
        withdrawn(s0, s1, a, first),
        withdrawn(s1, s2, a, second),
    ensures
        first == payable(s0.account(a)),
        second == 0,
        payable(s2.account(a)) == 0,
{
    lemma_settle_points(s0.account(a));
    lemma_settle_points(s1.account(a));
}

} // verus!
