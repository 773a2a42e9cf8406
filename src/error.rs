use vstd::prelude::*;

verus! {

/// Why a payment attached to a call was refused.
#[derive(Debug, Clone, PartialEq, Eq)]
pub enum PaymentError {
    /// The required denomination was not the one sent.
    MissingDenom(String),
    /// A denomination other than the accepted one was sent.
    ExtraDenom(String),
    /// More than one denomination was sent.
    MultipleDenoms,
    /// Nothing, or a zero amount, was sent.
    NoFunds,
    /// Funds were sent to a call that takes none.
    NonPayable,
}

/// The errors of every component.
#[derive(Debug, Clone, PartialEq, Eq)]
pub enum ContractError {
    /// The caller is not the principal the operation requires.
    Unauthorized,
    /// The attached funds are missing, of the wrong denomination or insufficient.
    Payment(PaymentError),
    /// The candidate is already a member.
    AlreadyAMember,
    /// The address is not a member.
    NotAMember,
    /// The address has no active proposal.
    NotProposedMember,
    /// A proposal for the candidate is already active.
    ExistingProposalInProgress,
    /// A distribution with a zero total weight, or with more weight than the total.
    InvalidWeight,
    /// A balance would leave the range of its integer type.
    Overflow,
    /// An asynchronous reply carried no payload.
    DataMissing,
    /// An asynchronous reply carried a payload that could not be read.
    ParseError,
    /// A reply tag that no pending operation expects.
    UnrecognizedReplyId(u64),
    /// Genesis needs at least two founding members.
    NotEnoughInitialMembers,
    /// Genesis takes a bounded number of founding members.
    TooManyInitialMembers,
    /// The founders' part of the genesis vote tokens must not exceed the whole.
    InvalidDistributionPart,
    /// The joining fee must be paid in the settlement denomination.
    JoiningFeeDenomInvalid,
    /// The same owner was named twice among the founders.
    DuplicateInitialMember,
    /// The voter's custody account is not the one registered for the voter.
    MemberProxyMismatch,
    /// The proposal has already passed and takes no more votes.
    VoteRejectedProposalWasPassedEarlier,
    /// The proposal has not passed yet.
    ProposalNotPassed,
    /// Less than the joining fee was paid.
    JoinRejected,
    /// The vote-token price must be positive.
    ZeroVoteTokenPrice,
    /// The ledger holds fewer vote tokens than a purchase asks for.
    InsufficientVoteTokens,
}

/// `e` is a refusal of the payment for want of denomination `d`.
pub open spec fn missing_denom(e: ContractError, d: Seq<char>) -> bool {
    match e {
        ContractError::Payment(PaymentError::MissingDenom(s)) => s@ == d,
        _ => false,
    }
}

} // verus!
