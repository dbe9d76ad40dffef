//! The data model: account identities, bond keys, the three record kinds
//! (`Bond`, `Investment`, `Repayment`), their status enumerations, the
//! error kinds, and the events that operations report to the caller.

use vstd::prelude::*;

verus! {

/// Largest principal a bond may request.  The cap guarantees that the
/// principal plus the largest possible interest (half the principal, at the
/// maximal rate) still fits in a `u64`, so every bond can be settled.
pub const MAX_BOND_AMOUNT: u64 = 12_000_000_000_000_000_000;

/// Longest duration of a bond, in periods.
pub const MAX_DURATION: u8 = 60;

/// Largest interest rate, in percent of the principal.
pub const MAX_INTEREST_RATE: u8 = 50;

/// Longest accepted `income_proof` text, in characters.
pub const MAX_INCOME_PROOF_LEN: usize = 200;

/// Longest accepted `description` text, in characters.
pub const MAX_DESCRIPTION_LEN: usize = 500;

/// An already-authenticated caller or counterparty identity.  Signature
/// verification is the concern of the surrounding runtime, not of the core.
#[derive(Clone, Copy, Debug, PartialEq, Eq, Structural)]
pub struct AccountId {
    pub id: u64,
}

/// The stable identity of a bond, derived deterministically from the
/// owner together with a caller-supplied seed.
#[derive(Clone, Copy, Debug, PartialEq, Eq, Structural)]
pub struct BondKey {
    pub owner: AccountId,
    pub seed: u64,
}

/// What `derive_key` returns.
pub open spec fn spec_derive_key(owner: AccountId, seed: u64) -> BondKey {
    BondKey { owner, seed }
}

/// Derives the stable identity of a bond from its owner and a seed.
pub fn derive_key(owner: AccountId, seed: u64) -> (key: BondKey)
    ensures
        key == spec_derive_key(owner, seed),
{
    BondKey { owner, seed }
}

/// Key derivation is collision-resistant: distinct owner/seed pairs give
/// distinct keys, so the registry can reject duplicates by key alone.
pub proof fn lemma_derive_key_injective(o1: AccountId, s1: u64, o2: AccountId, s2: u64)
    ensures
        spec_derive_key(o1, s1) == spec_derive_key(o2, s2) ==> o1 == o2 && s1 == s2,
{
}

/// Lifecycle states of a bond.
#[derive(Clone, Copy, Debug, PartialEq, Eq, Structural)]
pub enum BondStatus {
    Open,
    Funded,
    Repaying,
    Completed,
}

/// Position of a status in the forward-only lifecycle
/// `Open, Funded, [Repaying], Completed`.
pub open spec fn status_rank(s: BondStatus) -> int {
    match s {
        BondStatus::Open => 0,
        BondStatus::Funded => 1,
        BondStatus::Repaying => 2,
        BondStatus::Completed => 3,
    }
}

/// `a` comes no later than `b` in the lifecycle.  Every mutating operation
/// of the ledger promises this of each bond's old and new status: a bond
/// never regresses.
pub open spec fn status_le(a: BondStatus, b: BondStatus) -> bool {
    status_rank(a) <= status_rank(b)
}

/// Settlement states of a repayment.  `Overdue` has no producer in this
/// core: marking a repayment overdue would take a time-based sweep, which
/// is a scheduling concern of the surrounding system.
#[derive(Clone, Copy, Debug, PartialEq, Eq, Structural)]
pub enum RepaymentStatus {
    Pending,
    Paid,
    Overdue,
}

/// How a bond is repaid: one full payment of principal plus interest, or a
/// schedule of installments.
#[derive(Clone, Copy, Debug, PartialEq, Eq, Structural)]
pub enum RepaymentType {
    LumpSum,
    Installments,
}

/// The validation error kinds.  Each aborts the whole operation; no partial
/// mutation is ever observed.
#[derive(Clone, Copy, Debug, PartialEq, Eq, Structural)]
pub enum ErrorCode {
    InvalidAmount,
    InvalidDuration,
    InvalidInterestRate,
    StringTooLong,
    BondNotOpen,
    BondOverfunded,
    BondNotFunded,
    RepaymentNotPending,
    InvalidRepaymentType,
    InvalidInstallments,
    NotBondOwner,
    InvalidFreelancer,
    InvalidInvestor,
    InvalidRepayment,
    InvalidInvestment,
}

/// Everything an operation can fail with.  A transfer-rail failure and a
/// duplicate-key rejection by the store are surfaced distinctly from
/// validation failures, so a caller can tell a transient condition (worth
/// resubmitting) from a permanent one.
#[derive(Clone, Copy, Debug, PartialEq, Eq, Structural)]
pub enum OpError {
    Validation(ErrorCode),
    TransferFailed,
    DuplicateBond,
}

/// A debt request, tracked from creation to full repayment.
pub struct Bond {
    /// Owner of the bond; the only identity allowed to schedule and settle.
    pub freelancer: AccountId,
    /// Principal requested.
    pub amount: u64,
    /// Term of the bond, in periods.
    pub duration: u8,
    /// Flat interest, in percent of the principal.
    pub interest_rate: u8,
    /// Cumulative investor contributions; never exceeds `amount`.
    pub funded: u64,
    pub status: BondStatus,
    /// Free text, bounded in length and not otherwise validated.
    pub income_proof: String,
    /// Free text, bounded in length and not otherwise validated.
    pub description: String,
    pub created_at: i64,
    /// Caller-supplied seed from which the bond's key is derived.
    pub bond_seed: u64,
    pub repayment_type: RepaymentType,
    /// Number of installments of the repayment plan; zero until a plan is
    /// created, and set only once.
    pub installments: u8,
}

impl Bond {
    /// The stable identity of this bond.
    pub open spec fn key(self) -> BondKey {
        spec_derive_key(self.freelancer, self.bond_seed)
    }

    /// The record invariant.  Terms are within bounds, funding never
    /// exceeds the principal, and the status agrees with the accounting
    /// state: a bond leaves `Open` exactly when it is fully funded, and an
    /// installment count appears exactly when a plan exists.
    pub open spec fn wf(self) -> bool {
        &&& 0 < self.amount <= MAX_BOND_AMOUNT
        &&& 0 < self.duration <= MAX_DURATION
        &&& 0 < self.interest_rate <= MAX_INTEREST_RATE
        &&& self.funded <= self.amount
        &&& self.installments <= self.duration
        &&& self.income_proof@.len() <= MAX_INCOME_PROOF_LEN
        &&& self.description@.len() <= MAX_DESCRIPTION_LEN
        &&& (self.status is Open ==> self.funded < self.amount && self.installments == 0)
        &&& (self.status is Funded ==> self.funded == self.amount && self.installments == 0)
        &&& (self.status is Repaying ==> self.funded == self.amount && self.installments > 0
            && self.repayment_type is Installments)
        &&& (self.status is Completed ==> self.funded == self.amount)
    }

    /// The stable identity of this bond.
    pub fn bond_key(&self) -> (key: BondKey)
        ensures
            key == self.key(),
    {
        derive_key(self.freelancer, self.bond_seed)
    }
}

/// An immutable record of one investor's contribution toward a bond's
/// funding target.  Created once per successful funding call; never mutated
/// or deleted.
#[derive(Clone, Copy, Debug, PartialEq, Eq, Structural)]
pub struct Investment {
    pub investor: AccountId,
    /// The bond invested in — a reference, not ownership: a bond may have
    /// many investments.
    pub bond: BondKey,
    pub amount: u64,
    pub created_at: i64,
}

/// An obligation to pay a specific amount to a specific investor, settled
/// at most once.
#[derive(Clone, Copy, Debug, PartialEq, Eq, Structural)]
pub struct Repayment {
    pub bond: BondKey,
    pub investor: AccountId,
    pub amount: u64,
    pub due_date: i64,
    pub status: RepaymentStatus,
    pub created_at: i64,
    /// Set exactly when the repayment is settled.
    pub paid_at: Option<i64>,
    /// One-based position in the schedule.
    pub installment_number: u8,
}

/// The principal is within the accepted range.
pub fn valid_amount(amount: u64) -> (r: bool)
    ensures
        r == (0 < amount <= MAX_BOND_AMOUNT),
{
    0 < amount && amount <= MAX_BOND_AMOUNT
}

/// The duration is within the accepted range.
pub fn valid_duration(duration: u8) -> (r: bool)
    ensures
        r == (0 < duration <= MAX_DURATION),
{
    0 < duration && duration <= MAX_DURATION
}

/// The interest rate is within the accepted range.
pub fn valid_interest_rate(interest_rate: u8) -> (r: bool)
    ensures
        r == (0 < interest_rate <= MAX_INTEREST_RATE),
{
    0 < interest_rate && interest_rate <= MAX_INTEREST_RATE
}

/// Event reported when a bond is created, for external indexers.
#[derive(Clone, Copy, Debug, PartialEq, Eq, Structural)]
pub struct BondCreatedEvent {
    pub bond: BondKey,
    pub freelancer: AccountId,
    pub amount: u64,
    pub duration: u8,
    pub interest_rate: u8,
    pub repayment_type: RepaymentType,
}

/// Event reported when an investment is recorded.
#[derive(Clone, Copy, Debug, PartialEq, Eq, Structural)]
pub struct InvestmentEvent {
    /// Identity of the new investment record in the ledger.
    pub investment: u64,
    pub bond: BondKey,
    pub investor: AccountId,
    pub amount: u64,
}

/// Event reported when an installment repayment is settled.
#[derive(Clone, Copy, Debug, PartialEq, Eq, Structural)]
pub struct RepaymentEvent {
    /// Identity of the settled repayment record in the ledger.
    pub repayment: u64,
    pub bond: BondKey,
    pub amount: u64,
}

/// Event reported when a repayment plan is established.
#[derive(Clone, Copy, Debug, PartialEq, Eq, Structural)]
pub struct RepaymentPlanCreatedEvent {
    pub bond: BondKey,
    pub freelancer: AccountId,
    pub installments: u8,
}

/// Event reported when a bond is settled with a single lump sum.
#[derive(Clone, Copy, Debug, PartialEq, Eq, Structural)]
pub struct LumpSumRepaymentEvent {
    pub bond: BondKey,
    pub freelancer: AccountId,
    /// Principal plus interest, as transferred.
    pub amount: u64,
}

} // verus!
