//! The ledger: the registry of bonds and the append-only investment and
//! repayment records, with the operations that drive a bond through its
//! lifecycle.
//!
//! Each operation is one atomic transaction: it either applies every state
//! mutation it describes and returns the event the caller must publish, or
//! it returns an error and leaves the ledger exactly as it was.  Value
//! moves on an external rail; an operation that must transfer receives the
//! rail's verdict (`transfer_ok`) and commits only on success.

use vstd::prelude::*;
use vstd::string::StrSliceExecFns;
use crate::math::{
    due_offset, installment_amount, lemma_due_offset_bounds, lemma_total_due_fits,
    lump_sum_total, total_due, MAX_TIMESTAMP, SECONDS_PER_PERIOD,
};
use crate::model::{
    AccountId, Bond, BondCreatedEvent, BondKey, BondStatus, ErrorCode, Investment,
    InvestmentEvent, LumpSumRepaymentEvent, OpError, Repayment, RepaymentEvent,
    RepaymentPlanCreatedEvent, RepaymentStatus, RepaymentType, derive_key, spec_derive_key,
    status_le, valid_amount, valid_duration, valid_interest_rate, MAX_BOND_AMOUNT,
    MAX_DESCRIPTION_LEN, MAX_DURATION, MAX_INCOME_PROOF_LEN, MAX_INTEREST_RATE,
};

verus! {

/// The whole state of the system: every bond, investment, and repayment.
pub struct Ledger {
    pub bonds: Vec<Bond>,
    pub investments: Vec<Investment>,
    pub repayments: Vec<Repayment>,
}

/// Sum of the amounts of the investments in `s` that reference the bond
/// keyed `key`.
pub open spec fn sum_invested(s: Seq<Investment>, key: BondKey) -> int
    decreases s.len(),
{
    if s.len() == 0 {
        0
    } else {
        sum_invested(s.drop_last(), key) + if s.last().bond == key {
            s.last().amount as int
        } else {
            0
        }
    }
}

/// Number of repayments in `s` that reference the bond keyed `key` and are
/// still pending.
pub open spec fn count_pending(s: Seq<Repayment>, key: BondKey) -> int
    decreases s.len(),
{
    if s.len() == 0 {
        0
    } else {
        count_pending(s.drop_last(), key) + if s.last().bond == key
            && s.last().status is Pending {
            1int
        } else {
            0int
        }
    }
}

/// For every bond of a well-formed ledger, at all times, the cumulative
/// contributions lie between zero and the principal:
/// `0 <= funded <= amount`.
pub proof fn lemma_funding_within_principal(ledger: Ledger, i: int)
    requires
        ledger.wf(),
        0 <= i < ledger.bonds@.len(),
    ensures
        0 <= ledger.bonds@[i].funded <= ledger.bonds@[i].amount,
{
}

/// For every bond of a well-formed ledger, the sum of the amounts of the
/// investments that reference it equals the bond's `funded` exactly.
pub proof fn lemma_funded_equals_invested_sum(ledger: Ledger, i: int)
    requires
        ledger.wf(),
        0 <= i < ledger.bonds@.len(),
    ensures
        sum_invested(ledger.investments@, ledger.bonds@[i].key())
            == ledger.bonds@[i].funded as int,
{
}

/// The ledgers hold the same records.
pub open spec fn same_state(pre: Ledger, post: Ledger) -> bool {
    &&& post.bonds@ == pre.bonds@
    &&& post.investments@ == pre.investments@
    &&& post.repayments@ == pre.repayments@
}

/// Every bond of `pre` still exists in `post` and its status has moved only
/// forward in the lifecycle `Open, Funded, [Repaying], Completed`.  Every
/// mutating operation of the ledger promises this: no bond ever regresses.
pub open spec fn no_status_regression(pre: Seq<Bond>, post: Seq<Bond>) -> bool {
    &&& pre.len() <= post.len()
    &&& forall|j: int|
        0 <= j < pre.len() ==> status_le((#[trigger] pre[j]).status, post[j].status)
}

proof fn lemma_sum_invested_push(s: Seq<Investment>, x: Investment, key: BondKey)
    ensures
        sum_invested(s.push(x), key) == sum_invested(s, key) + if x.bond == key {
            x.amount as int
        } else {
            0
        },
{
    assert(s.push(x).drop_last() =~= s);
}

/// A bond nobody has invested in has nothing counted toward it.
proof fn lemma_sum_invested_absent(s: Seq<Investment>, key: BondKey)
    requires
        forall|j: int| 0 <= j < s.len() ==> (#[trigger] s[j]).bond != key,
    ensures
        sum_invested(s, key) == 0,
    decreases s.len(),
{
    if s.len() > 0 {
        assert(forall|j: int|
            0 <= j < s.drop_last().len() ==> (#[trigger] s.drop_last()[j]).bond != key);
        lemma_sum_invested_absent(s.drop_last(), key);
    }
}

/// The first check that fails when a bond with these terms is created
/// against `ledger`, or `None` when all pass.  Creation is rejected when the
/// derived key collides with a registered bond, when a term is out of
/// bounds, or when a narrative text is too long.
pub open spec fn create_bond_error(
    ledger: Ledger,
    freelancer: AccountId,
    bond_seed: u64,
    amount: u64,
    duration: u8,
    interest_rate: u8,
    income_proof: Seq<char>,
    description: Seq<char>,
) -> Option<OpError> {
    if ledger.has_key(spec_derive_key(freelancer, bond_seed)) {
        Some(OpError::DuplicateBond)
    } else if !(0 < amount <= MAX_BOND_AMOUNT) {
        Some(OpError::Validation(ErrorCode::InvalidAmount))
    } else if !(0 < duration <= MAX_DURATION) {
        Some(OpError::Validation(ErrorCode::InvalidDuration))
    } else if !(0 < interest_rate <= MAX_INTEREST_RATE) {
        Some(OpError::Validation(ErrorCode::InvalidInterestRate))
    } else if income_proof.len() > MAX_INCOME_PROOF_LEN {
        Some(OpError::Validation(ErrorCode::StringTooLong))
    } else if description.len() > MAX_DESCRIPTION_LEN {
        Some(OpError::Validation(ErrorCode::StringTooLong))
    } else {
        None
    }
}

/// The first check that fails when `amount` is invested in `bond`, or
/// `None` when all pass and the transfer to the freelancer succeeded.
pub open spec fn invest_error(
    bond: Bond,
    freelancer_account: AccountId,
    amount: u64,
    transfer_ok: bool,
) -> Option<OpError> {
    if freelancer_account != bond.freelancer {
        Some(OpError::Validation(ErrorCode::InvalidFreelancer))
    } else if !(bond.status is Open) {
        Some(OpError::Validation(ErrorCode::BondNotOpen))
    } else if amount == 0 {
        Some(OpError::Validation(ErrorCode::InvalidAmount))
    } else if bond.funded + amount > bond.amount {
        Some(OpError::Validation(ErrorCode::BondOverfunded))
    } else if !transfer_ok {
        Some(OpError::TransferFailed)
    } else {
        None
    }
}

/// `bond` after a successful investment of `amount`: the contribution is
/// added to `funded`, and the bond becomes `Funded` exactly when it reaches
/// its principal.
pub open spec fn bond_after_invest(bond: Bond, amount: u64) -> Bond {
    Bond {
        funded: (bond.funded + amount) as u64,
        status: if bond.funded + amount == bond.amount {
            BondStatus::Funded
        } else {
            bond.status
        },
        ..bond
    }
}

/// The first check that fails when `freelancer` establishes a plan of
/// `installments` on `bond` toward the investor of `investment`, or `None`
/// when all pass.  Only the owner of a funded installment bond may schedule,
/// and the installment count must fit the bond's duration.
pub open spec fn plan_error(
    bond: Bond,
    freelancer: AccountId,
    investment: Investment,
    installments: u8,
) -> Option<OpError> {
    if freelancer != bond.freelancer {
        Some(OpError::Validation(ErrorCode::NotBondOwner))
    } else if investment.bond != bond.key() {
        Some(OpError::Validation(ErrorCode::InvalidInvestment))
    } else if !(bond.status is Funded) {
        Some(OpError::Validation(ErrorCode::BondNotFunded))
    } else if !(bond.repayment_type is Installments) {
        Some(OpError::Validation(ErrorCode::InvalidRepaymentType))
    } else if installments == 0 || installments > bond.duration {
        Some(OpError::Validation(ErrorCode::InvalidInstallments))
    } else {
        None
    }
}

/// The `k`-th (one-based) repayment of a plan of `installments` created at
/// `now` on `bond`: its share of the lump-sum total, due when its share of
/// the bond's duration has passed, pending until settled.
pub open spec fn scheduled_repayment(
    bond: Bond,
    investor: AccountId,
    installments: int,
    k: int,
    now: int,
) -> Repayment {
    Repayment {
        bond: bond.key(),
        investor,
        amount: installment_amount(
            total_due(bond.amount as int, bond.interest_rate as int),
            installments,
            k,
        ) as u64,
        due_date: (now + due_offset(bond.duration as int, installments, k)) as i64,
        status: RepaymentStatus::Pending,
        created_at: now as i64,
        paid_at: None,
        installment_number: k as u8,
    }
}

/// The whole schedule that a plan of `installments` creates on `bond`.
pub open spec fn schedule_of(
    bond: Bond,
    investor: AccountId,
    installments: int,
    now: int,
) -> Seq<Repayment> {
    Seq::new(
        installments as nat,
        |k: int| scheduled_repayment(bond, investor, installments, k + 1, now),
    )
}

/// `bond` once a plan of `installments` exists: it is repaying, and the
/// count is set, once and for all.
pub open spec fn bond_after_plan(bond: Bond, installments: u8) -> Bond {
    Bond { installments, status: BondStatus::Repaying, ..bond }
}

/// The first check that fails when `freelancer` settles the repayment
/// `repayment` of `bond` with `amount`, or `None` when all pass and the
/// transfer to the investor succeeded.  Only the owner may settle, only a
/// pending repayment can be settled, and only at its exact amount.
pub open spec fn repayment_error(
    bond: Bond,
    repayment: Repayment,
    freelancer: AccountId,
    investor_account: AccountId,
    amount: u64,
    transfer_ok: bool,
) -> Option<OpError> {
    if freelancer != bond.freelancer {
        Some(OpError::Validation(ErrorCode::NotBondOwner))
    } else if repayment.bond != bond.key() {
        Some(OpError::Validation(ErrorCode::InvalidRepayment))
    } else if investor_account != repayment.investor {
        Some(OpError::Validation(ErrorCode::InvalidInvestor))
    } else if !(repayment.status is Pending) {
        Some(OpError::Validation(ErrorCode::RepaymentNotPending))
    } else if amount != repayment.amount {
        Some(OpError::Validation(ErrorCode::InvalidAmount))
    } else if !transfer_ok {
        Some(OpError::TransferFailed)
    } else {
        None
    }
}

/// The first check that fails when `freelancer` settles `bond` with a
/// single lump sum toward the investor of `investment`, or `None` when all
/// pass and the transfer succeeded.
pub open spec fn lump_sum_error(
    bond: Bond,
    investment: Investment,
    freelancer: AccountId,
    investor_account: AccountId,
    transfer_ok: bool,
) -> Option<OpError> {
    if freelancer != bond.freelancer {
        Some(OpError::Validation(ErrorCode::NotBondOwner))
    } else if investment.bond != bond.key() {
        Some(OpError::Validation(ErrorCode::InvalidInvestment))
    } else if investor_account != investment.investor {
        Some(OpError::Validation(ErrorCode::InvalidInvestor))
    } else if !(bond.status is Funded) {
        Some(OpError::Validation(ErrorCode::BondNotFunded))
    } else if !transfer_ok {
        Some(OpError::TransferFailed)
    } else {
        None
    }
}

impl Ledger {
    /// The ledger invariant.  Every record is well formed, bond keys are
    /// unique, every investment references a registered bond, each bond's
    /// `funded` equals the sum of the investments that reference it, and a
    /// repayment carries a settlement time exactly when it is paid.
    pub open spec fn wf(self) -> bool {
        &&& forall|i: int| 0 <= i < self.bonds@.len() ==> (#[trigger] self.bonds@[i]).wf()
        &&& forall|i: int, j: int|
            0 <= i < self.bonds@.len() && 0 <= j < self.bonds@.len() && i != j
                ==> (#[trigger] self.bonds@[i]).key() != (#[trigger] self.bonds@[j]).key()
        &&& forall|i: int|
            0 <= i < self.bonds@.len()
                ==> sum_invested(self.investments@, (#[trigger] self.bonds@[i]).key())
                    == self.bonds@[i].funded as int
        &&& forall|j: int|
            0 <= j < self.investments@.len()
                ==> exists|i: int|
                    0 <= i < self.bonds@.len()
                        && (#[trigger] self.investments@[j]).bond == self.bonds@[i].key()
        &&& forall|j: int|
            0 <= j < self.repayments@.len()
                ==> ((#[trigger] self.repayments@[j]).status is Paid
                    <==> self.repayments@[j].paid_at is Some)
    }

    /// Some registered bond carries `key`.
    pub open spec fn has_key(self, key: BondKey) -> bool {
        exists|i: int| 0 <= i < self.bonds@.len() && (#[trigger] self.bonds@[i]).key() == key
    }

    /// An empty ledger: no bonds, no investments, no repayments.
    pub fn new() -> (ledger: Ledger)
        ensures
            ledger.wf(),
            ledger.bonds@.len() == 0,
            ledger.investments@.len() == 0,
            ledger.repayments@.len() == 0,
    {
        Ledger { bonds: Vec::new(), investments: Vec::new(), repayments: Vec::new() }
    }

    /// Number of registered bonds.
    pub fn bond_count(&self) -> (n: usize)
        ensures
            n == self.bonds@.len(),
    {
        self.bonds.len()
    }

    /// Number of recorded investments.
    pub fn investment_count(&self) -> (n: usize)
        ensures
            n == self.investments@.len(),
    {
        self.investments.len()
    }

    /// Number of recorded repayments.
    pub fn repayment_count(&self) -> (n: usize)
        ensures
            n == self.repayments@.len(),
    {
        self.repayments.len()
    }

    /// The bond at `index`.
    pub fn get_bond(&self, index: usize) -> (bond: &Bond)
        requires
            index < self.bonds@.len(),
        ensures
            *bond == self.bonds@[index as int],
    {
        &self.bonds[index]
    }

    /// The investment at `index`.
    pub fn get_investment(&self, index: usize) -> (investment: &Investment)
        requires
            index < self.investments@.len(),
        ensures
            *investment == self.investments@[index as int],
    {
        &self.investments[index]
    }

    /// The repayment at `index`.
    pub fn get_repayment(&self, index: usize) -> (repayment: &Repayment)
        requires
            index < self.repayments@.len(),
        ensures
            *repayment == self.repayments@[index as int],
    {
        &self.repayments[index]
    }

    /// Looks a bond up by its key: the index of the bond carrying `key`,
    /// or `None` when no bond does.
    pub fn find_bond(&self, key: BondKey) -> (found: Option<usize>)
        ensures
            match found {
                Some(i) => i < self.bonds@.len() && self.bonds@[i as int].key() == key,
                None => !self.has_key(key),
            },
    {
        let mut i: usize = 0;
        while i < self.bonds.len()
            invariant
                i <= self.bonds@.len(),
                forall|j: int| 0 <= j < i ==> (#[trigger] self.bonds@[j]).key() != key,
            decreases self.bonds@.len() - i,
        {
            let candidate = self.bonds[i].bond_key();
            if candidate == key {
                return Some(i);
            }
            i = i + 1;
        }
        None
    }

    /// Registers a new bond with the given terms, owned by `freelancer` and
    /// keyed by the owner together with `bond_seed`.  The bond starts
    /// `Open`, unfunded and without a repayment plan; no value moves.  On
    /// any failed check the ledger is left unchanged, with the error saying
    /// which check failed.
    pub fn create_bond(
        &mut self,
        freelancer: AccountId,
        bond_seed: u64,
        amount: u64,
        duration: u8,
        interest_rate: u8,
        income_proof: String,
        description: String,
        repayment_type: RepaymentType,
        now: i64,
    ) -> (created: Result<BondCreatedEvent, OpError>)
        requires
            old(self).wf(),
        ensures
            final(self).wf(),
            no_status_regression(old(self).bonds@, final(self).bonds@),
            ({
                let err = create_bond_error(
                    *old(self), freelancer, bond_seed, amount, duration, interest_rate,
                    income_proof@, description@,
                );
                match err {
                    Some(e) => created == Err::<BondCreatedEvent, OpError>(e)
                        && same_state(*old(self), *final(self)),
                    None => {
                        &&& final(self).bonds@ == old(self).bonds@.push((Bond {
                            freelancer,
                            amount,
                            duration,
                            interest_rate,
                            funded: 0,
                            status: BondStatus::Open,
                            income_proof,
                            description,
                            created_at: now,
                            bond_seed,
                            repayment_type,
                            installments: 0,
                        }))
                        &&& final(self).investments@ == old(self).investments@
                        &&& final(self).repayments@ == old(self).repayments@
                        &&& created == Ok::<BondCreatedEvent, OpError>((BondCreatedEvent {
                            bond: spec_derive_key(freelancer, bond_seed),
                            freelancer,
                            amount,
                            duration,
                            interest_rate,
                            repayment_type,
                        }))
                    },
                }
            }),
    {
        let key = derive_key(freelancer, bond_seed);
        if self.find_bond(key).is_some() {
            return Err(OpError::DuplicateBond);
        }
        if !valid_amount(amount) {
            return Err(OpError::Validation(ErrorCode::InvalidAmount));
        }
        if !valid_duration(duration) {
            return Err(OpError::Validation(ErrorCode::InvalidDuration));
        }
        if !valid_interest_rate(interest_rate) {
            return Err(OpError::Validation(ErrorCode::InvalidInterestRate));
        }
        if income_proof.as_str().unicode_len() > MAX_INCOME_PROOF_LEN {
            return Err(OpError::Validation(ErrorCode::StringTooLong));
        }
        if description.as_str().unicode_len() > MAX_DESCRIPTION_LEN {
            return Err(OpError::Validation(ErrorCode::StringTooLong));
        }
        let bond = Bond {
            freelancer,
            amount,
            duration,
            interest_rate,
            funded: 0,
            status: BondStatus::Open,
            income_proof,
            description,
            created_at: now,
            bond_seed,
            repayment_type,
            installments: 0,
        };
        self.bonds.push(bond);
        proof {
            let pre = *old(self);
            let post = *self;
            assert forall|j: int|
                0 <= j < pre.investments@.len() implies (#[trigger] pre.investments@[j]).bond
                != key by {
                let i = choose|i: int|
                    0 <= i < pre.bonds@.len() && pre.investments@[j].bond == pre.bonds@[i].key();
            };
            lemma_sum_invested_absent(pre.investments@, key);
            assert forall|j: int|
                0 <= j < post.investments@.len() implies exists|i: int|
                0 <= i < post.bonds@.len()
                    && (#[trigger] post.investments@[j]).bond == post.bonds@[i].key() by {
                let i = choose|i: int|
                    0 <= i < pre.bonds@.len() && pre.investments@[j].bond == pre.bonds@[i].key();
                assert(post.investments@[j].bond == post.bonds@[i].key());
            };
        }
        Ok(BondCreatedEvent { bond: key, freelancer, amount, duration, interest_rate, repayment_type })
    }

    /// Invests `amount` in the bond at `bond_index`: the rail moves the
    /// amount from `investor` to the freelancer's account
    /// (`freelancer_account`, which must be the bond's owner), and only on
    /// rail success (`transfer_ok`) is the contribution recorded — an
    /// immutable `Investment` — and `funded` raised.  The bond becomes
    /// `Funded` exactly when it reaches its principal.  Investing in a bond
    /// that is not open, or past its funding cap, fails with no state
    /// change, as does a failed transfer.
    pub fn invest(
        &mut self,
        investor: AccountId,
        freelancer_account: AccountId,
        bond_index: usize,
        amount: u64,
        now: i64,
        transfer_ok: bool,
    ) -> (invested: Result<InvestmentEvent, OpError>)
        requires
            old(self).wf(),
            bond_index < old(self).bonds@.len(),
        ensures
            final(self).wf(),
            no_status_regression(old(self).bonds@, final(self).bonds@),
            ({
                let bond = old(self).bonds@[bond_index as int];
                match invest_error(bond, freelancer_account, amount, transfer_ok) {
                    Some(e) => invested == Err::<InvestmentEvent, OpError>(e)
                        && same_state(*old(self), *final(self)),
                    None => {
                        &&& final(self).bonds@ == old(self).bonds@.update(
                            bond_index as int,
                            bond_after_invest(bond, amount),
                        )
                        &&& final(self).investments@ == old(self).investments@.push((Investment {
                            investor,
                            bond: bond.key(),
                            amount,
                            created_at: now,
                        }))
                        &&& final(self).repayments@ == old(self).repayments@
                        &&& invested == Ok::<InvestmentEvent, OpError>((InvestmentEvent {
                            investment: old(self).investments@.len() as u64,
                            bond: bond.key(),
                            investor,
                            amount,
                        }))
                    },
                }
            }),
            // Investing when the bond is already fully funded, or no longer
            // open, always fails and changes nothing.
            (old(self).bonds@[bond_index as int].status !is Open
                || old(self).bonds@[bond_index as int].funded
                    == old(self).bonds@[bond_index as int].amount) ==> invested is Err
                && same_state(*old(self), *final(self)),
    {
        let bond_freelancer = self.bonds[bond_index].freelancer;
        let bond_status = self.bonds[bond_index].status;
        let bond_amount = self.bonds[bond_index].amount;
        let bond_funded = self.bonds[bond_index].funded;
        let key = self.bonds[bond_index].bond_key();
        if freelancer_account != bond_freelancer {
            return Err(OpError::Validation(ErrorCode::InvalidFreelancer));
        }
        if bond_status != BondStatus::Open {
            return Err(OpError::Validation(ErrorCode::BondNotOpen));
        }
        if amount == 0 {
            return Err(OpError::Validation(ErrorCode::InvalidAmount));
        }
        assert(self.bonds@[bond_index as int].wf());
        if amount > bond_amount - bond_funded {
            return Err(OpError::Validation(ErrorCode::BondOverfunded));
        }
        if !transfer_ok {
            return Err(OpError::TransferFailed);
        }
        let new_funded = bond_funded + amount;
        let bond_ref = &mut self.bonds[bond_index];
        bond_ref.funded = new_funded;
        if new_funded == bond_amount {
            bond_ref.status = BondStatus::Funded;
        }
        let investment_id = self.investments.len() as u64;
        let record = Investment { investor, bond: key, amount, created_at: now };
        self.investments.push(record);
        proof {
            let pre = *old(self);
            let post = *self;
            let i = bond_index as int;
            let x = Investment { investor, bond: pre.bonds@[i].key(), amount, created_at: now };
            assert(post.bonds@ =~= pre.bonds@.update(i, bond_after_invest(pre.bonds@[i], amount)));
            assert forall|j: int|
                0 <= j < post.bonds@.len() implies sum_invested(
                post.investments@,
                (#[trigger] post.bonds@[j]).key(),
            ) == post.bonds@[j].funded as int by {
                lemma_sum_invested_push(pre.investments@, x, post.bonds@[j].key());
                assert(post.bonds@[j].key() == pre.bonds@[j].key());
            };
            assert forall|j: int|
                0 <= j < post.investments@.len() implies exists|i2: int|
                0 <= i2 < post.bonds@.len()
                    && (#[trigger] post.investments@[j]).bond == post.bonds@[i2].key() by {
                if j < pre.investments@.len() {
                    let w = choose|w: int|
                        0 <= w < pre.bonds@.len()
                            && pre.investments@[j].bond == pre.bonds@[w].key();
                    assert(post.investments@[j].bond == post.bonds@[w].key());
                } else {
                    assert(post.investments@[j].bond == post.bonds@[i].key());
                }
            };
        }
        Ok(InvestmentEvent { investment: investment_id, bond: key, investor, amount })
    }

    /// Number of repayments of the bond keyed `key` that are still pending.
    pub fn pending_repayments(&self, key: BondKey) -> (n: usize)
        ensures
            n as int == count_pending(self.repayments@, key),
    {
        let mut n: usize = 0;
        let mut j: usize = 0;
        while j < self.repayments.len()
            invariant
                j <= self.repayments@.len(),
                n <= j,
                n as int == count_pending(self.repayments@.take(j as int), key),
            decreases self.repayments@.len() - j,
        {
            let r = &self.repayments[j];
            if r.bond == key && r.status == RepaymentStatus::Pending {
                n = n + 1;
            }
            proof {
                assert(self.repayments@.take(j as int + 1).drop_last()
                    =~= self.repayments@.take(j as int));
            }
            j = j + 1;
        }
        proof {
            assert(self.repayments@.take(self.repayments@.len() as int) =~= self.repayments@);
        }
        n
    }

    /// Establishes the repayment plan of a funded installment bond: splits
    /// the lump-sum total evenly across `installments` pending repayments
    /// toward the investor of the investment at `investment_index` — the
    /// remainder of the division goes to the final installment, so the
    /// schedule collects the total exactly — spaces their due dates evenly
    /// across the bond's duration, sets the bond's installment count, and
    /// moves it to `Repaying`.  No value moves.  On any failed check the
    /// ledger is left unchanged.
    pub fn create_repayment_plan(
        &mut self,
        freelancer: AccountId,
        bond_index: usize,
        investment_index: usize,
        installments: u8,
        now: i64,
    ) -> (planned: Result<RepaymentPlanCreatedEvent, OpError>)
        requires
            old(self).wf(),
            bond_index < old(self).bonds@.len(),
            investment_index < old(self).investments@.len(),
            0 <= now <= MAX_TIMESTAMP,
        ensures
            final(self).wf(),
            no_status_regression(old(self).bonds@, final(self).bonds@),
            ({
                let bond = old(self).bonds@[bond_index as int];
                let investment = old(self).investments@[investment_index as int];
                match plan_error(bond, freelancer, investment, installments) {
                    Some(e) => planned == Err::<RepaymentPlanCreatedEvent, OpError>(e)
                        && same_state(*old(self), *final(self)),
                    None => {
                        &&& final(self).bonds@ == old(self).bonds@.update(
                            bond_index as int,
                            bond_after_plan(bond, installments),
                        )
                        &&& final(self).investments@ == old(self).investments@
                        &&& final(self).repayments@ == old(self).repayments@ + schedule_of(
                            bond,
                            investment.investor,
                            installments as int,
                            now as int,
                        )
                        &&& planned == Ok::<RepaymentPlanCreatedEvent, OpError>((
                        RepaymentPlanCreatedEvent {
                            bond: bond.key(),
                            freelancer,
                            installments,
                        }))
                    },
                }
            }),
    {
        let bond_freelancer = self.bonds[bond_index].freelancer;
        let bond_status = self.bonds[bond_index].status;
        let bond_amount = self.bonds[bond_index].amount;
        let bond_duration = self.bonds[bond_index].duration;
        let bond_rate = self.bonds[bond_index].interest_rate;
        let bond_type = self.bonds[bond_index].repayment_type;
        let key = self.bonds[bond_index].bond_key();
        let inv_investor = self.investments[investment_index].investor;
        let inv_bond = self.investments[investment_index].bond;
        if freelancer != bond_freelancer {
            return Err(OpError::Validation(ErrorCode::NotBondOwner));
        }
        if inv_bond != key {
            return Err(OpError::Validation(ErrorCode::InvalidInvestment));
        }
        if bond_status != BondStatus::Funded {
            return Err(OpError::Validation(ErrorCode::BondNotFunded));
        }
        if bond_type != RepaymentType::Installments {
            return Err(OpError::Validation(ErrorCode::InvalidRepaymentType));
        }
        if installments == 0 || installments > bond_duration {
            return Err(OpError::Validation(ErrorCode::InvalidInstallments));
        }
        let ghost bsnap = self.bonds@[bond_index as int];
        assert(bsnap.wf());
        let total = lump_sum_total(bond_amount, bond_rate);
        let n = installments;
        let per = total / (n as u64);
        let rem = total % (n as u64);
        let mut schedule: Vec<Repayment> = Vec::new();
        let mut k: u8 = 1;
        while k <= n
            invariant
                1 <= k as int <= n as int + 1,
                bsnap.wf(),
                0 < n <= bond_duration,
                bond_duration == bsnap.duration,
                bond_amount == bsnap.amount,
                bond_rate == bsnap.interest_rate,
                key == bsnap.key(),
                total as int == total_due(bsnap.amount as int, bsnap.interest_rate as int),
                per as int == total as int / n as int,
                rem as int == total as int % n as int,
                0 <= now <= MAX_TIMESTAMP,
                schedule@ == schedule_of(bsnap, inv_investor, n as int, now as int).take(
                    k as int - 1,
                ),
            decreases n as int + 1 - k as int,
        {
            proof {
                lemma_total_due_fits(bsnap.amount as int, bsnap.interest_rate as int);
                vstd::arithmetic::div_mod::lemma_fundamental_div_mod(total as int, n as int);
                vstd::arithmetic::mul::lemma_mul_inequality(1, n as int, per as int);
                vstd::arithmetic::mul::lemma_mul_basics(per as int);
                vstd::arithmetic::mul::lemma_mul_upper_bound(
                    k as int,
                    MAX_DURATION as int,
                    bond_duration as int,
                    MAX_DURATION as int,
                );
                lemma_due_offset_bounds(bond_duration as int, n as int, k as int);
            }
            let amount_k = if k < n {
                per
            } else {
                per + rem
            };
            let offset = ((k as u64) * (bond_duration as u64) * SECONDS_PER_PERIOD) / (n as u64);
            let due = now + (offset as i64);
            let record = Repayment {
                bond: key,
                investor: inv_investor,
                amount: amount_k,
                due_date: due,
                status: RepaymentStatus::Pending,
                created_at: now,
                paid_at: None,
                installment_number: k,
            };
            schedule.push(record);
            proof {
                let sched = schedule_of(bsnap, inv_investor, n as int, now as int);
                assert(record == sched[k as int - 1]);
                assert(schedule@ =~= sched.take(k as int));
            }
            k = k + 1;
        }
        proof {
            let sched = schedule_of(bsnap, inv_investor, n as int, now as int);
            assert(schedule@ =~= sched);
        }
        let bond_ref = &mut self.bonds[bond_index];
        bond_ref.installments = n;
        bond_ref.status = BondStatus::Repaying;
        self.repayments.append(&mut schedule);
        proof {
            let pre = *old(self);
            let post = *self;
            let i = bond_index as int;
            assert(post.bonds@ =~= pre.bonds@.update(i, bond_after_plan(bsnap, n)));
            assert forall|j: int|
                0 <= j < post.bonds@.len() implies sum_invested(
                post.investments@,
                (#[trigger] post.bonds@[j]).key(),
            ) == post.bonds@[j].funded as int by {
                assert(post.bonds@[j].key() == pre.bonds@[j].key());
                assert(post.bonds@[j].funded == pre.bonds@[j].funded);
            };
            assert forall|j: int|
                0 <= j < post.investments@.len() implies exists|i2: int|
                0 <= i2 < post.bonds@.len()
                    && (#[trigger] post.investments@[j]).bond == post.bonds@[i2].key() by {
                let w = choose|w: int|
                    0 <= w < pre.bonds@.len() && pre.investments@[j].bond == pre.bonds@[w].key();
                assert(post.investments@[j].bond == post.bonds@[w].key());
            };
        }
        Ok(RepaymentPlanCreatedEvent { bond: key, freelancer, installments: n })
    }

    /// Settles one repayment: the rail moves its exact amount from the
    /// freelancer (who must own the bond) to the repayment's investor
    /// (`investor_account`), and only on rail success is the repayment
    /// marked paid, exactly once.  When the last pending repayment of a
    /// repaying bond settles, the bond completes.  Settling a repayment
    /// that is not pending always fails with no state change — a repayment
    /// can never be settled twice.
    pub fn make_repayment(
        &mut self,
        freelancer: AccountId,
        investor_account: AccountId,
        bond_index: usize,
        repayment_index: usize,
        amount: u64,
        now: i64,
        transfer_ok: bool,
    ) -> (settled: Result<RepaymentEvent, OpError>)
        requires
            old(self).wf(),
            bond_index < old(self).bonds@.len(),
            repayment_index < old(self).repayments@.len(),
        ensures
            final(self).wf(),
            no_status_regression(old(self).bonds@, final(self).bonds@),
            ({
                let bond = old(self).bonds@[bond_index as int];
                let repayment = old(self).repayments@[repayment_index as int];
                match repayment_error(
                    bond, repayment, freelancer, investor_account, amount, transfer_ok,
                ) {
                    Some(e) => settled == Err::<RepaymentEvent, OpError>(e)
                        && same_state(*old(self), *final(self)),
                    None => ({
                        let rs = old(self).repayments@.update(
                            repayment_index as int,
                            (Repayment {
                                status: RepaymentStatus::Paid,
                                paid_at: Some(now),
                                ..repayment
                            }),
                        );
                        &&& final(self).repayments@ == rs
                        &&& final(self).bonds@ == old(self).bonds@.update(
                            bond_index as int,
                            (Bond {
                                status: if count_pending(rs, bond.key()) == 0
                                    && bond.status is Repaying {
                                    BondStatus::Completed
                                } else {
                                    bond.status
                                },
                                ..bond
                            }),
                        )
                        &&& final(self).investments@ == old(self).investments@
                        &&& settled == Ok::<RepaymentEvent, OpError>((RepaymentEvent {
                            repayment: repayment_index as u64,
                            bond: bond.key(),
                            amount,
                        }))
                    }),
                }
            }),
            // Settling a repayment whose status is not pending always fails
            // and changes nothing: settling twice is impossible.
            old(self).repayments@[repayment_index as int].status !is Pending ==> settled is Err
                && same_state(*old(self), *final(self)),
    {
        let bond_freelancer = self.bonds[bond_index].freelancer;
        let bond_status = self.bonds[bond_index].status;
        let key = self.bonds[bond_index].bond_key();
        let r_bond = self.repayments[repayment_index].bond;
        let r_investor = self.repayments[repayment_index].investor;
        let r_status = self.repayments[repayment_index].status;
        let r_amount = self.repayments[repayment_index].amount;
        if freelancer != bond_freelancer {
            return Err(OpError::Validation(ErrorCode::NotBondOwner));
        }
        if r_bond != key {
            return Err(OpError::Validation(ErrorCode::InvalidRepayment));
        }
        if investor_account != r_investor {
            return Err(OpError::Validation(ErrorCode::InvalidInvestor));
        }
        if r_status != RepaymentStatus::Pending {
            return Err(OpError::Validation(ErrorCode::RepaymentNotPending));
        }
        if amount != r_amount {
            return Err(OpError::Validation(ErrorCode::InvalidAmount));
        }
        if !transfer_ok {
            return Err(OpError::TransferFailed);
        }
        let repayment_ref = &mut self.repayments[repayment_index];
        repayment_ref.status = RepaymentStatus::Paid;
        repayment_ref.paid_at = Some(now);
        let remaining = self.pending_repayments(key);
        if remaining == 0 {
            let bond_ref = &mut self.bonds[bond_index];
            if bond_ref.status == BondStatus::Repaying {
                bond_ref.status = BondStatus::Completed;
            }
        }
        proof {
            let pre = *old(self);
            let post = *self;
            let bi = bond_index as int;
            let ri = repayment_index as int;
            let bond = pre.bonds@[bi];
            let rs = pre.repayments@.update(
                ri,
                (Repayment {
                    status: RepaymentStatus::Paid,
                    paid_at: Some(now),
                    ..pre.repayments@[ri]
                }),
            );
            assert(post.repayments@ =~= rs);
            assert(post.bonds@ =~= pre.bonds@.update(
                bi,
                (Bond {
                    status: if count_pending(rs, bond.key()) == 0 && bond.status is Repaying {
                        BondStatus::Completed
                    } else {
                        bond.status
                    },
                    ..bond
                }),
            ));
            assert forall|j: int|
                0 <= j < post.bonds@.len() implies sum_invested(
                post.investments@,
                (#[trigger] post.bonds@[j]).key(),
            ) == post.bonds@[j].funded as int by {
                assert(post.bonds@[j].key() == pre.bonds@[j].key());
                assert(post.bonds@[j].funded == pre.bonds@[j].funded);
            };
            assert forall|j: int|
                0 <= j < post.investments@.len() implies exists|i2: int|
                0 <= i2 < post.bonds@.len()
                    && (#[trigger] post.investments@[j]).bond == post.bonds@[i2].key() by {
                let w = choose|w: int|
                    0 <= w < pre.bonds@.len() && pre.investments@[j].bond == pre.bonds@[w].key();
                assert(post.investments@[j].bond == post.bonds@[w].key());
            };
        }
        Ok(RepaymentEvent { repayment: repayment_index as u64, bond: key, amount })
    }

    /// Settles a funded bond with one lump sum: the rail moves principal
    /// plus interest from the freelancer (who must own the bond) to the
    /// investor of the investment at `investment_index`, and only on rail
    /// success does the bond complete.  The event carries the exact total
    /// transferred.  On any failed check the ledger is left unchanged.
    pub fn make_lump_sum_repayment(
        &mut self,
        freelancer: AccountId,
        investor_account: AccountId,
        bond_index: usize,
        investment_index: usize,
        transfer_ok: bool,
    ) -> (repaid: Result<LumpSumRepaymentEvent, OpError>)
        requires
            old(self).wf(),
            bond_index < old(self).bonds@.len(),
            investment_index < old(self).investments@.len(),
        ensures
            final(self).wf(),
            no_status_regression(old(self).bonds@, final(self).bonds@),
            ({
                let bond = old(self).bonds@[bond_index as int];
                let investment = old(self).investments@[investment_index as int];
                match lump_sum_error(bond, investment, freelancer, investor_account, transfer_ok) {
                    Some(e) => repaid == Err::<LumpSumRepaymentEvent, OpError>(e)
                        && same_state(*old(self), *final(self)),
                    None => {
                        &&& final(self).bonds@ == old(self).bonds@.update(
                            bond_index as int,
                            (Bond { status: BondStatus::Completed, ..bond }),
                        )
                        &&& final(self).investments@ == old(self).investments@
                        &&& final(self).repayments@ == old(self).repayments@
                        &&& repaid == Ok::<LumpSumRepaymentEvent, OpError>((LumpSumRepaymentEvent {
                            bond: bond.key(),
                            freelancer,
                            amount: total_due(
                                bond.amount as int,
                                bond.interest_rate as int,
                            ) as u64,
                        }))
                    },
                }
            }),
    {
        let bond_freelancer = self.bonds[bond_index].freelancer;
        let bond_status = self.bonds[bond_index].status;
        let bond_amount = self.bonds[bond_index].amount;
        let bond_rate = self.bonds[bond_index].interest_rate;
        let key = self.bonds[bond_index].bond_key();
        let inv_investor = self.investments[investment_index].investor;
        let inv_bond = self.investments[investment_index].bond;
        if freelancer != bond_freelancer {
            return Err(OpError::Validation(ErrorCode::NotBondOwner));
        }
        if inv_bond != key {
            return Err(OpError::Validation(ErrorCode::InvalidInvestment));
        }
        if investor_account != inv_investor {
            return Err(OpError::Validation(ErrorCode::InvalidInvestor));
        }
        if bond_status != BondStatus::Funded {
            return Err(OpError::Validation(ErrorCode::BondNotFunded));
        }
        if !transfer_ok {
            return Err(OpError::TransferFailed);
        }
        assert(self.bonds@[bond_index as int].wf());
        let total = lump_sum_total(bond_amount, bond_rate);
        let bond_ref = &mut self.bonds[bond_index];
        bond_ref.status = BondStatus::Completed;
        proof {
            let pre = *old(self);
            let post = *self;
            let i = bond_index as int;
            assert(post.bonds@ =~= pre.bonds@.update(
                i,
                (Bond { status: BondStatus::Completed, ..pre.bonds@[i] }),
            ));
            assert forall|j: int|
                0 <= j < post.bonds@.len() implies sum_invested(
                post.investments@,
                (#[trigger] post.bonds@[j]).key(),
            ) == post.bonds@[j].funded as int by {
                assert(post.bonds@[j].key() == pre.bonds@[j].key());
                assert(post.bonds@[j].funded == pre.bonds@[j].funded);
            };
            assert forall|j: int|
                0 <= j < post.investments@.len() implies exists|i2: int|
                0 <= i2 < post.bonds@.len()
                    && (#[trigger] post.investments@[j]).bond == post.bonds@[i2].key() by {
                let w = choose|w: int|
                    0 <= w < pre.bonds@.len() && pre.investments@[j].bond == pre.bonds@[w].key();
                assert(post.investments@[j].bond == post.bonds@[w].key());
            };
        }
        Ok(LumpSumRepaymentEvent { bond: key, freelancer, amount: total })
    }
}

} // verus!
