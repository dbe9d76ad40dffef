use bytebonds::ledger::Ledger;
use bytebonds::math::SECONDS_PER_PERIOD;
use bytebonds::model::{
    AccountId, BondStatus, ErrorCode, OpError, RepaymentStatus, RepaymentType,
};

fn owner() -> AccountId {
    AccountId { id: 3 }
}

fn alice() -> AccountId {
    AccountId { id: 11 }
}

fn funded_installment_ledger(amount: u64, duration: u8, rate: u8) -> Ledger {
    let mut l = Ledger::new();
    l.create_bond(
        owner(),
        1,
        amount,
        duration,
        rate,
        String::new(),
        String::new(),
        RepaymentType::Installments,
        0,
    )
    .unwrap();
    l.invest(alice(), owner(), 0, amount, 5, true).unwrap();
    l
}

#[test]
fn plan_rejects_zero_or_excessive_installments() {
    let mut l = funded_installment_ledger(1000, 10, 10);
    let r = l.create_repayment_plan(owner(), 0, 0, 0, 100);
    assert_eq!(r.unwrap_err(), OpError::Validation(ErrorCode::InvalidInstallments));
    let r = l.create_repayment_plan(owner(), 0, 0, 11, 100);
    assert_eq!(r.unwrap_err(), OpError::Validation(ErrorCode::InvalidInstallments));
    assert_eq!(l.get_bond(0).status, BondStatus::Funded);
    assert_eq!(l.get_bond(0).installments, 0);
    assert_eq!(l.repayment_count(), 0);
}

#[test]
fn plan_requires_funded_installment_bond_and_owner() {
    let mut l = Ledger::new();
    l.create_bond(
        owner(),
        1,
        1000,
        10,
        10,
        String::new(),
        String::new(),
        RepaymentType::Installments,
        0,
    )
    .unwrap();
    l.invest(alice(), owner(), 0, 400, 5, true).unwrap();
    let r = l.create_repayment_plan(owner(), 0, 0, 4, 100);
    assert_eq!(r.unwrap_err(), OpError::Validation(ErrorCode::BondNotFunded));
    l.invest(alice(), owner(), 0, 600, 6, true).unwrap();
    let r = l.create_repayment_plan(alice(), 0, 0, 4, 100);
    assert_eq!(r.unwrap_err(), OpError::Validation(ErrorCode::NotBondOwner));
    assert_eq!(l.repayment_count(), 0);
}

#[test]
fn plan_rejects_lump_sum_bonds() {
    let mut l = Ledger::new();
    l.create_bond(
        owner(),
        1,
        1000,
        10,
        10,
        String::new(),
        String::new(),
        RepaymentType::LumpSum,
        0,
    )
    .unwrap();
    l.invest(alice(), owner(), 0, 1000, 5, true).unwrap();
    let r = l.create_repayment_plan(owner(), 0, 0, 4, 100);
    assert_eq!(r.unwrap_err(), OpError::Validation(ErrorCode::InvalidRepaymentType));
}

#[test]
fn plan_rejects_an_investment_of_another_bond() {
    let mut l = funded_installment_ledger(1000, 10, 10);
    l.create_bond(
        owner(),
        2,
        600,
        6,
        10,
        String::new(),
        String::new(),
        RepaymentType::Installments,
        0,
    )
    .unwrap();
    l.invest(alice(), owner(), 1, 600, 6, true).unwrap();
    // Investment 1 funded the second bond, not the first.
    let r = l.create_repayment_plan(owner(), 0, 1, 4, 100);
    assert_eq!(r.unwrap_err(), OpError::Validation(ErrorCode::InvalidInvestment));
    assert_eq!(l.repayment_count(), 0);
}

#[test]
fn plan_splits_total_with_remainder_on_final_installment() {
    // Principal 1000 at 10 percent: total 1100 across 7 installments is
    // 157 each, and 158 for the final one (1100 = 6 * 157 + 158).
    let mut l = funded_installment_ledger(1000, 14, 10);
    let ev = l.create_repayment_plan(owner(), 0, 0, 7, 0).unwrap();
    assert_eq!(ev.installments, 7);
    assert_eq!(l.get_bond(0).status, BondStatus::Repaying);
    assert_eq!(l.get_bond(0).installments, 7);
    assert_eq!(l.repayment_count(), 7);
    let mut sum: u64 = 0;
    for k in 0..7usize {
        let r = l.get_repayment(k);
        assert_eq!(r.amount, if k < 6 { 157 } else { 158 });
        assert_eq!(r.status, RepaymentStatus::Pending);
        assert_eq!(r.investor, alice());
        assert_eq!(r.installment_number, (k + 1) as u8);
        assert_eq!(r.paid_at, None);
        sum += r.amount;
    }
    assert_eq!(sum, 1100);
}

#[test]
fn plan_spaces_due_dates_evenly_across_the_duration() {
    let mut l = funded_installment_ledger(1000, 14, 10);
    let now: i64 = 1_000;
    l.create_repayment_plan(owner(), 0, 0, 7, now).unwrap();
    // Seven installments across fourteen periods: one due every two periods,
    // the last exactly at the end of the term.
    let step = 2 * SECONDS_PER_PERIOD as i64;
    for k in 0..7usize {
        let r = l.get_repayment(k);
        assert_eq!(r.due_date, now + (k as i64 + 1) * step);
        assert_eq!(r.created_at, now);
    }
}
