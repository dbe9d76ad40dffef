use bytebonds::ledger::Ledger;
use bytebonds::model::{
    AccountId, BondStatus, ErrorCode, OpError, RepaymentStatus, RepaymentType, derive_key,
};

fn owner() -> AccountId {
    AccountId { id: 3 }
}

fn alice() -> AccountId {
    AccountId { id: 11 }
}

fn repaying_ledger() -> Ledger {
    // Principal 1000 at 10 percent, four installments of 275 each.
    let mut l = Ledger::new();
    l.create_bond(
        owner(),
        1,
        1000,
        8,
        10,
        String::new(),
        String::new(),
        RepaymentType::Installments,
        0,
    )
    .unwrap();
    l.invest(alice(), owner(), 0, 1000, 5, true).unwrap();
    l.create_repayment_plan(owner(), 0, 0, 4, 10).unwrap();
    l
}

#[test]
fn settling_marks_paid_and_completes_after_the_last() {
    let mut l = repaying_ledger();
    let key = derive_key(owner(), 1);
    assert_eq!(l.pending_repayments(key), 4);
    for k in 0..4usize {
        let ev = l.make_repayment(owner(), alice(), 0, k, 275, 100 + k as i64, true).unwrap();
        assert_eq!(ev.repayment, k as u64);
        assert_eq!(ev.amount, 275);
        let r = l.get_repayment(k);
        assert_eq!(r.status, RepaymentStatus::Paid);
        assert_eq!(r.paid_at, Some(100 + k as i64));
        assert_eq!(l.pending_repayments(key), 3 - k);
        if k < 3 {
            assert_eq!(l.get_bond(0).status, BondStatus::Repaying);
        }
    }
    assert_eq!(l.get_bond(0).status, BondStatus::Completed);
}

#[test]
fn settling_twice_is_impossible() {
    let mut l = repaying_ledger();
    l.make_repayment(owner(), alice(), 0, 1, 275, 100, true).unwrap();
    let r = l.make_repayment(owner(), alice(), 0, 1, 275, 101, true);
    assert_eq!(r.unwrap_err(), OpError::Validation(ErrorCode::RepaymentNotPending));
    // The settlement time of the first call is untouched.
    assert_eq!(l.get_repayment(1).paid_at, Some(100));
    assert_eq!(l.get_bond(0).status, BondStatus::Repaying);
}

#[test]
fn settling_demands_the_exact_amount() {
    let mut l = repaying_ledger();
    let r = l.make_repayment(owner(), alice(), 0, 0, 274, 100, true);
    assert_eq!(r.unwrap_err(), OpError::Validation(ErrorCode::InvalidAmount));
    let r = l.make_repayment(owner(), alice(), 0, 0, 276, 100, true);
    assert_eq!(r.unwrap_err(), OpError::Validation(ErrorCode::InvalidAmount));
    assert_eq!(l.get_repayment(0).status, RepaymentStatus::Pending);
}

#[test]
fn settling_checks_owner_investor_and_rail() {
    let mut l = repaying_ledger();
    let r = l.make_repayment(alice(), alice(), 0, 0, 275, 100, true);
    assert_eq!(r.unwrap_err(), OpError::Validation(ErrorCode::NotBondOwner));
    let r = l.make_repayment(owner(), owner(), 0, 0, 275, 100, true);
    assert_eq!(r.unwrap_err(), OpError::Validation(ErrorCode::InvalidInvestor));
    let r = l.make_repayment(owner(), alice(), 0, 0, 275, 100, false);
    assert_eq!(r.unwrap_err(), OpError::TransferFailed);
    assert_eq!(l.get_repayment(0).status, RepaymentStatus::Pending);
    assert_eq!(l.get_bond(0).status, BondStatus::Repaying);
}

#[test]
fn settling_a_repayment_of_another_bond_is_rejected() {
    let mut l = repaying_ledger();
    // A second repaying bond, whose repayment cannot settle against the first.
    l.create_bond(
        owner(),
        2,
        600,
        6,
        10,
        String::new(),
        String::new(),
        RepaymentType::Installments,
        0,
    )
    .unwrap();
    l.invest(alice(), owner(), 1, 600, 6, true).unwrap();
    l.create_repayment_plan(owner(), 1, 1, 2, 10).unwrap();
    // Repayments 4 and 5 belong to the second bond.
    let r = l.make_repayment(owner(), alice(), 0, 4, 330, 100, true);
    assert_eq!(r.unwrap_err(), OpError::Validation(ErrorCode::InvalidRepayment));
    let ev = l.make_repayment(owner(), alice(), 1, 4, 330, 100, true).unwrap();
    assert_eq!(ev.amount, 330);
    // Completing the second bond leaves the first repaying.
    l.make_repayment(owner(), alice(), 1, 5, 330, 101, true).unwrap();
    assert_eq!(l.get_bond(1).status, BondStatus::Completed);
    assert_eq!(l.get_bond(0).status, BondStatus::Repaying);
}
