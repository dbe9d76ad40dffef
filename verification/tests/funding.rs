use bytebonds::ledger::Ledger;
use bytebonds::model::{
    AccountId, BondStatus, ErrorCode, OpError, RepaymentType, derive_key,
};

fn owner() -> AccountId {
    AccountId { id: 3 }
}

fn alice() -> AccountId {
    AccountId { id: 11 }
}

fn bob() -> AccountId {
    AccountId { id: 12 }
}

fn ledger_with_open_bond(amount: u64) -> Ledger {
    let mut l = Ledger::new();
    l.create_bond(
        owner(),
        42,
        amount,
        10,
        5,
        String::new(),
        String::new(),
        RepaymentType::LumpSum,
        0,
    )
    .unwrap();
    l
}

#[test]
fn invest_records_contribution_and_funds_bond() {
    let mut l = ledger_with_open_bond(500);
    let ev = l.invest(alice(), owner(), 0, 200, 10, true).unwrap();
    assert_eq!(ev.investment, 0);
    assert_eq!(ev.bond, derive_key(owner(), 42));
    assert_eq!(ev.investor, alice());
    assert_eq!(ev.amount, 200);
    assert_eq!(l.get_bond(0).funded, 200);
    assert_eq!(l.get_bond(0).status, BondStatus::Open);
    let ev = l.invest(bob(), owner(), 0, 300, 11, true).unwrap();
    assert_eq!(ev.investment, 1);
    assert_eq!(l.get_bond(0).funded, 500);
    assert_eq!(l.get_bond(0).status, BondStatus::Funded);
    assert_eq!(l.investment_count(), 2);
    let first = l.get_investment(0);
    assert_eq!(first.investor, alice());
    assert_eq!(first.amount, 200);
    assert_eq!(first.created_at, 10);
    // The recorded contributions sum to the bond's funded amount exactly.
    let sum: u64 = (0..l.investment_count()).map(|i| l.get_investment(i).amount).sum();
    assert_eq!(sum, l.get_bond(0).funded);
}

#[test]
fn overfunding_fails_and_leaves_funding_unchanged() {
    let mut l = ledger_with_open_bond(500);
    l.invest(alice(), owner(), 0, 300, 10, true).unwrap();
    let r = l.invest(bob(), owner(), 0, 300, 11, true);
    assert_eq!(r.unwrap_err(), OpError::Validation(ErrorCode::BondOverfunded));
    assert_eq!(l.get_bond(0).funded, 300);
    assert_eq!(l.investment_count(), 1);
}

#[test]
fn investing_in_a_full_or_closed_bond_fails() {
    let mut l = ledger_with_open_bond(500);
    l.invest(alice(), owner(), 0, 500, 10, true).unwrap();
    // Fully funded: the bond is no longer open.
    let r = l.invest(bob(), owner(), 0, 1, 11, true);
    assert_eq!(r.unwrap_err(), OpError::Validation(ErrorCode::BondNotOpen));
    assert_eq!(l.get_bond(0).funded, 500);
    assert_eq!(l.investment_count(), 1);
    l.make_lump_sum_repayment(owner(), alice(), 0, 0, true).unwrap();
    let r = l.invest(bob(), owner(), 0, 1, 12, true);
    assert_eq!(r.unwrap_err(), OpError::Validation(ErrorCode::BondNotOpen));
    assert_eq!(l.get_bond(0).status, BondStatus::Completed);
}

#[test]
fn invest_rejects_zero_and_wrong_freelancer_account() {
    let mut l = ledger_with_open_bond(500);
    let r = l.invest(alice(), alice(), 0, 100, 10, true);
    assert_eq!(r.unwrap_err(), OpError::Validation(ErrorCode::InvalidFreelancer));
    let r = l.invest(alice(), owner(), 0, 0, 10, true);
    assert_eq!(r.unwrap_err(), OpError::Validation(ErrorCode::InvalidAmount));
    assert_eq!(l.get_bond(0).funded, 0);
    assert_eq!(l.investment_count(), 0);
}

#[test]
fn failed_transfer_aborts_investment_without_state_change() {
    let mut l = ledger_with_open_bond(500);
    let r = l.invest(alice(), owner(), 0, 200, 10, false);
    assert_eq!(r.unwrap_err(), OpError::TransferFailed);
    assert_eq!(l.get_bond(0).funded, 0);
    assert_eq!(l.get_bond(0).status, BondStatus::Open);
    assert_eq!(l.investment_count(), 0);
}
