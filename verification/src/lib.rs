//! A ledger for short-term, peer-funded debt instruments ("bonds").
//!
//! A freelancer requests funding under fixed terms, investors supply funds,
//! and the freelancer repays principal plus a flat interest either as a
//! single lump sum or as scheduled installments.  The core of the crate is
//! the bond lifecycle and accounting state machine: how a bond accumulates
//! funding, transitions between states, computes interest, generates and
//! settles repayments, and the invariants that rule out overfunding,
//! double payment, and inconsistent status.
//!
//! Storage addressing, caller authentication, the value-transfer rail and
//! event delivery are external collaborators: operations receive an
//! already-authenticated caller identity, a clock reading, and the outcome
//! of the transfer they demanded, and say exactly what the ledger does for
//! every such outcome.

pub mod ledger;
pub mod math;
pub mod model;
