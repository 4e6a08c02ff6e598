//! Stake aggregation, genesis reconciliation and batch disbursement for a
//! proof-of-stake chain, with every computation proved against its contract.
//!
//! - `amount`, `decimal`: token amounts and exact fixed-point fractions.
//! - `address`, `roster`: chain addresses, their resolution, and the named
//!   anchor validators.
//! - `stake`, `named`, `audit`, `ranking`: bonded stake per delegator and per
//!   category, and the figures reported from it.
//! - `ledger`: the genesis allocation and its reconciliation with the supply.
//! - `batch`, `manifest`: multi-leg transfers and the manifests they come from.
//! - `config`, `text`: loaded configuration, and decimal text in and out.
pub mod address;
pub mod amount;
pub mod audit;
pub mod batch;
pub mod config;
pub mod decimal;
pub mod ledger;
pub mod manifest;
pub mod named;
pub mod ranking;
pub mod roster;
pub mod stake;
pub mod text;
