//! Account storage for emulating EVM contracts over an account-based ledger.

pub mod account_storage;
pub mod address;
pub mod contract;
pub mod effects;
pub mod keys;
pub mod report;
pub mod solidity_account;
