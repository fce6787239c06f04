//! Token registry and marketplace ledgers for uniquely numbered assets.

pub mod account;
pub mod account_map;
pub mod events;
pub mod keys;
pub mod laws;
pub mod ledger;
pub mod market;
pub mod metadata;
pub mod owner_index;
pub mod royalty;
pub mod storage;
pub mod token;
