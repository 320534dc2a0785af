//! Namespaced key-value attributes on the items and collections of an asset
//! registry, with per-attribute deposits, lock settings and delegated write
//! access, all under verified contracts.

pub mod types;
pub mod ledger;
pub mod store;
pub mod attributes;
pub mod approvals;
pub mod reads;
pub mod rpc;
pub mod laws;
