//! A ledger of accounts and the transfers between them: accounts get dense ids in
//! order of creation, transfers are checked against the sender's balance, and every
//! successful transfer is appended to a log that can be queried per account.

pub mod laws;
pub mod ledger;
