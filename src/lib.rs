//! Cross-chain non-fungible-token transfer engine (ICS-721 style).
//!
//! Collections and custody records are plain-value ledgers; the outbound
//! engine turns deposits (one token, or a batch) into packets, the inbound
//! engine turns packets into nested requests, the reply coordinator folds
//! their completions into one acknowledgement, and the resolver rolls back
//! failed sends. The laws module states the protocol's invariants and
//! round-trip properties as proved lemmas.
pub mod access;
pub mod batch;
pub mod contract;
pub mod coordinator;
pub mod error;
pub mod inbound;
pub mod laws;
pub mod ledger;
pub mod msg;
pub mod outbound;
pub mod packet;
pub mod registry;
pub mod reply;
pub mod resolver;
pub mod state;
