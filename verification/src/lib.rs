//! An NFT marketplace ledger: listings (asks), offers (bids and collection
//! bids), settlement with royalty distribution, and durable aggregates
//! (sale history, total value locked), all over an ordered, indexed record
//! store kept consistent under every mutation.

pub mod decimal;
pub mod error;
pub mod contract;
pub mod keys;
pub mod laws;
pub mod msg;
pub mod query;
pub mod state;
pub mod table;
