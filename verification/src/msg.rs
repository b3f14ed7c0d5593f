//! Request payloads, pagination cursors, query response shapes, and the
//! transfer instructions the settlement engine emits.
//!
//! The engine never moves assets itself: every payment, refund and NFT
//! handover is returned as a `TransferInstruction` for the surrounding
//! dispatcher to forward to the asset-movement subsystem.

use vstd::prelude::*;
use crate::state::Asset;

verus! {

#[derive(Debug, PartialEq, Eq)]
pub struct InstantiateMsg {
    pub owner: String,
    pub admin: String,
}

/// An asset movement the caller must carry out after a successful call.
#[derive(Debug, PartialEq, Eq)]
pub enum TransferInstruction {
    /// Send a native-currency amount.
    Native { to: String, denom: String, amount: u128 },
    /// Ask a fungible-token contract to transfer an amount.
    Token { contract: String, to: String, amount: u128 },
    /// Ask an NFT contract to hand a token over.
    Nft { contract: String, to: String, token_id: String },
}

impl Clone for TransferInstruction {
    fn clone(&self) -> (r: Self)
        ensures
            r == *self,
    {
        match self {
            TransferInstruction::Native { to, denom, amount } => TransferInstruction::Native {
                to: to.clone(),
                denom: denom.clone(),
                amount: *amount,
            },
            TransferInstruction::Token { contract, to, amount } => TransferInstruction::Token {
                contract: contract.clone(),
                to: to.clone(),
                amount: *amount,
            },
            TransferInstruction::Nft { contract, to, token_id } => TransferInstruction::Nft {
                contract: contract.clone(),
                to: to.clone(),
                token_id: token_id.clone(),
            },
        }
    }
}

/// Offset for pagination over (collection, token id) keys.
#[derive(Debug, PartialEq, Eq)]
pub struct CollectionOffset {
    pub collection: String,
    pub token_id: String,
}

/// Offset for pagination over bids by seller.
#[derive(Debug, PartialEq, Eq)]
pub struct CollectionOffsetBid {
    pub collection: String,
    pub token_id: String,
    pub bidder: String,
}

/// Offset for pagination over collection bids.
#[derive(Debug, PartialEq, Eq)]
pub struct CollectionBidOffset {
    pub price: Asset,
    pub collection: String,
    pub bidder: String,
}

impl CollectionBidOffset {
    pub fn new(price: Asset, collection: String, bidder: String) -> (r: Self)
        ensures
            r.price == price,
            r.collection == collection,
            r.bidder == bidder,
    {
        CollectionBidOffset { price, collection, bidder }
    }
}

/// Offset for pagination over one collection's sale history.
#[derive(Debug, PartialEq, Eq)]
pub struct SaleHistoryOffset {
    pub token_id: String,
    pub time: u64,
}

/// Offset for pagination over a buyer's or seller's sale history.
#[derive(Debug, PartialEq, Eq)]
pub struct SaleHistoryOffsetByUser {
    pub collection: String,
    pub token_id: String,
    pub time: u64,
}

/// A listing restored by the owner during migration.
#[derive(Debug, PartialEq, Eq)]
pub struct QueryOfferingsResult {
    pub token_id: String,
    pub seller: String,
    pub list_price: Asset,
}

#[derive(Debug, PartialEq, Eq)]
pub struct AskResponse {
    pub ask: Option<crate::state::Ask>,
}

#[derive(Debug, PartialEq, Eq)]
pub struct AsksResponse {
    pub asks: Vec<crate::state::Ask>,
}

#[derive(Debug, PartialEq, Eq)]
pub struct AskCountResponse {
    pub count: u32,
}

#[derive(Debug, PartialEq, Eq)]
pub struct BidResponse {
    pub bid: Option<crate::state::Bid>,
}

#[derive(Debug, PartialEq, Eq)]
pub struct BidsResponse {
    pub bids: Vec<crate::state::Bid>,
}

#[derive(Debug, PartialEq, Eq)]
pub struct SaleHistroyResponse {
    pub sale_history: Vec<crate::state::SaleInfo>,
}

#[derive(Debug, PartialEq, Eq)]
pub struct TvlResponse {
    pub tvl: Vec<crate::state::TvlInfo>,
}

#[derive(Debug, PartialEq, Eq)]
pub struct TvlIndividualResponse {
    pub tvl: Option<crate::state::TvlInfo>,
}

#[derive(Debug, PartialEq, Eq)]
pub struct CollectionBidResponse {
    pub bid: Option<crate::state::CollectionBid>,
}

#[derive(Debug, PartialEq, Eq)]
pub struct CollectionBidsResponse {
    pub bids: Vec<crate::state::CollectionBid>,
}

} // verus!
