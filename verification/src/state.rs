//! The marketplace's data model: configuration, listings, offers, sale
//! history and locked-value aggregates, with the composite key each record
//! family is stored under.
//!
//! Amounts are unsigned 128-bit integers; ratios (royalty portions, member
//! shares) are fixed-point values with eighteen fractional digits; times are
//! nanosecond counts, with second granularity where an index calls for it.

use vstd::prelude::*;
use crate::keys::{KeyModel, KeyTuple, key_model};
use crate::table::Keyed;

verus! {

pub const NANOS_PER_SECOND: u64 = 1_000_000_000;

/// Global configuration singleton: the privileged owner, the admin who may
/// rotate owner and admin, and the per-item cap on open bids.
#[derive(Debug, PartialEq, Eq)]
pub struct State {
    pub owner: String,
    pub bid_limit: u32,
    pub admin: String,
}

/// A denominated amount: either a native-currency or a token amount, which
/// of the two being decided by an accompanying optional token contract.
#[derive(Debug, PartialEq, Eq)]
pub struct Asset {
    pub denom: String,
    pub amount: u128,
}

/// A royalty member: an address and its fixed-point share of the royalty.
#[derive(Debug, PartialEq, Eq)]
pub struct UserInfo {
    pub address: String,
    pub portion: u128,
}

/// Per-collection record: the collection's contract address and the
/// fixed-point portion of every sale diverted to the royalty members.
#[derive(Debug, PartialEq, Eq)]
pub struct CollectionInfo {
    pub nft_address: String,
    pub royalty_portion: u128,
}

/// How a payment is to be applied: stored as an auction bid, stored as a
/// standing collection bid, or settled at once at the listed price.
#[derive(Clone, Copy, Debug, PartialEq, Eq, Structural)]
pub enum SaleType {
    FixedPrice,
    Auction,
    CollectionBid,
}

/// An active sale listing for one NFT at one price.
#[derive(Debug, PartialEq, Eq)]
pub struct Ask {
    pub token_id: String,
    pub seller: String,
    pub list_price: Asset,
    pub expires_at: u64,
    pub collection: String,
}

/// A per-item offer, competing with other bids on the same item. Carries the
/// ask's seller as a snapshot from the time the bid was placed, and the
/// funding token contract where the bid was token-funded.
#[derive(Debug, PartialEq, Eq)]
pub struct Bid {
    pub collection: String,
    pub token_id: String,
    pub bidder: String,
    pub list_price: Asset,
    pub expires_at: u64,
    pub token_address: Option<String>,
    pub seller: String,
}

/// A standing offer against any item of a collection.
#[derive(Debug, PartialEq, Eq)]
pub struct CollectionBid {
    pub collection: String,
    pub bidder: String,
    pub list_price: Asset,
    pub expires_at: u64,
    pub token_address: Option<String>,
}

/// An immutable record of one settled sale.
#[derive(Debug, PartialEq, Eq)]
pub struct SaleInfo {
    pub from: String,
    pub to: String,
    pub denom: String,
    pub amount: u128,
    pub time: u64,
    pub collection: String,
    pub token_id: String,
}

/// The running total of settled volume for one collection and denomination.
#[derive(Debug, PartialEq, Eq)]
pub struct TvlInfo {
    pub denom: String,
    pub amount: u128,
    pub collection: String,
}

/// The registered royalty members of one collection.
#[derive(Debug, PartialEq, Eq)]
pub struct CollectionMembers {
    pub collection: String,
    pub members: Vec<UserInfo>,
}

/// A registered fungible-token contract and the denomination it pays in.
#[derive(Debug, PartialEq, Eq)]
pub struct TokenContract {
    pub address: String,
    pub denom: String,
}

/// A registered native denomination.
#[derive(Debug, PartialEq, Eq)]
pub struct CoinDenom {
    pub denom: String,
    pub enabled: bool,
}

impl Clone for State {
    fn clone(&self) -> (r: Self)
        ensures
            r == *self,
    {
        State { owner: self.owner.clone(), bid_limit: self.bid_limit, admin: self.admin.clone() }
    }
}

impl Clone for Asset {
    fn clone(&self) -> (r: Self)
        ensures
            r == *self,
    {
        Asset { denom: self.denom.clone(), amount: self.amount }
    }
}

impl Clone for UserInfo {
    fn clone(&self) -> (r: Self)
        ensures
            r == *self,
    {
        UserInfo { address: self.address.clone(), portion: self.portion }
    }
}

impl Clone for CollectionInfo {
    fn clone(&self) -> (r: Self)
        ensures
            r == *self,
    {
        CollectionInfo {
            nft_address: self.nft_address.clone(),
            royalty_portion: self.royalty_portion,
        }
    }
}

impl Clone for Ask {
    fn clone(&self) -> (r: Self)
        ensures
            r == *self,
    {
        Ask {
            token_id: self.token_id.clone(),
            seller: self.seller.clone(),
            list_price: self.list_price.clone(),
            expires_at: self.expires_at,
            collection: self.collection.clone(),
        }
    }
}

/// Clones an optional token-contract address.
pub fn clone_opt_string(o: &Option<String>) -> (r: Option<String>)
    ensures
        r == *o,
{
    match o {
        Some(s) => Some(s.clone()),
        None => None,
    }
}

impl Clone for Bid {
    fn clone(&self) -> (r: Self)
        ensures
            r == *self,
    {
        Bid {
            collection: self.collection.clone(),
            token_id: self.token_id.clone(),
            bidder: self.bidder.clone(),
            list_price: self.list_price.clone(),
            expires_at: self.expires_at,
            token_address: clone_opt_string(&self.token_address),
            seller: self.seller.clone(),
        }
    }
}

impl Clone for CollectionBid {
    fn clone(&self) -> (r: Self)
        ensures
            r == *self,
    {
        CollectionBid {
            collection: self.collection.clone(),
            bidder: self.bidder.clone(),
            list_price: self.list_price.clone(),
            expires_at: self.expires_at,
            token_address: clone_opt_string(&self.token_address),
        }
    }
}

impl Clone for SaleInfo {
    fn clone(&self) -> (r: Self)
        ensures
            r == *self,
    {
        SaleInfo {
            from: self.from.clone(),
            to: self.to.clone(),
            denom: self.denom.clone(),
            amount: self.amount,
            time: self.time,
            collection: self.collection.clone(),
            token_id: self.token_id.clone(),
        }
    }
}

impl Clone for TvlInfo {
    fn clone(&self) -> (r: Self)
        ensures
            r == *self,
    {
        TvlInfo {
            denom: self.denom.clone(),
            amount: self.amount,
            collection: self.collection.clone(),
        }
    }
}

impl Clone for TokenContract {
    fn clone(&self) -> (r: Self)
        ensures
            r == *self,
    {
        TokenContract { address: self.address.clone(), denom: self.denom.clone() }
    }
}

impl Clone for CoinDenom {
    fn clone(&self) -> (r: Self)
        ensures
            r == *self,
    {
        CoinDenom { denom: self.denom.clone(), enabled: self.enabled }
    }
}

/// Entities with an expiry deadline. A deadline at or before the current
/// time counts as expired: the comparison is `expires_at <= now`.
pub trait Order {
    spec fn spec_expires_at(&self) -> u64;

    fn expires_at(&self) -> (t: u64)
        ensures
            t == self.spec_expires_at(),
    ;

    fn is_expired(&self, now: u64) -> (r: bool)
        ensures
            r == (self.spec_expires_at() <= now),
    {
        self.expires_at() <= now
    }
}

impl Order for Ask {
    open spec fn spec_expires_at(&self) -> u64 {
        self.expires_at
    }

    fn expires_at(&self) -> (t: u64)
        ensures
            t == self.spec_expires_at(),
    {
        self.expires_at
    }
}

impl Order for Bid {
    open spec fn spec_expires_at(&self) -> u64 {
        self.expires_at
    }

    fn expires_at(&self) -> (t: u64)
        ensures
            t == self.spec_expires_at(),
    {
        self.expires_at
    }
}

impl Order for CollectionBid {
    open spec fn spec_expires_at(&self) -> u64 {
        self.expires_at
    }

    fn expires_at(&self) -> (t: u64)
        ensures
            t == self.spec_expires_at(),
    {
        self.expires_at
    }
}

impl Keyed for Ask {
    open spec fn skey(&self) -> KeyModel {
        (self.collection@, self.token_id@, Seq::empty(), 0)
    }

    fn key_of(&self) -> (k: KeyTuple)
        ensures
            key_model(k) == self.skey(),
    {
        (self.collection.clone(), self.token_id.clone(), String::new(), 0)
    }
}

impl Keyed for Bid {
    open spec fn skey(&self) -> KeyModel {
        (self.collection@, self.token_id@, self.bidder@, 0)
    }

    fn key_of(&self) -> (k: KeyTuple)
        ensures
            key_model(k) == self.skey(),
    {
        (self.collection.clone(), self.token_id.clone(), self.bidder.clone(), 0)
    }
}

impl Keyed for CollectionBid {
    open spec fn skey(&self) -> KeyModel {
        (self.collection@, self.bidder@, Seq::empty(), 0)
    }

    fn key_of(&self) -> (k: KeyTuple)
        ensures
            key_model(k) == self.skey(),
    {
        (self.collection.clone(), self.bidder.clone(), String::new(), 0)
    }
}

impl Keyed for SaleInfo {
    open spec fn skey(&self) -> KeyModel {
        (self.collection@, self.token_id@, Seq::empty(), self.time)
    }

    fn key_of(&self) -> (k: KeyTuple)
        ensures
            key_model(k) == self.skey(),
    {
        (self.collection.clone(), self.token_id.clone(), String::new(), self.time)
    }
}

impl Keyed for TvlInfo {
    open spec fn skey(&self) -> KeyModel {
        (self.collection@, self.denom@, Seq::empty(), 0)
    }

    fn key_of(&self) -> (k: KeyTuple)
        ensures
            key_model(k) == self.skey(),
    {
        (self.collection.clone(), self.denom.clone(), String::new(), 0)
    }
}

impl Keyed for CollectionMembers {
    open spec fn skey(&self) -> KeyModel {
        (self.collection@, Seq::empty(), Seq::empty(), 0)
    }

    fn key_of(&self) -> (k: KeyTuple)
        ensures
            key_model(k) == self.skey(),
    {
        (self.collection.clone(), String::new(), String::new(), 0)
    }
}

impl Keyed for CollectionInfo {
    open spec fn skey(&self) -> KeyModel {
        (self.nft_address@, Seq::empty(), Seq::empty(), 0)
    }

    fn key_of(&self) -> (k: KeyTuple)
        ensures
            key_model(k) == self.skey(),
    {
        (self.nft_address.clone(), String::new(), String::new(), 0)
    }
}

impl Keyed for TokenContract {
    open spec fn skey(&self) -> KeyModel {
        (self.address@, Seq::empty(), Seq::empty(), 0)
    }

    fn key_of(&self) -> (k: KeyTuple)
        ensures
            key_model(k) == self.skey(),
    {
        (self.address.clone(), String::new(), String::new(), 0)
    }
}

impl Keyed for CoinDenom {
    open spec fn skey(&self) -> KeyModel {
        (self.denom@, Seq::empty(), Seq::empty(), 0)
    }

    fn key_of(&self) -> (k: KeyTuple)
        ensures
            key_model(k) == self.skey(),
    {
        (self.denom.clone(), String::new(), String::new(), 0)
    }
}

/// Primary key for asks: (collection, token_id).
pub type AskKey = (String, String);

/// Convenience ask key constructor.
pub fn ask_key(collection: &String, token_id: &String) -> (k: AskKey)
    ensures
        k.0@ == collection@,
        k.1@ == token_id@,
{
    (collection.clone(), token_id.clone())
}

/// Primary key for bids: (collection, token_id, bidder).
pub type BidKey = (String, String, String);

/// Convenience bid key constructor.
pub fn bid_key(collection: &String, token_id: &String, bidder: &String) -> (k: BidKey)
    ensures
        k.0@ == collection@,
        k.1@ == token_id@,
        k.2@ == bidder@,
{
    (collection.clone(), token_id.clone(), bidder.clone())
}

/// Primary key for sale records: (collection, token_id, time).
pub type SaleHistoryKey = (String, String, u64);

/// Convenience sale history key constructor.
pub fn sale_history_key(collection: &String, token_id: &String, time: u64) -> (k: SaleHistoryKey)
    ensures
        k.0@ == collection@,
        k.1@ == token_id@,
        k.2 == time,
{
    (collection.clone(), token_id.clone(), time)
}

/// Primary key for locked-value aggregates: (collection, denom).
pub type TvlKey = (String, String);

/// Convenience aggregate key constructor.
pub fn tvl_key(collection: &String, denom: &String) -> (k: TvlKey)
    ensures
        k.0@ == collection@,
        k.1@ == denom@,
{
    (collection.clone(), denom.clone())
}

/// Primary key for collection bids: (collection, bidder).
pub type CollectionBidKey = (String, String);

/// Convenience collection bid key constructor.
pub fn collection_bid_key(collection: &String, bidder: &String) -> (k: CollectionBidKey)
    ensures
        k.0@ == collection@,
        k.1@ == bidder@,
{
    (collection.clone(), bidder.clone())
}

} // verus!
