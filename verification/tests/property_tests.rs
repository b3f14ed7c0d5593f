//! Scenario tests: royalty arithmetic on concrete values, bid caps,
//! authorization, error cases, collection bids, pagination and expiry
//! ordering, and the bookkeeping aggregates.

use marketplace::contract::{
    execute_accept_bid, execute_accept_collection_bid, execute_add_coin, execute_add_collection,
    execute_bid_limit, execute_bid_with_coin, execute_change_admin, execute_change_owner,
    execute_fix_nft, execute_history, execute_migrate, execute_receive, execute_receive_nft,
    execute_remove_bid, execute_remove_collection_bid, execute_set_offerings, execute_set_tvl,
    execute_token_address, execute_update_ask_price, execute_withdraw, execute_withdraw_coin,
    instantiate, nonpayable, Marketplace,
};
use marketplace::error::ContractError;
use marketplace::msg::{
    CollectionBidOffset, CollectionOffset, QueryOfferingsResult, TransferInstruction,
};
use marketplace::query::{
    query_ask, query_ask_count, query_asks, query_bid, query_bids,
    query_bids_by_bidder_sorted_by_expiry, query_collection_bid,
    query_collection_bid_by_collection, query_collection_bids_by_bidder,
    query_collection_bids_by_bidder_sorted_by_expiry, query_collection_info, query_get_members,
    query_sale_history, query_sale_history_by_buyer, query_sale_history_by_seller,
    query_state_info, query_tvl_by_individual, reverse_query_asks,
};
use marketplace::state::{ask_key, bid_key, collection_bid_key, sale_history_key, tvl_key};
use marketplace::state::{Asset, SaleInfo, SaleType, TvlInfo, UserInfo};

const NOW: u64 = 1_600_000_000_000_000_000;
const EXPIRE: u64 = NOW + 300 * 1_000_000_000;
const ONE: u128 = 1_000_000_000_000_000_000;

fn owner() -> String {
    "owner".to_string()
}

fn market_with_collection() -> Marketplace {
    let mut m = instantiate("owner".to_string(), "big_admin".to_string());
    let members = vec![
        UserInfo { address: "admin1".to_string(), portion: 7 * ONE / 10 },
        UserInfo { address: "admin2".to_string(), portion: 3 * ONE / 10 },
    ];
    execute_add_collection(&mut m, &owner(), ONE / 10, members, "c".to_string()).unwrap();
    execute_add_coin(&mut m, &owner(), "ujuno".to_string()).unwrap();
    execute_token_address(&mut m, &owner(), "hope".to_string(), "hope_address".to_string())
        .unwrap();
    m
}

fn list(m: &mut Marketplace, token_id: &str, amount: u128) {
    execute_receive_nft(
        m,
        "c".to_string(),
        "seller".to_string(),
        token_id.to_string(),
        Asset { denom: "ujuno".to_string(), amount },
        EXPIRE,
        None,
        NOW,
    )
    .unwrap();
}

fn coin_funds(amount: u128) -> Vec<Asset> {
    vec![Asset { denom: "ujuno".to_string(), amount }]
}

fn buy_fixed(m: &mut Marketplace, buyer: &str, token_id: &str, amount: u128) -> Vec<TransferInstruction> {
    execute_bid_with_coin(
        m,
        &buyer.to_string(),
        &coin_funds(amount),
        "c".to_string(),
        Some(token_id.to_string()),
        EXPIRE,
        SaleType::FixedPrice,
        Asset { denom: "ujuno".to_string(), amount },
        NOW,
    )
    .unwrap()
}

#[test]
fn fixed_price_distribution_exact() {
    let mut m = market_with_collection();
    list(&mut m, "T", 1000);

    let res = buy_fixed(&mut m, "buyer", "T", 1000);
    assert_eq!(res.len(), 4);
    assert_eq!(
        res[0],
        TransferInstruction::Native {
            to: "admin1".to_string(),
            denom: "ujuno".to_string(),
            amount: 70,
        }
    );
    assert_eq!(
        res[1],
        TransferInstruction::Native {
            to: "admin2".to_string(),
            denom: "ujuno".to_string(),
            amount: 30,
        }
    );
    assert_eq!(
        res[2],
        TransferInstruction::Native {
            to: "seller".to_string(),
            denom: "ujuno".to_string(),
            amount: 900,
        }
    );
    assert_eq!(
        res[3],
        TransferInstruction::Nft {
            contract: "c".to_string(),
            to: "buyer".to_string(),
            token_id: "T".to_string(),
        }
    );

    let tvl = query_tvl_by_individual(&m, "c".to_string(), "ujuno".to_string());
    assert_eq!(tvl.tvl.unwrap().amount, 1000);
}

#[test]
fn distribution_truncates_toward_zero() {
    let mut m = market_with_collection();
    list(&mut m, "T", 1001);

    let res = buy_fixed(&mut m, "buyer", "T", 1001);
    // the royalty pool is 100 (100.1 truncated toward zero); the members
    // split it 70/30, and the seller absorbs everything else: 901, so the
    // payout sums to the full 1001
    assert_eq!(
        res[0],
        TransferInstruction::Native {
            to: "admin1".to_string(),
            denom: "ujuno".to_string(),
            amount: 70,
        }
    );
    assert_eq!(
        res[1],
        TransferInstruction::Native {
            to: "admin2".to_string(),
            denom: "ujuno".to_string(),
            amount: 30,
        }
    );
    assert_eq!(
        res[2],
        TransferInstruction::Native {
            to: "seller".to_string(),
            denom: "ujuno".to_string(),
            amount: 901,
        }
    );
}

#[test]
fn distribution_conserves_with_uneven_shares() {
    // shares of a third and two thirds never divide evenly, yet the payout
    // still sums to the full amount: the dust goes to the seller
    let mut m = instantiate("owner".to_string(), "big_admin".to_string());
    let members = vec![
        UserInfo { address: "admin1".to_string(), portion: ONE / 3 },
        UserInfo { address: "admin2".to_string(), portion: ONE - ONE / 3 },
    ];
    execute_add_collection(&mut m, &owner(), ONE / 10, members, "c".to_string()).unwrap();
    execute_add_coin(&mut m, &owner(), "ujuno".to_string()).unwrap();
    list(&mut m, "T", 100);

    let res = buy_fixed(&mut m, "buyer", "T", 100);
    // royalty pool 10; member cuts 3 and 6; seller absorbs 91
    assert_eq!(
        res[0],
        TransferInstruction::Native {
            to: "admin1".to_string(),
            denom: "ujuno".to_string(),
            amount: 3,
        }
    );
    assert_eq!(
        res[1],
        TransferInstruction::Native {
            to: "admin2".to_string(),
            denom: "ujuno".to_string(),
            amount: 6,
        }
    );
    assert_eq!(
        res[2],
        TransferInstruction::Native {
            to: "seller".to_string(),
            denom: "ujuno".to_string(),
            amount: 91,
        }
    );
}

#[test]
fn bid_limit_rejects_excess_bid() {
    let mut m = market_with_collection();
    execute_bid_limit(&mut m, &owner(), 1).unwrap();
    list(&mut m, "T", 1000);

    let res = execute_bid_with_coin(
        &mut m,
        &"bidder_a".to_string(),
        &coin_funds(500),
        "c".to_string(),
        Some("T".to_string()),
        EXPIRE,
        SaleType::Auction,
        Asset { denom: "ujuno".to_string(), amount: 500 },
        NOW,
    )
    .unwrap();
    assert_eq!(res.len(), 0);

    let err = execute_bid_with_coin(
        &mut m,
        &"bidder_b".to_string(),
        &coin_funds(600),
        "c".to_string(),
        Some("T".to_string()),
        EXPIRE,
        SaleType::Auction,
        Asset { denom: "ujuno".to_string(), amount: 600 },
        NOW,
    )
    .unwrap_err();
    assert_eq!(err, ContractError::BidCountExceeded);
    assert!(query_bid(&m, "c".to_string(), "T".to_string(), "bidder_b".to_string()).bid.is_none());
    assert!(query_bid(&m, "c".to_string(), "T".to_string(), "bidder_a".to_string()).bid.is_some());
}

#[test]
fn update_price_unauthorized_leaves_state() {
    let mut m = market_with_collection();
    list(&mut m, "T", 1000);

    let err = execute_update_ask_price(
        &mut m,
        &"intruder".to_string(),
        &vec![],
        "c".to_string(),
        "T".to_string(),
        Asset { denom: "ujuno".to_string(), amount: 1 },
        None,
    )
    .unwrap_err();
    assert_eq!(err, ContractError::Unauthorized);

    let ask = query_ask(&m, "c".to_string(), "T".to_string()).ask.unwrap();
    assert_eq!(ask.list_price.amount, 1000);
    assert_eq!(ask.list_price.denom, "ujuno".to_string());
}

#[test]
fn update_price_by_seller() {
    let mut m = market_with_collection();
    list(&mut m, "T", 1000);

    execute_update_ask_price(
        &mut m,
        &"seller".to_string(),
        &vec![],
        "c".to_string(),
        "T".to_string(),
        Asset { denom: "ujuno".to_string(), amount: 2500 },
        None,
    )
    .unwrap();

    let ask = query_ask(&m, "c".to_string(), "T".to_string()).ask.unwrap();
    assert_eq!(ask.list_price.amount, 2500);
    assert_eq!(ask.expires_at, EXPIRE);
    assert_eq!(ask.seller, "seller".to_string());
}

#[test]
fn rebid_refunds_previous_bid_first() {
    let mut m = market_with_collection();
    list(&mut m, "T", 1000);

    let res = execute_bid_with_coin(
        &mut m,
        &"alice".to_string(),
        &coin_funds(500),
        "c".to_string(),
        Some("T".to_string()),
        EXPIRE,
        SaleType::Auction,
        Asset { denom: "ujuno".to_string(), amount: 500 },
        NOW,
    )
    .unwrap();
    assert_eq!(res.len(), 0);

    let res = execute_bid_with_coin(
        &mut m,
        &"alice".to_string(),
        &coin_funds(800),
        "c".to_string(),
        Some("T".to_string()),
        EXPIRE,
        SaleType::Auction,
        Asset { denom: "ujuno".to_string(), amount: 800 },
        NOW,
    )
    .unwrap();
    assert_eq!(
        res,
        vec![TransferInstruction::Native {
            to: "alice".to_string(),
            denom: "ujuno".to_string(),
            amount: 500,
        }]
    );

    let bids = query_bids(&m, "c".to_string(), "T".to_string(), None, Some(30));
    assert_eq!(bids.bids.len(), 1);
    assert_eq!(bids.bids[0].list_price.amount, 800);
}

#[test]
fn accept_bid_sweeps_every_bid() {
    let mut m = market_with_collection();
    list(&mut m, "T", 1000);

    for (who, amt) in [("alice", 300u128), ("bob", 400), ("carol", 500)] {
        execute_bid_with_coin(
            &mut m,
            &who.to_string(),
            &coin_funds(amt),
            "c".to_string(),
            Some("T".to_string()),
            EXPIRE,
            SaleType::Auction,
            Asset { denom: "ujuno".to_string(), amount: amt },
            NOW,
        )
        .unwrap();
    }

    let res = execute_accept_bid(
        &mut m,
        &"seller".to_string(),
        &vec![],
        "c".to_string(),
        "T".to_string(),
        "bob".to_string(),
        NOW,
    )
    .unwrap();

    // losers refunded in ascending bidder order, the accepted one not
    assert_eq!(
        res[0],
        TransferInstruction::Native {
            to: "alice".to_string(),
            denom: "ujuno".to_string(),
            amount: 300,
        }
    );
    assert_eq!(
        res[1],
        TransferInstruction::Native {
            to: "carol".to_string(),
            denom: "ujuno".to_string(),
            amount: 500,
        }
    );

    assert!(query_ask(&m, "c".to_string(), "T".to_string()).ask.is_none());
    let bids = query_bids(&m, "c".to_string(), "T".to_string(), None, Some(30));
    assert_eq!(bids.bids.len(), 0);
}

#[test]
fn tvl_accumulates_over_settlements() {
    let mut m = market_with_collection();
    for (tid, amount) in [("T1", 1000u128), ("T2", 2000), ("T3", 300)] {
        list(&mut m, tid, amount);
        buy_fixed(&mut m, "buyer", tid, amount);
    }
    let tvl = query_tvl_by_individual(&m, "c".to_string(), "ujuno".to_string());
    assert_eq!(tvl.tvl.unwrap().amount, 3300);
    // a pair the engine never settled reads as zero, not as an error
    let none = query_tvl_by_individual(&m, "c".to_string(), "uatom".to_string());
    assert!(none.tvl.is_none());
}

#[test]
fn collection_bid_roundtrip() {
    let mut m = market_with_collection();

    let res = execute_bid_with_coin(
        &mut m,
        &"alice".to_string(),
        &coin_funds(700),
        "c".to_string(),
        None,
        EXPIRE,
        SaleType::CollectionBid,
        Asset { denom: "ujuno".to_string(), amount: 700 },
        NOW,
    )
    .unwrap();
    assert_eq!(res.len(), 0);

    // replacing the standing bid refunds the first one
    let res = execute_bid_with_coin(
        &mut m,
        &"alice".to_string(),
        &coin_funds(900),
        "c".to_string(),
        None,
        EXPIRE,
        SaleType::CollectionBid,
        Asset { denom: "ujuno".to_string(), amount: 900 },
        NOW,
    )
    .unwrap();
    assert_eq!(
        res,
        vec![TransferInstruction::Native {
            to: "alice".to_string(),
            denom: "ujuno".to_string(),
            amount: 700,
        }]
    );

    let stored = query_collection_bid(&m, "c".to_string(), "alice".to_string());
    assert_eq!(stored.bid.unwrap().list_price.amount, 900);

    let res = execute_remove_collection_bid(&mut m, &"alice".to_string(), &vec![], "c".to_string())
        .unwrap();
    assert_eq!(
        res,
        vec![TransferInstruction::Native {
            to: "alice".to_string(),
            denom: "ujuno".to_string(),
            amount: 900,
        }]
    );
    assert!(query_collection_bid(&m, "c".to_string(), "alice".to_string()).bid.is_none());
}

#[test]
fn accept_collection_bid_with_ask() {
    let mut m = market_with_collection();
    list(&mut m, "T", 1000);
    execute_bid_with_coin(
        &mut m,
        &"alice".to_string(),
        &coin_funds(1000),
        "c".to_string(),
        None,
        EXPIRE,
        SaleType::CollectionBid,
        Asset { denom: "ujuno".to_string(), amount: 1000 },
        NOW,
    )
    .unwrap();
    execute_bid_with_coin(
        &mut m,
        &"bob".to_string(),
        &coin_funds(400),
        "c".to_string(),
        Some("T".to_string()),
        EXPIRE,
        SaleType::Auction,
        Asset { denom: "ujuno".to_string(), amount: 400 },
        NOW,
    )
    .unwrap();

    let res = execute_accept_collection_bid(
        &mut m,
        &"seller".to_string(),
        &vec![],
        "c".to_string(),
        "T".to_string(),
        "alice".to_string(),
        NOW,
    )
    .unwrap();

    // bob's open auction bid is swept with a refund, then the distribution
    assert_eq!(
        res[0],
        TransferInstruction::Native { to: "bob".to_string(), denom: "ujuno".to_string(), amount: 400 }
    );
    assert_eq!(
        res[1],
        TransferInstruction::Native {
            to: "admin1".to_string(),
            denom: "ujuno".to_string(),
            amount: 70,
        }
    );
    assert_eq!(
        res[4],
        TransferInstruction::Nft {
            contract: "c".to_string(),
            to: "alice".to_string(),
            token_id: "T".to_string(),
        }
    );
    assert!(query_ask(&m, "c".to_string(), "T".to_string()).ask.is_none());
    assert!(query_collection_bid(&m, "c".to_string(), "alice".to_string()).bid.is_none());
}

#[test]
fn accept_collection_bid_without_ask_trusts_caller() {
    // with no ask stored for the item, the caller is taken as the seller
    // with no ownership check — preserved, documented behaviour
    let mut m = market_with_collection();
    execute_bid_with_coin(
        &mut m,
        &"alice".to_string(),
        &coin_funds(1000),
        "c".to_string(),
        None,
        EXPIRE,
        SaleType::CollectionBid,
        Asset { denom: "ujuno".to_string(), amount: 1000 },
        NOW,
    )
    .unwrap();

    let res = execute_accept_collection_bid(
        &mut m,
        &"whoever".to_string(),
        &vec![],
        "c".to_string(),
        "T".to_string(),
        "alice".to_string(),
        NOW,
    )
    .unwrap();

    assert_eq!(
        res[2],
        TransferInstruction::Native {
            to: "whoever".to_string(),
            denom: "ujuno".to_string(),
            amount: 900,
        }
    );
    assert_eq!(
        res[3],
        TransferInstruction::Nft {
            contract: "c".to_string(),
            to: "alice".to_string(),
            token_id: "T".to_string(),
        }
    );
    let history = query_sale_history(&m, "c".to_string(), None, Some(10));
    assert_eq!(history.sale_history.len(), 1);
    assert_eq!(history.sale_history[0].from, "whoever".to_string());
}

#[test]
fn error_cases() {
    let mut m = market_with_collection();

    // listing in an unregistered collection
    let err = execute_receive_nft(
        &mut m,
        "unknown".to_string(),
        "seller".to_string(),
        "T".to_string(),
        Asset { denom: "ujuno".to_string(), amount: 10 },
        EXPIRE,
        None,
        NOW,
    )
    .unwrap_err();
    assert_eq!(err, ContractError::UnknownCollection);

    // listing priced in an unregistered denomination
    let err = execute_receive_nft(
        &mut m,
        "c".to_string(),
        "seller".to_string(),
        "T".to_string(),
        Asset { denom: "uatom".to_string(), amount: 10 },
        EXPIRE,
        None,
        NOW,
    )
    .unwrap_err();
    assert_eq!(err, ContractError::UnknownDenom);

    // token-priced listing under the wrong denomination
    let err = execute_receive_nft(
        &mut m,
        "c".to_string(),
        "seller".to_string(),
        "T".to_string(),
        Asset { denom: "ujuno".to_string(), amount: 10 },
        EXPIRE,
        Some("hope_address".to_string()),
        NOW,
    )
    .unwrap_err();
    assert_eq!(err, ContractError::TokenDenomMismatch);

    // listing already past its deadline
    let err = execute_receive_nft(
        &mut m,
        "c".to_string(),
        "seller".to_string(),
        "T".to_string(),
        Asset { denom: "ujuno".to_string(), amount: 10 },
        NOW,
        None,
        NOW,
    )
    .unwrap_err();
    assert_eq!(err, ContractError::AskExpired);

    // bidding on an item with no ask
    let err = execute_bid_with_coin(
        &mut m,
        &"alice".to_string(),
        &coin_funds(10),
        "c".to_string(),
        Some("T".to_string()),
        EXPIRE,
        SaleType::Auction,
        Asset { denom: "ujuno".to_string(), amount: 10 },
        NOW,
    )
    .unwrap_err();
    assert_eq!(err, ContractError::NoSuchAsk);

    list(&mut m, "T", 1000);

    // a bid whose own deadline has passed
    let err = execute_bid_with_coin(
        &mut m,
        &"alice".to_string(),
        &coin_funds(10),
        "c".to_string(),
        Some("T".to_string()),
        NOW,
        SaleType::Auction,
        Asset { denom: "ujuno".to_string(), amount: 10 },
        NOW,
    )
    .unwrap_err();
    assert_eq!(err, ContractError::BidExpired);

    // funds that do not match the stated price
    let err = execute_bid_with_coin(
        &mut m,
        &"alice".to_string(),
        &coin_funds(9),
        "c".to_string(),
        Some("T".to_string()),
        EXPIRE,
        SaleType::Auction,
        Asset { denom: "ujuno".to_string(), amount: 10 },
        NOW,
    )
    .unwrap_err();
    assert_eq!(err, ContractError::NotEnoughFunds);

    // an auction bid without a token id
    let err = execute_bid_with_coin(
        &mut m,
        &"alice".to_string(),
        &coin_funds(10),
        "c".to_string(),
        None,
        EXPIRE,
        SaleType::Auction,
        Asset { denom: "ujuno".to_string(), amount: 10 },
        NOW,
    )
    .unwrap_err();
    assert_eq!(err, ContractError::WrongConfig);

    // payment attached to a non-payable call
    let err = execute_withdraw(
        &mut m,
        &"seller".to_string(),
        &coin_funds(1),
        "c".to_string(),
        "T".to_string(),
    )
    .unwrap_err();
    assert_eq!(err, ContractError::TooMuchFunds);
    assert_eq!(nonpayable(&coin_funds(1)).unwrap_err(), ContractError::TooMuchFunds);

    // removing a bid that is not stored
    let err = execute_remove_bid(
        &mut m,
        &"alice".to_string(),
        &vec![],
        "c".to_string(),
        "T".to_string(),
    )
    .unwrap_err();
    assert_eq!(err, ContractError::NoData);

    // member portions that do not sum to one
    let err = execute_add_collection(
        &mut m,
        &owner(),
        ONE / 10,
        vec![
            UserInfo { address: "admin1".to_string(), portion: ONE / 2 },
            UserInfo { address: "admin2".to_string(), portion: 3 * ONE / 10 },
        ],
        "c2".to_string(),
    )
    .unwrap_err();
    assert_eq!(err, ContractError::WrongPortionError);

    // a royalty portion above one
    let err = execute_add_collection(
        &mut m,
        &owner(),
        ONE + 1,
        vec![UserInfo { address: "admin1".to_string(), portion: ONE }],
        "c2".to_string(),
    )
    .unwrap_err();
    assert_eq!(err, ContractError::WrongConfig);

    // privileged call by a non-owner
    let err = execute_add_coin(&mut m, &"intruder".to_string(), "uatom".to_string()).unwrap_err();
    assert_eq!(err, ContractError::Unauthorized);
}

#[test]
fn admin_rotation_and_sweeps() {
    let mut m = instantiate("owner".to_string(), "big_admin".to_string());

    // only the admin may rotate roles
    assert_eq!(
        execute_change_owner(&mut m, &"owner".to_string(), "other".to_string()).unwrap_err(),
        ContractError::Unauthorized
    );
    execute_change_owner(&mut m, &"big_admin".to_string(), "owner2".to_string()).unwrap();
    assert_eq!(query_state_info(&m).owner, "owner2".to_string());
    execute_change_admin(&mut m, &"big_admin".to_string(), "admin2".to_string()).unwrap();
    assert_eq!(query_state_info(&m).admin, "admin2".to_string());

    let res = execute_withdraw_coin(
        &m,
        &"owner2".to_string(),
        25,
        40,
        "hope_address".to_string(),
        "ujuno".to_string(),
    )
    .unwrap();
    assert_eq!(
        res,
        vec![
            TransferInstruction::Token {
                contract: "hope_address".to_string(),
                to: "owner2".to_string(),
                amount: 25,
            },
            TransferInstruction::Native {
                to: "owner2".to_string(),
                denom: "ujuno".to_string(),
                amount: 40,
            },
        ]
    );

    let res = execute_fix_nft(&m, &"owner2".to_string(), "c".to_string(), "T".to_string())
        .unwrap();
    assert_eq!(
        res,
        vec![TransferInstruction::Nft {
            contract: "c".to_string(),
            to: "owner2".to_string(),
            token_id: "T".to_string(),
        }]
    );

    let res = execute_migrate(
        &m,
        &"owner2".to_string(),
        "c".to_string(),
        "dest".to_string(),
        vec!["T1".to_string(), "T2".to_string()],
    )
    .unwrap();
    assert_eq!(res.len(), 2);
    assert_eq!(
        res[1],
        TransferInstruction::Nft {
            contract: "c".to_string(),
            to: "dest".to_string(),
            token_id: "T2".to_string(),
        }
    );
}

#[test]
fn bulk_overwrites() {
    let mut m = market_with_collection();

    execute_set_tvl(
        &mut m,
        &owner(),
        "c".to_string(),
        vec![TvlInfo { denom: "ujuno".to_string(), amount: 5000, collection: "c".to_string() }],
    )
    .unwrap();
    assert_eq!(
        query_tvl_by_individual(&m, "c".to_string(), "ujuno".to_string()).tvl.unwrap().amount,
        5000
    );

    execute_history(
        &mut m,
        &owner(),
        "c".to_string(),
        vec![SaleInfo {
            from: "s".to_string(),
            to: "b".to_string(),
            denom: "ujuno".to_string(),
            amount: 11,
            time: 123,
            collection: "c".to_string(),
            token_id: "T".to_string(),
        }],
    )
    .unwrap();
    let hist = query_sale_history(&m, "c".to_string(), None, None);
    assert_eq!(hist.sale_history.len(), 1);
    assert_eq!(hist.sale_history[0].amount, 11);

    execute_set_offerings(
        &mut m,
        &owner(),
        "c".to_string(),
        vec![QueryOfferingsResult {
            token_id: "T9".to_string(),
            seller: "seller".to_string(),
            list_price: Asset { denom: "ujuno".to_string(), amount: 777 },
        }],
        NOW,
    )
    .unwrap();
    let ask = query_ask(&m, "c".to_string(), "T9".to_string()).ask.unwrap();
    assert_eq!(ask.list_price.amount, 777);
    assert_eq!(ask.expires_at, (NOW / 1_000_000_000 + 259200) * 1_000_000_000);

    // the buyer and seller history indexes see the overwritten record
    let by_seller = query_sale_history_by_seller(&m, "s".to_string(), None, None);
    assert_eq!(by_seller.sale_history.len(), 1);
    let by_buyer = query_sale_history_by_buyer(&m, "b".to_string(), None, None);
    assert_eq!(by_buyer.sale_history.len(), 1);
}

#[test]
fn pagination_and_ordering() {
    let mut m = market_with_collection();
    for tid in ["a", "b", "c", "d"] {
        list(&mut m, tid, 100);
    }

    assert_eq!(query_ask_count(&m, "c".to_string()).count, 4);

    let page = query_asks(&m, "c".to_string(), None, Some(2));
    assert_eq!(page.asks.len(), 2);
    assert_eq!(page.asks[0].token_id, "a".to_string());
    assert_eq!(page.asks[1].token_id, "b".to_string());

    let page = query_asks(&m, "c".to_string(), Some("b".to_string()), Some(30));
    assert_eq!(page.asks.len(), 2);
    assert_eq!(page.asks[0].token_id, "c".to_string());

    let rev = reverse_query_asks(&m, "c".to_string(), Some("c".to_string()), Some(30));
    assert_eq!(rev.asks.len(), 2);
    assert_eq!(rev.asks[0].token_id, "b".to_string());
    assert_eq!(rev.asks[1].token_id, "a".to_string());

    // with no bound, a descending scan starts below the empty cursor and
    // yields nothing
    let rev = reverse_query_asks(&m, "c".to_string(), None, Some(30));
    assert_eq!(rev.asks.len(), 0);

    let info = query_collection_info(&m, "c".to_string()).unwrap();
    assert_eq!(info.royalty_portion, ONE / 10);
    let members = query_get_members(&m, "c".to_string()).unwrap();
    assert_eq!(members.len(), 2);
    assert_eq!(members[0].address, "admin1".to_string());

    // key constructors pair up their parts
    assert_eq!(ask_key(&"c".to_string(), &"a".to_string()), ("c".to_string(), "a".to_string()));
    assert_eq!(
        bid_key(&"c".to_string(), &"a".to_string(), &"x".to_string()),
        ("c".to_string(), "a".to_string(), "x".to_string())
    );
    assert_eq!(
        sale_history_key(&"c".to_string(), &"a".to_string(), 7),
        ("c".to_string(), "a".to_string(), 7)
    );
    assert_eq!(
        tvl_key(&"c".to_string(), &"ujuno".to_string()),
        ("c".to_string(), "ujuno".to_string())
    );
    assert_eq!(
        collection_bid_key(&"c".to_string(), &"x".to_string()),
        ("c".to_string(), "x".to_string())
    );
}

#[test]
fn expiry_sorted_queries() {
    let mut m = market_with_collection();
    let members = vec![UserInfo { address: "admin1".to_string(), portion: ONE }];
    execute_add_collection(&mut m, &owner(), ONE / 10, members, "d".to_string()).unwrap();

    list(&mut m, "T1", 100);
    execute_receive_nft(
        &mut m,
        "d".to_string(),
        "seller".to_string(),
        "T2".to_string(),
        Asset { denom: "ujuno".to_string(), amount: 100 },
        EXPIRE,
        None,
        NOW,
    )
    .unwrap();

    // the later-expiring bid sits on the earlier collection key
    execute_bid_with_coin(
        &mut m,
        &"alice".to_string(),
        &coin_funds(10),
        "c".to_string(),
        Some("T1".to_string()),
        NOW + 600 * 1_000_000_000,
        SaleType::Auction,
        Asset { denom: "ujuno".to_string(), amount: 10 },
        NOW,
    )
    .unwrap();
    execute_bid_with_coin(
        &mut m,
        &"alice".to_string(),
        &coin_funds(20),
        "d".to_string(),
        Some("T2".to_string()),
        NOW + 60 * 1_000_000_000,
        SaleType::Auction,
        Asset { denom: "ujuno".to_string(), amount: 20 },
        NOW,
    )
    .unwrap();

    let sorted = query_bids_by_bidder_sorted_by_expiry(&m, "alice".to_string(), None, Some(30));
    assert_eq!(sorted.bids.len(), 2);
    assert_eq!(sorted.bids[0].collection, "d".to_string());
    assert_eq!(sorted.bids[1].collection, "c".to_string());

    // resuming after the first bid yields only the later-expiring one
    let rest = query_bids_by_bidder_sorted_by_expiry(
        &m,
        "alice".to_string(),
        Some(CollectionOffset { collection: "d".to_string(), token_id: "T2".to_string() }),
        Some(30),
    );
    assert_eq!(rest.bids.len(), 1);
    assert_eq!(rest.bids[0].collection, "c".to_string());

    // standing collection bids, by collection and by expiry
    execute_bid_with_coin(
        &mut m,
        &"alice".to_string(),
        &coin_funds(30),
        "c".to_string(),
        None,
        NOW + 900 * 1_000_000_000,
        SaleType::CollectionBid,
        Asset { denom: "ujuno".to_string(), amount: 30 },
        NOW,
    )
    .unwrap();
    execute_bid_with_coin(
        &mut m,
        &"alice".to_string(),
        &coin_funds(40),
        "d".to_string(),
        None,
        NOW + 30 * 1_000_000_000,
        SaleType::CollectionBid,
        Asset { denom: "ujuno".to_string(), amount: 40 },
        NOW,
    )
    .unwrap();

    let by_bidder = query_collection_bids_by_bidder(&m, "alice".to_string(), None, Some(30));
    assert_eq!(by_bidder.bids.len(), 2);
    assert_eq!(by_bidder.bids[0].collection, "c".to_string());

    let by_collection = query_collection_bid_by_collection(&m, "c".to_string(), None, Some(30));
    assert_eq!(by_collection.bids.len(), 1);

    let sorted =
        query_collection_bids_by_bidder_sorted_by_expiry(&m, "alice".to_string(), None, Some(30));
    assert_eq!(sorted.bids.len(), 2);
    assert_eq!(sorted.bids[0].collection, "d".to_string());

    let rest = query_collection_bids_by_bidder_sorted_by_expiry(
        &m,
        "alice".to_string(),
        Some(CollectionBidOffset::new(
            Asset { denom: "ujuno".to_string(), amount: 40 },
            "d".to_string(),
            "alice".to_string(),
        )),
        Some(30),
    );
    assert_eq!(rest.bids.len(), 1);
    assert_eq!(rest.bids[0].collection, "c".to_string());
}

#[test]
fn token_funded_fixed_price() {
    let mut m = market_with_collection();
    execute_receive_nft(
        &mut m,
        "c".to_string(),
        "seller".to_string(),
        "T".to_string(),
        Asset { denom: "hope".to_string(), amount: 3000 },
        EXPIRE,
        Some("hope_address".to_string()),
        NOW,
    )
    .unwrap();

    let res = execute_receive(
        &mut m,
        &"hope_address".to_string(),
        "buyer".to_string(),
        3000,
        "c".to_string(),
        Some("T".to_string()),
        EXPIRE,
        SaleType::FixedPrice,
        NOW,
    )
    .unwrap();
    assert_eq!(res.len(), 4);
    assert_eq!(
        res[0],
        TransferInstruction::Token {
            contract: "hope_address".to_string(),
            to: "admin1".to_string(),
            amount: 210,
        }
    );
    assert_eq!(
        res[2],
        TransferInstruction::Token {
            contract: "hope_address".to_string(),
            to: "seller".to_string(),
            amount: 2700,
        }
    );

    // an unregistered token contract cannot fund a bid
    let err = execute_receive(
        &mut m,
        &"rogue_token".to_string(),
        "buyer".to_string(),
        3000,
        "c".to_string(),
        Some("T".to_string()),
        EXPIRE,
        SaleType::FixedPrice,
        NOW,
    )
    .unwrap_err();
    assert_eq!(err, ContractError::TokenDenomMismatch);
}

#[test]
fn listing_replaces_stale_ask() {
    let mut m = market_with_collection();
    list(&mut m, "T", 1000);
    list(&mut m, "T", 4000);
    let ask = query_ask(&m, "c".to_string(), "T".to_string()).ask.unwrap();
    assert_eq!(ask.list_price.amount, 4000);
    assert_eq!(query_ask_count(&m, "c".to_string()).count, 1);
}

#[test]
fn funds_are_summed_per_denomination() {
    // the payment is the sum of all funds in the price's denomination;
    // other denominations presented with the call are ignored, not rejected
    let mut m = market_with_collection();
    list(&mut m, "T", 800);

    let funds = vec![
        Asset { denom: "ujuno".to_string(), amount: 500 },
        Asset { denom: "uatom".to_string(), amount: 50 },
        Asset { denom: "ujuno".to_string(), amount: 300 },
    ];
    let res = execute_bid_with_coin(
        &mut m,
        &"alice".to_string(),
        &funds,
        "c".to_string(),
        Some("T".to_string()),
        EXPIRE,
        SaleType::Auction,
        Asset { denom: "ujuno".to_string(), amount: 800 },
        NOW,
    )
    .unwrap();
    assert_eq!(res.len(), 0);
    assert_eq!(
        query_bid(&m, "c".to_string(), "T".to_string(), "alice".to_string())
            .bid
            .unwrap()
            .list_price
            .amount,
        800
    );
}
