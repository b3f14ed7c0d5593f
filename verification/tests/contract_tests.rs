//! The marketplace's main flows: listing, bidding, withdrawal and
//! settlement, checked against concrete instruction sequences.

use marketplace::contract::{
    execute_accept_bid, execute_add_coin, execute_add_collection, execute_bid_with_coin,
    execute_receive, execute_receive_nft, execute_remove_bid, execute_withdraw, instantiate,
    Marketplace,
};
use marketplace::msg::TransferInstruction;
use marketplace::query::{
    query_ask, query_asks, query_asks_by_seller, query_bids, query_bids_by_bidder,
    query_bids_by_seller, query_sale_history_by_token_id, query_state_info,
    query_tvl_by_collection, query_tvl_by_denom,
};
use marketplace::state::{Asset, SaleType, UserInfo};
use marketplace::msg::CollectionOffsetBid;

const NOW: u64 = 1_600_000_000_000_000_000;
const EXPIRE: u64 = NOW + 300 * 1_000_000_000;
const ONE: u128 = 1_000_000_000_000_000_000;

fn setup_contract() -> Marketplace {
    let m = instantiate("owner".to_string(), "owner".to_string());
    let state = query_state_info(&m);
    assert_eq!(state.owner, "owner".to_string());
    m
}

fn add_contract(m: &mut Marketplace, address: &str) {
    let members = vec![
        UserInfo { address: "admin1".to_string(), portion: 7 * ONE / 10 },
        UserInfo { address: "admin2".to_string(), portion: 3 * ONE / 10 },
    ];
    execute_add_collection(m, &"owner".to_string(), ONE / 10, members, address.to_string())
        .unwrap();
}

fn add_coin(m: &mut Marketplace, denom: &str) {
    execute_add_coin(m, &"owner".to_string(), denom.to_string()).unwrap();
}

fn add_token(m: &mut Marketplace, denom: &str, address: &str) {
    marketplace::contract::execute_token_address(
        m,
        &"owner".to_string(),
        denom.to_string(),
        address.to_string(),
    )
    .unwrap();
}

fn sell_nft(
    m: &mut Marketplace,
    collection: &str,
    sender: &str,
    denom: &str,
    amount: u128,
    token_address: Option<String>,
    token_id: &str,
) {
    execute_receive_nft(
        m,
        collection.to_string(),
        sender.to_string(),
        token_id.to_string(),
        Asset { denom: denom.to_string(), amount },
        EXPIRE,
        token_address,
        NOW,
    )
    .unwrap();
}

fn bid_nft_with_token(
    m: &mut Marketplace,
    collection: &str,
    token_id: Option<String>,
    token_address: &str,
    sender: &str,
    amount: u128,
) -> Vec<TransferInstruction> {
    execute_receive(
        m,
        &token_address.to_string(),
        sender.to_string(),
        amount,
        collection.to_string(),
        token_id,
        EXPIRE,
        SaleType::Auction,
        NOW,
    )
    .unwrap()
}

fn bid_nft_with_coin(
    m: &mut Marketplace,
    collection: &str,
    token_id: Option<String>,
    sender: &str,
    denom: &str,
    amount: u128,
) -> Vec<TransferInstruction> {
    let funds = vec![Asset { denom: denom.to_string(), amount }];
    execute_bid_with_coin(
        m,
        &sender.to_string(),
        &funds,
        collection.to_string(),
        token_id,
        EXPIRE,
        SaleType::Auction,
        Asset { denom: denom.to_string(), amount },
        NOW,
    )
    .unwrap()
}

#[test]
fn init_contract() {
    let m = instantiate("owner".to_string(), "owner".to_string());
    let state = query_state_info(&m);
    assert_eq!(state.owner, "owner".to_string());
}

#[test]
fn put_nft_sale() {
    let mut m = setup_contract();

    add_contract(&mut m, "collection1");
    add_contract(&mut m, "collection2");

    add_coin(&mut m, "ujuno");
    add_token(&mut m, "hope", "hope_address");

    sell_nft(&mut m, "collection1", "seller1", "ujuno", 10000, None, "Hope.1");
    sell_nft(
        &mut m,
        "collection1",
        "seller1",
        "hope",
        10000,
        Some("hope_address".to_string()),
        "Punk.1",
    );

    let _individual_ask = query_ask(&m, "collection1".to_string(), "Hope.1".to_string());
    let _ask_by_seller = query_asks_by_seller(&m, "seller1".to_string(), None, Some(20));
    let _ask_by_collection =
        query_asks(&m, "collection1".to_string(), Some("Hope.1".to_string()), Some(20));
}

#[test]
fn test_bid() {
    let mut m = setup_contract();

    add_contract(&mut m, "collection1");
    add_contract(&mut m, "collection2");

    add_coin(&mut m, "ujuno");
    add_token(&mut m, "hope", "hope_address");

    sell_nft(&mut m, "collection1", "seller1", "ujuno", 10000, None, "Hope.1");
    sell_nft(
        &mut m,
        "collection2",
        "seller1",
        "hope",
        10000,
        Some("hope_address".to_string()),
        "Punk.1",
    );

    let _result = bid_nft_with_token(
        &mut m,
        "collection1",
        Some("Hope.1".to_string()),
        "hope_address",
        "bider1",
        3000,
    );
    let _result = bid_nft_with_token(
        &mut m,
        "collection1",
        Some("Hope.1".to_string()),
        "hope_address",
        "bider2",
        5000,
    );
    let _result =
        bid_nft_with_coin(&mut m, "collection1", Some("Hope.1".to_string()), "bider3", "ujuno", 7000);
    let _result =
        bid_nft_with_coin(&mut m, "collection2", Some("Punk.1".to_string()), "bider1", "ujuno", 3000);
    let _result =
        bid_nft_with_coin(&mut m, "collection2", Some("Punk.1".to_string()), "bider2", "ujuno", 5000);
    let _result =
        bid_nft_with_coin(&mut m, "collection2", Some("Punk.1".to_string()), "bider3", "ujuno", 5000);

    let res = execute_remove_bid(
        &mut m,
        &"bider3".to_string(),
        &vec![],
        "collection1".to_string(),
        "Hope.1".to_string(),
    )
    .unwrap();
    assert_eq!(res.len(), 1);
    assert_eq!(
        res[0],
        TransferInstruction::Native {
            to: "bider3".to_string(),
            denom: "ujuno".to_string(),
            amount: 7000,
        }
    );

    let _bids_by_bidder = query_bids_by_bidder(&m, "bider3".to_string(), None, Some(20));
    println!("{:?}", _bids_by_bidder);

    let _bids_collection =
        query_bids(&m, "collection1".to_string(), "Hope.1".to_string(), None, Some(30));
    let _bids_by_seller = query_bids_by_seller(
        &m,
        "seller1".to_string(),
        Some(CollectionOffsetBid {
            collection: "collection1".to_string(),
            token_id: "Hope.1".to_string(),
            bidder: "bider1".to_string(),
        }),
        Some(10),
    );
}

#[test]
fn withdraw_nft() {
    let mut m = setup_contract();

    add_contract(&mut m, "collection1");
    add_contract(&mut m, "collection2");

    add_coin(&mut m, "ujuno");
    add_token(&mut m, "hope", "hope_address");

    sell_nft(&mut m, "collection1", "seller1", "ujuno", 10000, None, "Hope.1");
    sell_nft(
        &mut m,
        "collection2",
        "seller1",
        "hope",
        10000,
        Some("hope_address".to_string()),
        "Punk.1",
    );

    let _result = bid_nft_with_token(
        &mut m,
        "collection1",
        Some("Hope.1".to_string()),
        "hope_address",
        "bider1",
        3000,
    );
    let _result = bid_nft_with_token(
        &mut m,
        "collection1",
        Some("Hope.1".to_string()),
        "hope_address",
        "bider2",
        5000,
    );
    let _result =
        bid_nft_with_coin(&mut m, "collection1", Some("Hope.1".to_string()), "bider3", "ujuno", 7000);
    let _result =
        bid_nft_with_coin(&mut m, "collection2", Some("Punk.1".to_string()), "bider1", "ujuno", 3000);
    let _result =
        bid_nft_with_coin(&mut m, "collection2", Some("Punk.1".to_string()), "bider2", "ujuno", 7000);
    let _result = bid_nft_with_token(
        &mut m,
        "collection2",
        Some("Punk.1".to_string()),
        "hope_address",
        "bider3",
        7000,
    );

    let res = execute_withdraw(
        &mut m,
        &"seller1".to_string(),
        &vec![],
        "collection1".to_string(),
        "Hope.1".to_string(),
    )
    .unwrap();
    assert_eq!(res.len(), 4);

    assert_eq!(
        res[0],
        TransferInstruction::Token {
            contract: "hope_address".to_string(),
            to: "bider1".to_string(),
            amount: 3000,
        }
    );
    assert_eq!(
        res[1],
        TransferInstruction::Token {
            contract: "hope_address".to_string(),
            to: "bider2".to_string(),
            amount: 5000,
        }
    );
    assert_eq!(
        res[2],
        TransferInstruction::Native {
            to: "bider3".to_string(),
            denom: "ujuno".to_string(),
            amount: 7000,
        }
    );
    assert_eq!(
        res[3],
        TransferInstruction::Nft {
            contract: "collection1".to_string(),
            to: "seller1".to_string(),
            token_id: "Hope.1".to_string(),
        }
    );
}

#[test]
fn accept_bid() {
    let mut m = setup_contract();

    add_contract(&mut m, "collection1");
    add_contract(&mut m, "collection2");

    add_coin(&mut m, "ujuno");
    add_token(&mut m, "hope", "hope_address");

    sell_nft(&mut m, "collection1", "seller1", "ujuno", 10000, None, "Hope.1");
    sell_nft(
        &mut m,
        "collection2",
        "seller1",
        "hope",
        10000,
        Some("hope_address".to_string()),
        "Punk.1",
    );

    let _result = bid_nft_with_token(
        &mut m,
        "collection1",
        Some("Hope.1".to_string()),
        "hope_address",
        "bider1",
        3000,
    );
    let _result = bid_nft_with_token(
        &mut m,
        "collection1",
        Some("Hope.1".to_string()),
        "hope_address",
        "bider2",
        5000,
    );
    let _result =
        bid_nft_with_coin(&mut m, "collection1", Some("Hope.1".to_string()), "bider3", "ujuno", 7000);
    let _result =
        bid_nft_with_coin(&mut m, "collection2", Some("Punk.1".to_string()), "bider1", "ujuno", 3000);
    let _result =
        bid_nft_with_coin(&mut m, "collection2", Some("Punk.1".to_string()), "bider2", "ujuno", 5000);
    let _result = bid_nft_with_token(
        &mut m,
        "collection2",
        Some("Punk.1".to_string()),
        "hope_address",
        "bider3",
        7000,
    );

    let res = execute_accept_bid(
        &mut m,
        &"seller1".to_string(),
        &vec![],
        "collection1".to_string(),
        "Hope.1".to_string(),
        "bider1".to_string(),
        NOW,
    )
    .unwrap();

    assert_eq!(
        res[0],
        TransferInstruction::Token {
            contract: "hope_address".to_string(),
            to: "bider2".to_string(),
            amount: 5000,
        }
    );
    assert_eq!(
        res[1],
        TransferInstruction::Native {
            to: "bider3".to_string(),
            denom: "ujuno".to_string(),
            amount: 7000,
        }
    );
    assert_eq!(
        res[2],
        TransferInstruction::Token {
            contract: "hope_address".to_string(),
            to: "admin1".to_string(),
            amount: 210,
        }
    );
    assert_eq!(
        res[3],
        TransferInstruction::Token {
            contract: "hope_address".to_string(),
            to: "admin2".to_string(),
            amount: 90,
        }
    );
    assert_eq!(
        res[4],
        TransferInstruction::Token {
            contract: "hope_address".to_string(),
            to: "seller1".to_string(),
            amount: 2700,
        }
    );
    assert_eq!(
        res[5],
        TransferInstruction::Nft {
            contract: "collection1".to_string(),
            to: "bider1".to_string(),
            token_id: "Hope.1".to_string(),
        }
    );

    let res = execute_accept_bid(
        &mut m,
        &"seller1".to_string(),
        &vec![],
        "collection2".to_string(),
        "Punk.1".to_string(),
        "bider3".to_string(),
        NOW,
    )
    .unwrap();
    assert_eq!(res.len(), 6);

    let _ask_by_collection =
        query_asks(&m, "collection1".to_string(), Some("Hope.1".to_string()), Some(20));
    let _ask_by_collection =
        query_asks(&m, "collection2".to_string(), Some("Hope.1".to_string()), Some(20));

    sell_nft(&mut m, "collection1", "seller1", "ujuno", 10000, None, "Hope.1");

    let _result = bid_nft_with_token(
        &mut m,
        "collection1",
        Some("Hope.1".to_string()),
        "hope_address",
        "bider1",
        5000,
    );

    let _res = execute_accept_bid(
        &mut m,
        &"seller1".to_string(),
        &vec![],
        "collection1".to_string(),
        "Hope.1".to_string(),
        "bider1".to_string(),
        NOW,
    )
    .unwrap();

    let tvl = query_tvl_by_collection(&m, "collection1".to_string(), None, Some(30));
    println!("{:?}", tvl);
    let _tvl = query_tvl_by_denom(&m, "hope".to_string(), None, Some(20));

    let sale_history_by_token_id =
        query_sale_history_by_token_id(&m, "collection1".to_string(), "Hope.1".to_string(), None, Some(20));
    println!("{:?}", sale_history_by_token_id);
}
