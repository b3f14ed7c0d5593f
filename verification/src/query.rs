//! The read-only query surface: exact-key lookups and paginated range scans
//! over every secondary index, each result pinned to a filtered page of the
//! ordered store.
//!
//! Pagination follows the store's conventions: an exclusive start cursor,
//! a default page size, and a hard ceiling that larger requests are
//! silently clamped to.

use vstd::prelude::*;
use crate::contract::{Marketplace, skey2, skey3, skey_time};
use crate::error::ContractError;
use crate::keys::{key_lt, key_lt_exec, seq_lt, str_lt};
use crate::msg::{
    AskCountResponse, AskResponse, AsksResponse, BidResponse, BidsResponse, CollectionBidOffset,
    CollectionBidResponse, CollectionBidsResponse, CollectionOffset, CollectionOffsetBid,
    SaleHistoryOffset, SaleHistoryOffsetByUser, SaleHistroyResponse, TvlIndividualResponse,
    TvlResponse,
};
use crate::state::{
    Ask, Bid, CollectionBid, CollectionInfo, NANOS_PER_SECOND, SaleInfo, State, TvlInfo, UserInfo,
};
use crate::table::{Keyed, table_get};

verus! {

/// The page size used when a query names none.
pub const DEFAULT_QUERY_LIMIT: u32 = 10;

/// The hard ceiling on a page; larger requests are clamped to it.
pub const MAX_QUERY_LIMIT: u32 = 30;

/// The effective page size of a query.
pub open spec fn page_limit(limit: Option<u32>) -> int {
    let l = match limit {
        Some(l) => l,
        None => DEFAULT_QUERY_LIMIT,
    };
    if l < MAX_QUERY_LIMIT {
        l as int
    } else {
        MAX_QUERY_LIMIT as int
    }
}

fn page_limit_exec(limit: Option<u32>) -> (l: usize)
    ensures
        l == page_limit(limit),
{
    let l = match limit {
        Some(l) => l,
        None => DEFAULT_QUERY_LIMIT,
    };
    if l < MAX_QUERY_LIMIT {
        l as usize
    } else {
        MAX_QUERY_LIMIT as usize
    }
}

/// The first `lim` records of a scan's result.
pub open spec fn page<T>(s: Seq<T>, lim: int) -> Seq<T> {
    if s.len() <= lim {
        s
    } else {
        s.take(lim)
    }
}

pub open spec fn opt_or_empty(o: Option<String>) -> Seq<char> {
    match o {
        Some(s) => s@,
        None => Seq::empty(),
    }
}

fn opt_or_empty_exec(o: Option<String>) -> (r: String)
    ensures
        r@ == opt_or_empty(o),
{
    match o {
        Some(s) => s,
        None => String::new(),
    }
}

/// The global configuration.
pub fn query_state_info(m: &Marketplace) -> (r: State)
    ensures
        r == m.config,
{
    m.config.clone()
}

/// A collection's registered configuration; an error when none is stored.
pub fn query_collection_info(m: &Marketplace, address: String) -> (r: Result<
    CollectionInfo,
    ContractError,
>)
    ensures
        match r {
            Ok(ci) => m.spec_collection_info(address@) == Some(ci),
            Err(e) => m.spec_collection_info(address@) is None && e == ContractError::NoData,
        },
{
    let kk = (address, String::new(), String::new(), 0u64);
    match table_get(&m.collection_infos, &kk) {
        Some(ci) => Ok(ci.clone()),
        None => Err(ContractError::NoData),
    }
}

/// A collection's registered royalty members; an error when none are
/// stored.
pub fn query_get_members(m: &Marketplace, address: String) -> (r: Result<
    Vec<UserInfo>,
    ContractError,
>)
    ensures
        match r {
            Ok(v) => m.spec_members(address@) matches Some(cm) && v@ == cm.members@,
            Err(e) => m.spec_members(address@) is None && e == ContractError::NoData,
        },
{
    let kk = (address, String::new(), String::new(), 0u64);
    match table_get(&m.members, &kk) {
        Some(cm) => Ok(cm.members.clone()),
        None => Err(ContractError::NoData),
    }
}

/// The ask stored for one item, if any.
pub fn query_ask(m: &Marketplace, collection: String, token_id: String) -> (r: AskResponse)
    ensures
        r.ask == m.spec_ask(collection@, token_id@),
{
    let kk = (collection, token_id, String::new(), 0u64);
    match table_get(&m.asks, &kk) {
        Some(a) => AskResponse { ask: Some(a.clone()) },
        None => AskResponse { ask: None },
    }
}

/// One collection's asks past an exclusive token-id cursor, ascending.
pub open spec fn asks_scan(asks: Seq<Ask>, c: Seq<char>, start: Seq<char>) -> Seq<Ask> {
    asks.filter(|a: Ask| a.collection@ == c && seq_lt(start, a.token_id@))
}

/// The asks of a collection, ascending by token id, from an exclusive
/// token-id cursor.
pub fn query_asks(
    m: &Marketplace,
    collection: String,
    start_after: Option<String>,
    limit: Option<u32>,
) -> (r: AsksResponse)
    ensures
        r.asks@ == page(
            asks_scan(m.asks@, collection@, opt_or_empty(start_after)),
            page_limit(limit),
        ),
{
    let start = opt_or_empty_exec(start_after);
    let n = m.asks.len();
    let mut out: Vec<Ask> = Vec::new();
    let mut i: usize = 0;
    proof {
        reveal(Seq::filter);
        assert(m.asks@.take(0) =~= Seq::<Ask>::empty());
    }
    while i < n
        invariant
            i <= n,
            n == m.asks@.len(),
            out@ == asks_scan(m.asks@.take(i as int), collection@, start@),
        decreases n - i,
    {
        proof {
            reveal(Seq::filter);
            assert(m.asks@.take(i + 1).drop_last() =~= m.asks@.take(i as int));
            assert(m.asks@.take(i + 1).last() == m.asks@[i as int]);
        }
        let a = &m.asks[i];
        if a.collection == collection && str_lt(start.as_str(), a.token_id.as_str()) {
            out.push(a.clone());
        }
        i = i + 1;
    }
    proof {
        assert(m.asks@.take(n as int) =~= m.asks@);
    }
    let lim = page_limit_exec(limit);
    out.truncate(lim);
    AsksResponse { asks: out }
}

/// One collection's asks strictly below an exclusive token-id bound.
pub open spec fn asks_before(asks: Seq<Ask>, c: Seq<char>, bound: Seq<char>) -> Seq<Ask> {
    asks.filter(|a: Ask| a.collection@ == c && seq_lt(a.token_id@, bound))
}

/// Prepending a record to a scan keeps or drops it by the scan's own
/// predicate.
proof fn lemma_asks_before_cons(s: Seq<Ask>, x: Ask, c: Seq<char>, bound: Seq<char>)
    ensures
        asks_before(seq![x] + s, c, bound) == if x.collection@ == c && seq_lt(x.token_id@, bound) {
            seq![x] + asks_before(s, c, bound)
        } else {
            asks_before(s, c, bound)
        },
    decreases s.len(),
{
    reveal(Seq::filter);
    let t = seq![x] + s;
    assert(asks_before(Seq::<Ask>::empty(), c, bound) =~= Seq::<Ask>::empty());
    if s.len() == 0 {
        assert(t.drop_last() =~= Seq::<Ask>::empty());
        assert(t.last() == x);
        assert(s =~= Seq::<Ask>::empty());
        if x.collection@ == c && seq_lt(x.token_id@, bound) {
            assert(asks_before(t, c, bound) =~= seq![x] + asks_before(s, c, bound));
        } else {
            assert(asks_before(t, c, bound) =~= asks_before(s, c, bound));
        }
    } else {
        lemma_asks_before_cons(s.drop_last(), x, c, bound);
        assert(t.drop_last() =~= seq![x] + s.drop_last());
        assert(t.last() == s.last());
        if x.collection@ == c && seq_lt(x.token_id@, bound) {
            if s.last().collection@ == c && seq_lt(s.last().token_id@, bound) {
                assert(asks_before(t, c, bound) =~= seq![x] + asks_before(s, c, bound));
            } else {
                assert(asks_before(t, c, bound) =~= seq![x] + asks_before(s, c, bound));
            }
        } else {
            if s.last().collection@ == c && seq_lt(s.last().token_id@, bound) {
                assert(asks_before(t, c, bound) =~= asks_before(s, c, bound));
            } else {
                assert(asks_before(t, c, bound) =~= asks_before(s, c, bound));
            }
        }
    }
}

/// The asks of a collection, descending by token id, strictly below an
/// exclusive token-id bound.
pub fn reverse_query_asks(
    m: &Marketplace,
    collection: String,
    start_before: Option<String>,
    limit: Option<u32>,
) -> (r: AsksResponse)
    ensures
        r.asks@ == page(
            asks_before(m.asks@, collection@, opt_or_empty(start_before)).reverse(),
            page_limit(limit),
        ),
{
    let bound = opt_or_empty_exec(start_before);
    let n = m.asks.len();
    let mut out: Vec<Ask> = Vec::new();
    let mut i: usize = n;
    proof {
        reveal(Seq::filter);
        assert(m.asks@.skip(n as int) =~= Seq::<Ask>::empty());
        assert(out@ =~= asks_before(m.asks@.skip(n as int), collection@, bound@).reverse());
    }
    while i > 0
        invariant
            i <= n,
            n == m.asks@.len(),
            out@ == asks_before(m.asks@.skip(i as int), collection@, bound@).reverse(),
        decreases i,
    {
        proof {
            let pre = m.asks@.skip(i as int);
            let post = m.asks@.skip(i - 1);
            assert(post =~= seq![m.asks@[i - 1]] + pre);
            lemma_asks_before_cons(pre, m.asks@[i - 1], collection@, bound@);
        }
        let a = &m.asks[i - 1];
        if a.collection == collection && str_lt(a.token_id.as_str(), bound.as_str()) {
            out.push(a.clone());
            proof {
                let pre = m.asks@.skip(i as int);
                assert(out@ =~= (seq![m.asks@[i - 1]] + asks_before(
                    pre,
                    collection@,
                    bound@,
                )).reverse());
            }
        }
        i = i - 1;
    }
    proof {
        assert(m.asks@.skip(0) =~= m.asks@);
    }
    let lim = page_limit_exec(limit);
    out.truncate(lim);
    AsksResponse { asks: out }
}

/// The asks stored for one collection.
pub open spec fn asks_of_collection(asks: Seq<Ask>, c: Seq<char>) -> Seq<Ask> {
    asks.filter(|a: Ask| a.collection@ == c)
}

/// How many asks a collection carries.
pub fn query_ask_count(m: &Marketplace, collection: String) -> (r: AskCountResponse)
    ensures
        r.count == asks_of_collection(m.asks@, collection@).len() as u32,
{
    let n = m.asks.len();
    let mut count: usize = 0;
    let mut i: usize = 0;
    proof {
        reveal(Seq::filter);
        assert(m.asks@.take(0) =~= Seq::<Ask>::empty());
    }
    while i < n
        invariant
            i <= n,
            n == m.asks@.len(),
            count == asks_of_collection(m.asks@.take(i as int), collection@).len(),
            count <= i,
        decreases n - i,
    {
        proof {
            reveal(Seq::filter);
            assert(m.asks@.take(i + 1).drop_last() =~= m.asks@.take(i as int));
            assert(m.asks@.take(i + 1).last() == m.asks@[i as int]);
        }
        if m.asks[i].collection == collection {
            count = count + 1;
        }
        i = i + 1;
    }
    proof {
        assert(m.asks@.take(n as int) =~= m.asks@);
    }
    #[verifier::truncate]
    let c32 = count as u32;
    AskCountResponse { count: c32 }
}

/// One seller's asks past an exclusive (collection, token id) cursor,
/// ascending by primary key.
pub open spec fn asks_of_seller(
    asks: Seq<Ask>,
    seller: Seq<char>,
    start: Option<CollectionOffset>,
) -> Seq<Ask> {
    asks.filter(
        |a: Ask|
            a.seller@ == seller && match start {
                Some(off) => key_lt(skey2(off.collection@, off.token_id@), a.skey()),
                None => true,
            },
    )
}

/// The asks of a seller, ascending by (collection, token id), from an
/// optional exclusive cursor.
pub fn query_asks_by_seller(
    m: &Marketplace,
    seller: String,
    start_after: Option<CollectionOffset>,
    limit: Option<u32>,
) -> (r: AsksResponse)
    ensures
        r.asks@ == page(asks_of_seller(m.asks@, seller@, start_after), page_limit(limit)),
{
    let bound = match &start_after {
        Some(off) => Some((off.collection.clone(), off.token_id.clone(), String::new(), 0u64)),
        None => None,
    };
    let n = m.asks.len();
    let mut out: Vec<Ask> = Vec::new();
    let mut i: usize = 0;
    proof {
        reveal(Seq::filter);
        assert(m.asks@.take(0) =~= Seq::<Ask>::empty());
    }
    while i < n
        invariant
            i <= n,
            n == m.asks@.len(),
            match (bound, start_after) {
                (Some(b), Some(off)) => crate::keys::key_model(b) == skey2(
                    off.collection@,
                    off.token_id@,
                ),
                (None, None) => true,
                _ => false,
            },
            out@ == asks_of_seller(m.asks@.take(i as int), seller@, start_after),
        decreases n - i,
    {
        proof {
            reveal(Seq::filter);
            assert(m.asks@.take(i + 1).drop_last() =~= m.asks@.take(i as int));
            assert(m.asks@.take(i + 1).last() == m.asks@[i as int]);
        }
        let a = &m.asks[i];
        let past_bound = match &bound {
            Some(b) => {
                let ka = a.key_of();
                key_lt_exec(b, &ka)
            },
            None => true,
        };
        if a.seller == seller && past_bound {
            out.push(a.clone());
        }
        i = i + 1;
    }
    proof {
        assert(m.asks@.take(n as int) =~= m.asks@);
    }
    let lim = page_limit_exec(limit);
    out.truncate(lim);
    AsksResponse { asks: out }
}

/// The bid stored for one item and bidder, if any.
pub fn query_bid(m: &Marketplace, collection: String, token_id: String, bidder: String) -> (r:
    BidResponse)
    ensures
        r.bid == m.spec_bid(collection@, token_id@, bidder@),
{
    let kk = (collection, token_id, bidder, 0u64);
    match table_get(&m.bids, &kk) {
        Some(b) => BidResponse { bid: Some(b.clone()) },
        None => BidResponse { bid: None },
    }
}

/// One item's bids past an exclusive bidder cursor, ascending by bidder.
pub open spec fn bids_scan(
    bids: Seq<Bid>,
    c: Seq<char>,
    t: Seq<char>,
    start: Option<String>,
) -> Seq<Bid> {
    bids.filter(
        |b: Bid|
            b.collection@ == c && b.token_id@ == t && match start {
                Some(s) => seq_lt(s@, b.bidder@),
                None => true,
            },
    )
}

/// The bids on one item, ascending by bidder, from an optional exclusive
/// bidder cursor.
pub fn query_bids(
    m: &Marketplace,
    collection: String,
    token_id: String,
    start_after: Option<String>,
    limit: Option<u32>,
) -> (r: BidsResponse)
    ensures
        r.bids@ == page(
            bids_scan(m.bids@, collection@, token_id@, start_after),
            page_limit(limit),
        ),
{
    let n = m.bids.len();
    let mut out: Vec<Bid> = Vec::new();
    let mut i: usize = 0;
    proof {
        reveal(Seq::filter);
        assert(m.bids@.take(0) =~= Seq::<Bid>::empty());
    }
    while i < n
        invariant
            i <= n,
            n == m.bids@.len(),
            out@ == bids_scan(m.bids@.take(i as int), collection@, token_id@, start_after),
        decreases n - i,
    {
        proof {
            reveal(Seq::filter);
            assert(m.bids@.take(i + 1).drop_last() =~= m.bids@.take(i as int));
            assert(m.bids@.take(i + 1).last() == m.bids@[i as int]);
        }
        let b = &m.bids[i];
        let past = match &start_after {
            Some(s) => str_lt(s.as_str(), b.bidder.as_str()),
            None => true,
        };
        if b.collection == collection && b.token_id == token_id && past {
            out.push(b.clone());
        }
        i = i + 1;
    }
    proof {
        assert(m.bids@.take(n as int) =~= m.bids@);
    }
    let lim = page_limit_exec(limit);
    out.truncate(lim);
    BidsResponse { bids: out }
}

/// One bidder's bids past an exclusive (collection, token id) cursor,
/// ascending by primary key.
pub open spec fn bids_of_bidder(
    bids: Seq<Bid>,
    bidder: Seq<char>,
    start: Option<CollectionOffset>,
) -> Seq<Bid> {
    bids.filter(
        |b: Bid|
            b.bidder@ == bidder && match start {
                Some(off) => key_lt(skey3(off.collection@, off.token_id@, bidder), b.skey()),
                None => true,
            },
    )
}

/// The bids of a bidder, ascending by (collection, token id), from an
/// optional exclusive cursor.
pub fn query_bids_by_bidder(
    m: &Marketplace,
    bidder: String,
    start_after: Option<CollectionOffset>,
    limit: Option<u32>,
) -> (r: BidsResponse)
    ensures
        r.bids@ == page(bids_of_bidder(m.bids@, bidder@, start_after), page_limit(limit)),
{
    let bound = match &start_after {
        Some(off) => Some((off.collection.clone(), off.token_id.clone(), bidder.clone(), 0u64)),
        None => None,
    };
    let n = m.bids.len();
    let mut out: Vec<Bid> = Vec::new();
    let mut i: usize = 0;
    proof {
        reveal(Seq::filter);
        assert(m.bids@.take(0) =~= Seq::<Bid>::empty());
    }
    while i < n
        invariant
            i <= n,
            n == m.bids@.len(),
            match (bound, start_after) {
                (Some(b), Some(off)) => crate::keys::key_model(b) == skey3(
                    off.collection@,
                    off.token_id@,
                    bidder@,
                ),
                (None, None) => true,
                _ => false,
            },
            out@ == bids_of_bidder(m.bids@.take(i as int), bidder@, start_after),
        decreases n - i,
    {
        proof {
            reveal(Seq::filter);
            assert(m.bids@.take(i + 1).drop_last() =~= m.bids@.take(i as int));
            assert(m.bids@.take(i + 1).last() == m.bids@[i as int]);
        }
        let b = &m.bids[i];
        let past = match &bound {
            Some(bd) => {
                let kb = b.key_of();
                key_lt_exec(bd, &kb)
            },
            None => true,
        };
        if b.bidder == bidder && past {
            out.push(b.clone());
        }
        i = i + 1;
    }
    proof {
        assert(m.bids@.take(n as int) =~= m.bids@);
    }
    let lim = page_limit_exec(limit);
    out.truncate(lim);
    BidsResponse { bids: out }
}

/// One seller's bids past an exclusive (collection, token id, bidder)
/// cursor, ascending by primary key.
pub open spec fn bids_of_seller(
    bids: Seq<Bid>,
    seller: Seq<char>,
    start: Option<CollectionOffsetBid>,
) -> Seq<Bid> {
    bids.filter(
        |b: Bid|
            b.seller@ == seller && match start {
                Some(off) => key_lt(
                    skey3(off.collection@, off.token_id@, off.bidder@),
                    b.skey(),
                ),
                None => true,
            },
    )
}

/// The bids whose snapshotted seller is the given one, ascending by
/// primary key, from an optional exclusive cursor.
pub fn query_bids_by_seller(
    m: &Marketplace,
    seller: String,
    start_after: Option<CollectionOffsetBid>,
    limit: Option<u32>,
) -> (r: BidsResponse)
    ensures
        r.bids@ == page(bids_of_seller(m.bids@, seller@, start_after), page_limit(limit)),
{
    let bound = match &start_after {
        Some(off) => Some(
            (off.collection.clone(), off.token_id.clone(), off.bidder.clone(), 0u64),
        ),
        None => None,
    };
    let n = m.bids.len();
    let mut out: Vec<Bid> = Vec::new();
    let mut i: usize = 0;
    proof {
        reveal(Seq::filter);
        assert(m.bids@.take(0) =~= Seq::<Bid>::empty());
    }
    while i < n
        invariant
            i <= n,
            n == m.bids@.len(),
            match (bound, start_after) {
                (Some(b), Some(off)) => crate::keys::key_model(b) == skey3(
                    off.collection@,
                    off.token_id@,
                    off.bidder@,
                ),
                (None, None) => true,
                _ => false,
            },
            out@ == bids_of_seller(m.bids@.take(i as int), seller@, start_after),
        decreases n - i,
    {
        proof {
            reveal(Seq::filter);
            assert(m.bids@.take(i + 1).drop_last() =~= m.bids@.take(i as int));
            assert(m.bids@.take(i + 1).last() == m.bids@[i as int]);
        }
        let b = &m.bids[i];
        let past = match &bound {
            Some(bd) => {
                let kb = b.key_of();
                key_lt_exec(bd, &kb)
            },
            None => true,
        };
        if b.seller == seller && past {
            out.push(b.clone());
        }
        i = i + 1;
    }
    proof {
        assert(m.bids@.take(n as int) =~= m.bids@);
    }
    let lim = page_limit_exec(limit);
    out.truncate(lim);
    BidsResponse { bids: out }
}

/// One collection's sale records past an exclusive (token id, time)
/// cursor, ascending by primary key.
pub open spec fn history_of_collection(
    hist: Seq<SaleInfo>,
    c: Seq<char>,
    start: Option<SaleHistoryOffset>,
) -> Seq<SaleInfo> {
    hist.filter(
        |s: SaleInfo|
            s.collection@ == c && match start {
                Some(off) => key_lt(skey_time(c, off.token_id@, off.time), s.skey()),
                None => true,
            },
    )
}

/// The sale history of a collection, ascending by (token id, time), from
/// an optional exclusive cursor.
pub fn query_sale_history(
    m: &Marketplace,
    collection: String,
    start_after: Option<SaleHistoryOffset>,
    limit: Option<u32>,
) -> (r: SaleHistroyResponse)
    ensures
        r.sale_history@ == page(
            history_of_collection(m.sale_history@, collection@, start_after),
            page_limit(limit),
        ),
{
    let bound = match &start_after {
        Some(off) => Some((collection.clone(), off.token_id.clone(), String::new(), off.time)),
        None => None,
    };
    let n = m.sale_history.len();
    let mut out: Vec<SaleInfo> = Vec::new();
    let mut i: usize = 0;
    proof {
        reveal(Seq::filter);
        assert(m.sale_history@.take(0) =~= Seq::<SaleInfo>::empty());
    }
    while i < n
        invariant
            i <= n,
            n == m.sale_history@.len(),
            match (bound, start_after) {
                (Some(b), Some(off)) => crate::keys::key_model(b) == skey_time(
                    collection@,
                    off.token_id@,
                    off.time,
                ),
                (None, None) => true,
                _ => false,
            },
            out@ == history_of_collection(
                m.sale_history@.take(i as int),
                collection@,
                start_after,
            ),
        decreases n - i,
    {
        proof {
            reveal(Seq::filter);
            assert(m.sale_history@.take(i + 1).drop_last() =~= m.sale_history@.take(i as int));
            assert(m.sale_history@.take(i + 1).last() == m.sale_history@[i as int]);
        }
        let s = &m.sale_history[i];
        let past = match &bound {
            Some(bd) => {
                let ks = s.key_of();
                key_lt_exec(bd, &ks)
            },
            None => true,
        };
        if s.collection == collection && past {
            out.push(s.clone());
        }
        i = i + 1;
    }
    proof {
        assert(m.sale_history@.take(n as int) =~= m.sale_history@);
    }
    let lim = page_limit_exec(limit);
    out.truncate(lim);
    SaleHistroyResponse { sale_history: out }
}

/// One item's sale records past an exclusive time cursor, ascending.
pub open spec fn history_of_item(
    hist: Seq<SaleInfo>,
    c: Seq<char>,
    t: Seq<char>,
    start: Option<u64>,
) -> Seq<SaleInfo> {
    hist.filter(
        |s: SaleInfo|
            s.collection@ == c && s.token_id@ == t && match start {
                Some(time) => time < s.time,
                None => true,
            },
    )
}

/// The sale history of one item, ascending by time, from an optional
/// exclusive time cursor.
pub fn query_sale_history_by_token_id(
    m: &Marketplace,
    collection: String,
    token_id: String,
    start_after: Option<u64>,
    limit: Option<u32>,
) -> (r: SaleHistroyResponse)
    ensures
        r.sale_history@ == page(
            history_of_item(m.sale_history@, collection@, token_id@, start_after),
            page_limit(limit),
        ),
{
    let n = m.sale_history.len();
    let mut out: Vec<SaleInfo> = Vec::new();
    let mut i: usize = 0;
    proof {
        reveal(Seq::filter);
        assert(m.sale_history@.take(0) =~= Seq::<SaleInfo>::empty());
    }
    while i < n
        invariant
            i <= n,
            n == m.sale_history@.len(),
            out@ == history_of_item(
                m.sale_history@.take(i as int),
                collection@,
                token_id@,
                start_after,
            ),
        decreases n - i,
    {
        proof {
            reveal(Seq::filter);
            assert(m.sale_history@.take(i + 1).drop_last() =~= m.sale_history@.take(i as int));
            assert(m.sale_history@.take(i + 1).last() == m.sale_history@[i as int]);
        }
        let s = &m.sale_history[i];
        let past = match start_after {
            Some(time) => time < s.time,
            None => true,
        };
        if s.collection == collection && s.token_id == token_id && past {
            out.push(s.clone());
        }
        i = i + 1;
    }
    proof {
        assert(m.sale_history@.take(n as int) =~= m.sale_history@);
    }
    let lim = page_limit_exec(limit);
    out.truncate(lim);
    SaleHistroyResponse { sale_history: out }
}

/// One buyer's sale records past an exclusive cursor, ascending by
/// primary key.
pub open spec fn history_of_buyer(
    hist: Seq<SaleInfo>,
    buyer: Seq<char>,
    start: Option<SaleHistoryOffsetByUser>,
) -> Seq<SaleInfo> {
    hist.filter(
        |s: SaleInfo|
            s.to@ == buyer && match start {
                Some(off) => key_lt(
                    skey_time(off.collection@, off.token_id@, off.time),
                    s.skey(),
                ),
                None => true,
            },
    )
}

/// The purchases of a buyer, ascending by primary key, from an optional
/// exclusive cursor.
pub fn query_sale_history_by_buyer(
    m: &Marketplace,
    buyer: String,
    start_after: Option<SaleHistoryOffsetByUser>,
    limit: Option<u32>,
) -> (r: SaleHistroyResponse)
    ensures
        r.sale_history@ == page(
            history_of_buyer(m.sale_history@, buyer@, start_after),
            page_limit(limit),
        ),
{
    let bound = match &start_after {
        Some(off) => Some(
            (off.collection.clone(), off.token_id.clone(), String::new(), off.time),
        ),
        None => None,
    };
    let n = m.sale_history.len();
    let mut out: Vec<SaleInfo> = Vec::new();
    let mut i: usize = 0;
    proof {
        reveal(Seq::filter);
        assert(m.sale_history@.take(0) =~= Seq::<SaleInfo>::empty());
    }
    while i < n
        invariant
            i <= n,
            n == m.sale_history@.len(),
            match (bound, start_after) {
                (Some(b), Some(off)) => crate::keys::key_model(b) == skey_time(
                    off.collection@,
                    off.token_id@,
                    off.time,
                ),
                (None, None) => true,
                _ => false,
            },
            out@ == history_of_buyer(m.sale_history@.take(i as int), buyer@, start_after),
        decreases n - i,
    {
        proof {
            reveal(Seq::filter);
            assert(m.sale_history@.take(i + 1).drop_last() =~= m.sale_history@.take(i as int));
            assert(m.sale_history@.take(i + 1).last() == m.sale_history@[i as int]);
        }
        let s = &m.sale_history[i];
        let past = match &bound {
            Some(bd) => {
                let ks = s.key_of();
                key_lt_exec(bd, &ks)
            },
            None => true,
        };
        if s.to == buyer && past {
            out.push(s.clone());
        }
        i = i + 1;
    }
    proof {
        assert(m.sale_history@.take(n as int) =~= m.sale_history@);
    }
    let lim = page_limit_exec(limit);
    out.truncate(lim);
    SaleHistroyResponse { sale_history: out }
}

/// One seller's sale records past an exclusive cursor, ascending by
/// primary key.
pub open spec fn history_of_seller(
    hist: Seq<SaleInfo>,
    seller: Seq<char>,
    start: Option<SaleHistoryOffsetByUser>,
) -> Seq<SaleInfo> {
    hist.filter(
        |s: SaleInfo|
            s.from@ == seller && match start {
                Some(off) => key_lt(
                    skey_time(off.collection@, off.token_id@, off.time),
                    s.skey(),
                ),
                None => true,
            },
    )
}

/// The sales of a seller, ascending by primary key, from an optional
/// exclusive cursor.
pub fn query_sale_history_by_seller(
    m: &Marketplace,
    seller: String,
    start_after: Option<SaleHistoryOffsetByUser>,
    limit: Option<u32>,
) -> (r: SaleHistroyResponse)
    ensures
        r.sale_history@ == page(
            history_of_seller(m.sale_history@, seller@, start_after),
            page_limit(limit),
        ),
{
    let bound = match &start_after {
        Some(off) => Some(
            (off.collection.clone(), off.token_id.clone(), String::new(), off.time),
        ),
        None => None,
    };
    let n = m.sale_history.len();
    let mut out: Vec<SaleInfo> = Vec::new();
    let mut i: usize = 0;
    proof {
        reveal(Seq::filter);
        assert(m.sale_history@.take(0) =~= Seq::<SaleInfo>::empty());
    }
    while i < n
        invariant
            i <= n,
            n == m.sale_history@.len(),
            match (bound, start_after) {
                (Some(b), Some(off)) => crate::keys::key_model(b) == skey_time(
                    off.collection@,
                    off.token_id@,
                    off.time,
                ),
                (None, None) => true,
                _ => false,
            },
            out@ == history_of_seller(m.sale_history@.take(i as int), seller@, start_after),
        decreases n - i,
    {
        proof {
            reveal(Seq::filter);
            assert(m.sale_history@.take(i + 1).drop_last() =~= m.sale_history@.take(i as int));
            assert(m.sale_history@.take(i + 1).last() == m.sale_history@[i as int]);
        }
        let s = &m.sale_history[i];
        let past = match &bound {
            Some(bd) => {
                let ks = s.key_of();
                key_lt_exec(bd, &ks)
            },
            None => true,
        };
        if s.from == seller && past {
            out.push(s.clone());
        }
        i = i + 1;
    }
    proof {
        assert(m.sale_history@.take(n as int) =~= m.sale_history@);
    }
    let lim = page_limit_exec(limit);
    out.truncate(lim);
    SaleHistroyResponse { sale_history: out }
}

/// One collection's aggregates past an exclusive denomination cursor,
/// ascending.
pub open spec fn tvl_of_collection(
    tvl: Seq<TvlInfo>,
    c: Seq<char>,
    start: Seq<char>,
) -> Seq<TvlInfo> {
    tvl.filter(|t: TvlInfo| t.collection@ == c && seq_lt(start, t.denom@))
}

/// The locked-value aggregates of a collection, ascending by denomination,
/// from an exclusive denomination cursor.
pub fn query_tvl_by_collection(
    m: &Marketplace,
    collection: String,
    start_after: Option<String>,
    limit: Option<u32>,
) -> (r: TvlResponse)
    ensures
        r.tvl@ == page(
            tvl_of_collection(m.tvl@, collection@, opt_or_empty(start_after)),
            page_limit(limit),
        ),
{
    let start = opt_or_empty_exec(start_after);
    let n = m.tvl.len();
    let mut out: Vec<TvlInfo> = Vec::new();
    let mut i: usize = 0;
    proof {
        reveal(Seq::filter);
        assert(m.tvl@.take(0) =~= Seq::<TvlInfo>::empty());
    }
    while i < n
        invariant
            i <= n,
            n == m.tvl@.len(),
            out@ == tvl_of_collection(m.tvl@.take(i as int), collection@, start@),
        decreases n - i,
    {
        proof {
            reveal(Seq::filter);
            assert(m.tvl@.take(i + 1).drop_last() =~= m.tvl@.take(i as int));
            assert(m.tvl@.take(i + 1).last() == m.tvl@[i as int]);
        }
        let t = &m.tvl[i];
        if t.collection == collection && str_lt(start.as_str(), t.denom.as_str()) {
            out.push(t.clone());
        }
        i = i + 1;
    }
    proof {
        assert(m.tvl@.take(n as int) =~= m.tvl@);
    }
    let lim = page_limit_exec(limit);
    out.truncate(lim);
    TvlResponse { tvl: out }
}

/// One denomination's aggregates past an exclusive collection cursor,
/// ascending by primary key.
pub open spec fn tvl_of_denom(tvl: Seq<TvlInfo>, d: Seq<char>, start: Seq<char>) -> Seq<TvlInfo> {
    tvl.filter(|t: TvlInfo| t.denom@ == d && key_lt(skey2(start, d), t.skey()))
}

/// The locked-value aggregates of a denomination, ascending by collection,
/// from an exclusive collection cursor.
pub fn query_tvl_by_denom(
    m: &Marketplace,
    denom: String,
    start_after: Option<String>,
    limit: Option<u32>,
) -> (r: TvlResponse)
    ensures
        r.tvl@ == page(
            tvl_of_denom(m.tvl@, denom@, opt_or_empty(start_after)),
            page_limit(limit),
        ),
{
    let start = opt_or_empty_exec(start_after);
    let bound = (start, denom.clone(), String::new(), 0u64);
    let n = m.tvl.len();
    let mut out: Vec<TvlInfo> = Vec::new();
    let mut i: usize = 0;
    proof {
        reveal(Seq::filter);
        assert(m.tvl@.take(0) =~= Seq::<TvlInfo>::empty());
    }
    while i < n
        invariant
            i <= n,
            n == m.tvl@.len(),
            crate::keys::key_model(bound) == skey2(opt_or_empty(start_after), denom@),
            out@ == tvl_of_denom(m.tvl@.take(i as int), denom@, opt_or_empty(start_after)),
        decreases n - i,
    {
        proof {
            reveal(Seq::filter);
            assert(m.tvl@.take(i + 1).drop_last() =~= m.tvl@.take(i as int));
            assert(m.tvl@.take(i + 1).last() == m.tvl@[i as int]);
        }
        let t = &m.tvl[i];
        let kt = t.key_of();
        if t.denom == denom && key_lt_exec(&bound, &kt) {
            out.push(t.clone());
        }
        i = i + 1;
    }
    proof {
        assert(m.tvl@.take(n as int) =~= m.tvl@);
    }
    let lim = page_limit_exec(limit);
    out.truncate(lim);
    TvlResponse { tvl: out }
}

/// The aggregate of one collection and denomination; absent means no
/// settled volume yet.
pub fn query_tvl_by_individual(m: &Marketplace, collection: String, denom: String) -> (r:
    TvlIndividualResponse)
    ensures
        r.tvl == m.spec_tvl(collection@, denom@),
{
    let kk = (collection, denom, String::new(), 0u64);
    match table_get(&m.tvl, &kk) {
        Some(t) => TvlIndividualResponse { tvl: Some(t.clone()) },
        None => TvlIndividualResponse { tvl: None },
    }
}

/// The standing collection bid of one bidder on one collection, if any.
pub fn query_collection_bid(m: &Marketplace, collection: String, bidder: String) -> (r:
    CollectionBidResponse)
    ensures
        r.bid == m.spec_collection_bid(collection@, bidder@),
{
    let kk = (collection, bidder, String::new(), 0u64);
    match table_get(&m.collection_bids, &kk) {
        Some(b) => CollectionBidResponse { bid: Some(b.clone()) },
        None => CollectionBidResponse { bid: None },
    }
}

/// One bidder's collection bids past an exclusive collection cursor,
/// ascending by primary key.
pub open spec fn collection_bids_of_bidder(
    bids: Seq<CollectionBid>,
    bidder: Seq<char>,
    start: Option<CollectionOffset>,
) -> Seq<CollectionBid> {
    bids.filter(
        |b: CollectionBid|
            b.bidder@ == bidder && match start {
                Some(off) => key_lt(skey2(off.collection@, bidder), b.skey()),
                None => true,
            },
    )
}

/// The collection bids of a bidder, ascending by collection, from an
/// optional exclusive cursor.
pub fn query_collection_bids_by_bidder(
    m: &Marketplace,
    bidder: String,
    start_after: Option<CollectionOffset>,
    limit: Option<u32>,
) -> (r: CollectionBidsResponse)
    ensures
        r.bids@ == page(
            collection_bids_of_bidder(m.collection_bids@, bidder@, start_after),
            page_limit(limit),
        ),
{
    let bound = match &start_after {
        Some(off) => Some((off.collection.clone(), bidder.clone(), String::new(), 0u64)),
        None => None,
    };
    let n = m.collection_bids.len();
    let mut out: Vec<CollectionBid> = Vec::new();
    let mut i: usize = 0;
    proof {
        reveal(Seq::filter);
        assert(m.collection_bids@.take(0) =~= Seq::<CollectionBid>::empty());
    }
    while i < n
        invariant
            i <= n,
            n == m.collection_bids@.len(),
            match (bound, start_after) {
                (Some(b), Some(off)) => crate::keys::key_model(b) == skey2(
                    off.collection@,
                    bidder@,
                ),
                (None, None) => true,
                _ => false,
            },
            out@ == collection_bids_of_bidder(
                m.collection_bids@.take(i as int),
                bidder@,
                start_after,
            ),
        decreases n - i,
    {
        proof {
            reveal(Seq::filter);
            assert(m.collection_bids@.take(i + 1).drop_last() =~= m.collection_bids@.take(
                i as int,
            ));
            assert(m.collection_bids@.take(i + 1).last() == m.collection_bids@[i as int]);
        }
        let b = &m.collection_bids[i];
        let past = match &bound {
            Some(bd) => {
                let kb = b.key_of();
                key_lt_exec(bd, &kb)
            },
            None => true,
        };
        if b.bidder == bidder && past {
            out.push(b.clone());
        }
        i = i + 1;
    }
    proof {
        assert(m.collection_bids@.take(n as int) =~= m.collection_bids@);
    }
    let lim = page_limit_exec(limit);
    out.truncate(lim);
    CollectionBidsResponse { bids: out }
}

/// One collection's standing bids past an exclusive bidder cursor,
/// ascending by bidder.
pub open spec fn collection_bids_of_collection(
    bids: Seq<CollectionBid>,
    c: Seq<char>,
    start: Option<String>,
) -> Seq<CollectionBid> {
    bids.filter(
        |b: CollectionBid|
            b.collection@ == c && match start {
                Some(s) => key_lt(skey2(c, s@), b.skey()),
                None => true,
            },
    )
}

/// The standing bids on a collection, ascending by bidder, from an
/// optional exclusive bidder cursor.
pub fn query_collection_bid_by_collection(
    m: &Marketplace,
    collection: String,
    start_after: Option<String>,
    limit: Option<u32>,
) -> (r: CollectionBidsResponse)
    ensures
        r.bids@ == page(
            collection_bids_of_collection(m.collection_bids@, collection@, start_after),
            page_limit(limit),
        ),
{
    let bound = match &start_after {
        Some(s) => Some((collection.clone(), s.clone(), String::new(), 0u64)),
        None => None,
    };
    let n = m.collection_bids.len();
    let mut out: Vec<CollectionBid> = Vec::new();
    let mut i: usize = 0;
    proof {
        reveal(Seq::filter);
        assert(m.collection_bids@.take(0) =~= Seq::<CollectionBid>::empty());
    }
    while i < n
        invariant
            i <= n,
            n == m.collection_bids@.len(),
            match (bound, start_after) {
                (Some(b), Some(s)) => crate::keys::key_model(b) == skey2(collection@, s@),
                (None, None) => true,
                _ => false,
            },
            out@ == collection_bids_of_collection(
                m.collection_bids@.take(i as int),
                collection@,
                start_after,
            ),
        decreases n - i,
    {
        proof {
            reveal(Seq::filter);
            assert(m.collection_bids@.take(i + 1).drop_last() =~= m.collection_bids@.take(
                i as int,
            ));
            assert(m.collection_bids@.take(i + 1).last() == m.collection_bids@[i as int]);
        }
        let b = &m.collection_bids[i];
        let past = match &bound {
            Some(bd) => {
                let kb = b.key_of();
                key_lt_exec(bd, &kb)
            },
            None => true,
        };
        if b.collection == collection && past {
            out.push(b.clone());
        }
        i = i + 1;
    }
    proof {
        assert(m.collection_bids@.take(n as int) =~= m.collection_bids@);
    }
    let lim = page_limit_exec(limit);
    out.truncate(lim);
    CollectionBidsResponse { bids: out }
}

/// The expiry index's order on bids: by the deadline's whole seconds, ties
/// broken by primary key.
pub open spec fn bid_expiry_lt(a: Bid, b: Bid) -> bool {
    let sa = a.expires_at / NANOS_PER_SECOND;
    let sb = b.expires_at / NANOS_PER_SECOND;
    if sa != sb {
        sa < sb
    } else {
        key_lt(a.skey(), b.skey())
    }
}

fn bid_expiry_lt_exec(a: &Bid, b: &Bid) -> (r: bool)
    ensures
        r == bid_expiry_lt(*a, *b),
{
    let sa = a.expires_at / NANOS_PER_SECOND;
    let sb = b.expires_at / NANOS_PER_SECOND;
    if sa != sb {
        sa < sb
    } else {
        let ka = a.key_of();
        let kb = b.key_of();
        key_lt_exec(&ka, &kb)
    }
}

/// A bid placed at its position in the expiry order.
pub open spec fn insert_bid_by_expiry(s: Seq<Bid>, b: Bid) -> Seq<Bid>
    decreases s.len(),
{
    if s.len() == 0 {
        seq![b]
    } else if bid_expiry_lt(b, s[0]) {
        seq![b] + s
    } else {
        seq![s[0]] + insert_bid_by_expiry(s.skip(1), b)
    }
}

/// The bids rearranged into the expiry index's order.
pub open spec fn sort_bids_by_expiry(s: Seq<Bid>) -> Seq<Bid>
    decreases s.len(),
{
    if s.len() == 0 {
        s
    } else {
        insert_bid_by_expiry(sort_bids_by_expiry(s.drop_last()), s.last())
    }
}

proof fn lemma_insert_bid_at(s: Seq<Bid>, b: Bid, i: int)
    requires
        0 <= i <= s.len(),
        forall|j: int| 0 <= j < i ==> !bid_expiry_lt(b, #[trigger] s[j]),
        i < s.len() ==> bid_expiry_lt(b, s[i]),
    ensures
        insert_bid_by_expiry(s, b) == s.insert(i, b),
    decreases i,
{
    if i == 0 {
        assert(insert_bid_by_expiry(s, b) =~= s.insert(0, b));
    } else {
        lemma_insert_bid_at(s.skip(1), b, i - 1);
        assert(insert_bid_by_expiry(s, b) =~= s.insert(i, b));
    }
}

fn insert_bid_sorted_exec(out: &mut Vec<Bid>, b: Bid)
    ensures
        final(out)@ == insert_bid_by_expiry(old(out)@, b),
{
    let n = out.len();
    let mut i: usize = 0;
    while i < n
        invariant
            i <= n,
            n == out@.len(),
            out@ == old(out)@,
            forall|j: int| 0 <= j < i ==> !bid_expiry_lt(b, #[trigger] out@[j]),
        decreases n - i,
    {
        if bid_expiry_lt_exec(&b, &out[i]) {
            proof {
                lemma_insert_bid_at(out@, b, i as int);
            }
            out.insert(i, b);
            return;
        }
        i = i + 1;
    }
    proof {
        lemma_insert_bid_at(out@, b, n as int);
    }
    out.insert(n, b);
}

/// The stored bid an expiry-ordered scan starts after, resolved from its
/// (collection, token id) cursor; no cursor, or one naming no stored bid,
/// starts from the beginning.
pub open spec fn bid_expiry_cursor(
    m: Marketplace,
    bidder: Seq<char>,
    start: Option<CollectionOffset>,
) -> Option<Bid> {
    match start {
        Some(off) => m.spec_bid(off.collection@, off.token_id@, bidder),
        None => None,
    }
}

/// One bidder's bids past an expiry-ordered cursor.
pub open spec fn bids_by_expiry_scan(
    bids: Seq<Bid>,
    bidder: Seq<char>,
    cursor: Option<Bid>,
) -> Seq<Bid> {
    bids.filter(
        |b: Bid|
            b.bidder@ == bidder && match cursor {
                Some(rb) => bid_expiry_lt(rb, b),
                None => true,
            },
    )
}

/// The bids of a bidder in the expiry index's order — deadline seconds
/// first, primary key second — from an optional exclusive cursor.
pub fn query_bids_by_bidder_sorted_by_expiry(
    m: &Marketplace,
    bidder: String,
    start_after: Option<CollectionOffset>,
    limit: Option<u32>,
) -> (r: BidsResponse)
    ensures
        r.bids@ == page(
            sort_bids_by_expiry(
                bids_by_expiry_scan(
                    m.bids@,
                    bidder@,
                    bid_expiry_cursor(*m, bidder@, start_after),
                ),
            ),
            page_limit(limit),
        ),
{
    let cursor = match &start_after {
        Some(off) => {
            let kk = (off.collection.clone(), off.token_id.clone(), bidder.clone(), 0u64);
            match table_get(&m.bids, &kk) {
                Some(b) => Some(b.clone()),
                None => None,
            }
        },
        None => None,
    };
    let ghost gcursor = bid_expiry_cursor(*m, bidder@, start_after);
    proof {
        assert(cursor == gcursor);
    }
    let n = m.bids.len();
    let mut picked: Vec<Bid> = Vec::new();
    let mut i: usize = 0;
    proof {
        reveal(Seq::filter);
        assert(m.bids@.take(0) =~= Seq::<Bid>::empty());
    }
    while i < n
        invariant
            i <= n,
            n == m.bids@.len(),
            cursor == gcursor,
            gcursor == bid_expiry_cursor(*m, bidder@, start_after),
            picked@ == bids_by_expiry_scan(m.bids@.take(i as int), bidder@, gcursor),
        decreases n - i,
    {
        proof {
            reveal(Seq::filter);
            assert(m.bids@.take(i + 1).drop_last() =~= m.bids@.take(i as int));
            assert(m.bids@.take(i + 1).last() == m.bids@[i as int]);
        }
        let b = &m.bids[i];
        let past = match &cursor {
            Some(rb) => bid_expiry_lt_exec(rb, b),
            None => true,
        };
        if b.bidder == bidder && past {
            picked.push(b.clone());
        }
        i = i + 1;
    }
    proof {
        assert(m.bids@.take(n as int) =~= m.bids@);
    }
    let pn = picked.len();
    let mut out: Vec<Bid> = Vec::new();
    let mut j: usize = 0;
    proof {
        assert(picked@.take(0) =~= Seq::<Bid>::empty());
    }
    while j < pn
        invariant
            j <= pn,
            pn == picked@.len(),
            out@ == sort_bids_by_expiry(picked@.take(j as int)),
        decreases pn - j,
    {
        proof {
            assert(picked@.take(j + 1).drop_last() =~= picked@.take(j as int));
            assert(picked@.take(j + 1).last() == picked@[j as int]);
        }
        insert_bid_sorted_exec(&mut out, picked[j].clone());
        j = j + 1;
    }
    proof {
        assert(picked@.take(pn as int) =~= picked@);
    }
    let lim = page_limit_exec(limit);
    out.truncate(lim);
    BidsResponse { bids: out }
}

/// The expiry index's order on collection bids.
pub open spec fn cbid_expiry_lt(a: CollectionBid, b: CollectionBid) -> bool {
    let sa = a.expires_at / NANOS_PER_SECOND;
    let sb = b.expires_at / NANOS_PER_SECOND;
    if sa != sb {
        sa < sb
    } else {
        key_lt(a.skey(), b.skey())
    }
}

fn cbid_expiry_lt_exec(a: &CollectionBid, b: &CollectionBid) -> (r: bool)
    ensures
        r == cbid_expiry_lt(*a, *b),
{
    let sa = a.expires_at / NANOS_PER_SECOND;
    let sb = b.expires_at / NANOS_PER_SECOND;
    if sa != sb {
        sa < sb
    } else {
        let ka = a.key_of();
        let kb = b.key_of();
        key_lt_exec(&ka, &kb)
    }
}

/// A collection bid placed at its position in the expiry order.
pub open spec fn insert_cbid_by_expiry(s: Seq<CollectionBid>, b: CollectionBid) -> Seq<
    CollectionBid,
>
    decreases s.len(),
{
    if s.len() == 0 {
        seq![b]
    } else if cbid_expiry_lt(b, s[0]) {
        seq![b] + s
    } else {
        seq![s[0]] + insert_cbid_by_expiry(s.skip(1), b)
    }
}

/// The collection bids rearranged into the expiry index's order.
pub open spec fn sort_cbids_by_expiry(s: Seq<CollectionBid>) -> Seq<CollectionBid>
    decreases s.len(),
{
    if s.len() == 0 {
        s
    } else {
        insert_cbid_by_expiry(sort_cbids_by_expiry(s.drop_last()), s.last())
    }
}

proof fn lemma_insert_cbid_at(s: Seq<CollectionBid>, b: CollectionBid, i: int)
    requires
        0 <= i <= s.len(),
        forall|j: int| 0 <= j < i ==> !cbid_expiry_lt(b, #[trigger] s[j]),
        i < s.len() ==> cbid_expiry_lt(b, s[i]),
    ensures
        insert_cbid_by_expiry(s, b) == s.insert(i, b),
    decreases i,
{
    if i == 0 {
        assert(insert_cbid_by_expiry(s, b) =~= s.insert(0, b));
    } else {
        lemma_insert_cbid_at(s.skip(1), b, i - 1);
        assert(insert_cbid_by_expiry(s, b) =~= s.insert(i, b));
    }
}

fn insert_cbid_sorted_exec(out: &mut Vec<CollectionBid>, b: CollectionBid)
    ensures
        final(out)@ == insert_cbid_by_expiry(old(out)@, b),
{
    let n = out.len();
    let mut i: usize = 0;
    while i < n
        invariant
            i <= n,
            n == out@.len(),
            out@ == old(out)@,
            forall|j: int| 0 <= j < i ==> !cbid_expiry_lt(b, #[trigger] out@[j]),
        decreases n - i,
    {
        if cbid_expiry_lt_exec(&b, &out[i]) {
            proof {
                lemma_insert_cbid_at(out@, b, i as int);
            }
            out.insert(i, b);
            return;
        }
        i = i + 1;
    }
    proof {
        lemma_insert_cbid_at(out@, b, n as int);
    }
    out.insert(n, b);
}

/// The stored collection bid an expiry-ordered scan starts after, resolved
/// from its (collection, bidder) cursor.
pub open spec fn cbid_expiry_cursor(
    m: Marketplace,
    start: Option<CollectionBidOffset>,
) -> Option<CollectionBid> {
    match start {
        Some(off) => m.spec_collection_bid(off.collection@, off.bidder@),
        None => None,
    }
}

/// One bidder's collection bids past an expiry-ordered cursor.
pub open spec fn cbids_by_expiry_scan(
    bids: Seq<CollectionBid>,
    bidder: Seq<char>,
    cursor: Option<CollectionBid>,
) -> Seq<CollectionBid> {
    bids.filter(
        |b: CollectionBid|
            b.bidder@ == bidder && match cursor {
                Some(rb) => cbid_expiry_lt(rb, b),
                None => true,
            },
    )
}

/// The collection bids of a bidder in the expiry index's order, from an
/// optional exclusive cursor.
pub fn query_collection_bids_by_bidder_sorted_by_expiry(
    m: &Marketplace,
    bidder: String,
    start_after: Option<CollectionBidOffset>,
    limit: Option<u32>,
) -> (r: CollectionBidsResponse)
    ensures
        r.bids@ == page(
            sort_cbids_by_expiry(
                cbids_by_expiry_scan(
                    m.collection_bids@,
                    bidder@,
                    cbid_expiry_cursor(*m, start_after),
                ),
            ),
            page_limit(limit),
        ),
{
    let cursor = match &start_after {
        Some(off) => {
            let kk = (off.collection.clone(), off.bidder.clone(), String::new(), 0u64);
            match table_get(&m.collection_bids, &kk) {
                Some(b) => Some(b.clone()),
                None => None,
            }
        },
        None => None,
    };
    let ghost gcursor = cbid_expiry_cursor(*m, start_after);
    proof {
        assert(cursor == gcursor);
    }
    let n = m.collection_bids.len();
    let mut picked: Vec<CollectionBid> = Vec::new();
    let mut i: usize = 0;
    proof {
        reveal(Seq::filter);
        assert(m.collection_bids@.take(0) =~= Seq::<CollectionBid>::empty());
    }
    while i < n
        invariant
            i <= n,
            n == m.collection_bids@.len(),
            cursor == gcursor,
            gcursor == cbid_expiry_cursor(*m, start_after),
            picked@ == cbids_by_expiry_scan(m.collection_bids@.take(i as int), bidder@, gcursor),
        decreases n - i,
    {
        proof {
            reveal(Seq::filter);
            assert(m.collection_bids@.take(i + 1).drop_last() =~= m.collection_bids@.take(
                i as int,
            ));
            assert(m.collection_bids@.take(i + 1).last() == m.collection_bids@[i as int]);
        }
        let b = &m.collection_bids[i];
        let past = match &cursor {
            Some(rb) => cbid_expiry_lt_exec(rb, b),
            None => true,
        };
        if b.bidder == bidder && past {
            picked.push(b.clone());
        }
        i = i + 1;
    }
    proof {
        assert(m.collection_bids@.take(n as int) =~= m.collection_bids@);
    }
    let pn = picked.len();
    let mut out: Vec<CollectionBid> = Vec::new();
    let mut j: usize = 0;
    proof {
        assert(picked@.take(0) =~= Seq::<CollectionBid>::empty());
    }
    while j < pn
        invariant
            j <= pn,
            pn == picked@.len(),
            out@ == sort_cbids_by_expiry(picked@.take(j as int)),
        decreases pn - j,
    {
        proof {
            assert(picked@.take(j + 1).drop_last() =~= picked@.take(j as int));
            assert(picked@.take(j + 1).last() == picked@[j as int]);
        }
        insert_cbid_sorted_exec(&mut out, picked[j].clone());
        j = j + 1;
    }
    proof {
        assert(picked@.take(pn as int) =~= picked@);
    }
    let lim = page_limit_exec(limit);
    out.truncate(lim);
    CollectionBidsResponse { bids: out }
}

} // verus!
