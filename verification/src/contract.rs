//! The marketplace core: configuration, registries, the listing and offer
//! ledgers, the settlement engine, and the bookkeeping aggregates, held in
//! one value that every operation mutates atomically.
//!
//! Every operation either commits all of its effects and returns the
//! transfer instructions the caller must carry out, or returns an error and
//! leaves the whole state untouched.

use vstd::prelude::*;
use crate::decimal::{
    DECIMAL_FRACTIONAL, mul_floor, decimal_mul_floor, sum_payments, sum_portions,
    lemma_portion_le_sum, lemma_sum_payments_bound, lemma_sum_payments_nonneg,
    lemma_sum_payments_split, lemma_sum_payments_take, lemma_sum_portions_nonneg,
    lemma_sum_portions_split, lemma_sum_portions_take,
};
use crate::error::ContractError;
use crate::keys::{KeyModel, KeyTuple, key_model};
use crate::msg::{QueryOfferingsResult, TransferInstruction};
use crate::state::{
    Ask, Asset, Bid, CoinDenom, CollectionBid, CollectionInfo, CollectionMembers, NANOS_PER_SECOND,
    Order, SaleInfo, SaleType, State, TokenContract, TvlInfo, UserInfo,
};
use crate::table::{
    Keyed, sorted_by_key, spec_get, insert_sorted, remove_key, table_get, table_upsert,
    table_remove,
};

verus! {

/// Listings restored by migration expire this many seconds after the call.
pub const OFFERING_LIFETIME_SECONDS: u64 = 259200;

/// The initial per-item bid cap.
pub const DEFAULT_BID_LIMIT: u32 = 10;

/// The whole marketplace: the configuration singleton, the registries the
/// owner maintains, both offer ledgers, and the bookkeeping aggregates.
pub struct Marketplace {
    pub config: State,
    pub collection_infos: Vec<CollectionInfo>,
    pub members: Vec<CollectionMembers>,
    pub token_contracts: Vec<TokenContract>,
    pub coin_denoms: Vec<CoinDenom>,
    pub asks: Vec<Ask>,
    pub bids: Vec<Bid>,
    pub collection_bids: Vec<CollectionBid>,
    pub sale_history: Vec<SaleInfo>,
    pub tvl: Vec<TvlInfo>,
}

/// Key of a record addressed by one string.
pub open spec fn skey1(a: Seq<char>) -> KeyModel {
    (a, Seq::<char>::empty(), Seq::<char>::empty(), 0)
}

/// Key of a record addressed by two strings.
pub open spec fn skey2(a: Seq<char>, b: Seq<char>) -> KeyModel {
    (a, b, Seq::<char>::empty(), 0)
}

/// Key of a record addressed by three strings.
pub open spec fn skey3(a: Seq<char>, b: Seq<char>, c: Seq<char>) -> KeyModel {
    (a, b, c, 0)
}

/// Key of a record addressed by two strings and a time.
pub open spec fn skey_time(a: Seq<char>, b: Seq<char>, t: u64) -> KeyModel {
    (a, b, Seq::<char>::empty(), t)
}

fn exec_key1(a: &String) -> (k: KeyTuple)
    ensures
        key_model(k) == skey1(a@),
{
    (a.clone(), String::new(), String::new(), 0)
}

fn exec_key2(a: &String, b: &String) -> (k: KeyTuple)
    ensures
        key_model(k) == skey2(a@, b@),
{
    (a.clone(), b.clone(), String::new(), 0)
}

fn exec_key3(a: &String, b: &String, c: &String) -> (k: KeyTuple)
    ensures
        key_model(k) == skey3(a@, b@, c@),
{
    (a.clone(), b.clone(), c.clone(), 0)
}

impl Marketplace {
    /// Structural soundness: every record family strictly ascending by its
    /// key, every registered collection's royalty at most one, and every
    /// registered member list summing to exactly one.
    pub open spec fn wf(self) -> bool {
        &&& sorted_by_key(self.collection_infos@)
        &&& sorted_by_key(self.members@)
        &&& sorted_by_key(self.token_contracts@)
        &&& sorted_by_key(self.coin_denoms@)
        &&& sorted_by_key(self.asks@)
        &&& sorted_by_key(self.bids@)
        &&& sorted_by_key(self.collection_bids@)
        &&& sorted_by_key(self.sale_history@)
        &&& sorted_by_key(self.tvl@)
        &&& forall|i: int|
            0 <= i < self.collection_infos@.len()
                ==> (#[trigger] self.collection_infos@[i]).royalty_portion <= DECIMAL_FRACTIONAL
        &&& forall|i: int|
            0 <= i < self.members@.len() ==> sum_portions(
                (#[trigger] self.members@[i]).members@,
            ) == DECIMAL_FRACTIONAL
    }

    /// The registered configuration of a collection, if any.
    pub open spec fn spec_collection_info(self, c: Seq<char>) -> Option<CollectionInfo> {
        spec_get(self.collection_infos@, skey1(c))
    }

    /// The registered royalty members of a collection, if any.
    pub open spec fn spec_members(self, c: Seq<char>) -> Option<CollectionMembers> {
        spec_get(self.members@, skey1(c))
    }

    /// The registration of a token contract, if any.
    pub open spec fn spec_token_contract(self, addr: Seq<char>) -> Option<TokenContract> {
        spec_get(self.token_contracts@, skey1(addr))
    }

    /// The registration of a native denomination, if any.
    pub open spec fn spec_coin(self, denom: Seq<char>) -> Option<CoinDenom> {
        spec_get(self.coin_denoms@, skey1(denom))
    }

    /// The ask stored for an item, if any.
    pub open spec fn spec_ask(self, c: Seq<char>, t: Seq<char>) -> Option<Ask> {
        spec_get(self.asks@, skey2(c, t))
    }

    /// The bid stored for an item and bidder, if any.
    pub open spec fn spec_bid(self, c: Seq<char>, t: Seq<char>, b: Seq<char>) -> Option<Bid> {
        spec_get(self.bids@, skey3(c, t, b))
    }

    /// The standing collection bid of a bidder, if any.
    pub open spec fn spec_collection_bid(self, c: Seq<char>, b: Seq<char>) -> Option<
        CollectionBid,
    > {
        spec_get(self.collection_bids@, skey2(c, b))
    }

    /// The locked-value aggregate of a collection and denomination, if any.
    pub open spec fn spec_tvl(self, c: Seq<char>, d: Seq<char>) -> Option<TvlInfo> {
        spec_get(self.tvl@, skey2(c, d))
    }

    /// The settled volume of a collection and denomination; zero if no
    /// aggregate is stored yet.
    pub open spec fn spec_tvl_amount(self, c: Seq<char>, d: Seq<char>) -> int {
        match self.spec_tvl(c, d) {
            Some(t) => t.amount as int,
            None => 0,
        }
    }
}

/// The configuration singleton is the same in both states.
pub open spec fn config_unchanged(pre: Marketplace, post: Marketplace) -> bool {
    post.config == pre.config
}

/// The owner-maintained registries are the same in both states.
pub open spec fn registries_unchanged(pre: Marketplace, post: Marketplace) -> bool {
    &&& post.collection_infos@ == pre.collection_infos@
    &&& post.members@ == pre.members@
    &&& post.token_contracts@ == pre.token_contracts@
    &&& post.coin_denoms@ == pre.coin_denoms@
}

/// The ask, bid and collection-bid ledgers are the same in both states.
pub open spec fn ledgers_unchanged(pre: Marketplace, post: Marketplace) -> bool {
    &&& post.asks@ == pre.asks@
    &&& post.bids@ == pre.bids@
    &&& post.collection_bids@ == pre.collection_bids@
}

/// Sale history and locked-value aggregates are the same in both states.
pub open spec fn books_unchanged(pre: Marketplace, post: Marketplace) -> bool {
    &&& post.sale_history@ == pre.sale_history@
    &&& post.tvl@ == pre.tvl@
}

/// Nothing observable differs between the two states.
pub open spec fn state_unchanged(pre: Marketplace, post: Marketplace) -> bool {
    &&& config_unchanged(pre, post)
    &&& registries_unchanged(pre, post)
    &&& ledgers_unchanged(pre, post)
    &&& books_unchanged(pre, post)
}

/// Sets the marketplace up with its owner and admin and an empty store.
pub fn instantiate(owner: String, admin: String) -> (m: Marketplace)
    ensures
        m.wf(),
        m.config == (State { owner, bid_limit: DEFAULT_BID_LIMIT, admin }),
        m.collection_infos@ == Seq::<CollectionInfo>::empty(),
        m.members@ == Seq::<CollectionMembers>::empty(),
        m.token_contracts@ == Seq::<TokenContract>::empty(),
        m.coin_denoms@ == Seq::<CoinDenom>::empty(),
        m.asks@ == Seq::<Ask>::empty(),
        m.bids@ == Seq::<Bid>::empty(),
        m.collection_bids@ == Seq::<CollectionBid>::empty(),
        m.sale_history@ == Seq::<SaleInfo>::empty(),
        m.tvl@ == Seq::<TvlInfo>::empty(),
{
    Marketplace {
        config: State { owner, bid_limit: DEFAULT_BID_LIMIT, admin },
        collection_infos: Vec::new(),
        members: Vec::new(),
        token_contracts: Vec::new(),
        coin_denoms: Vec::new(),
        asks: Vec::new(),
        bids: Vec::new(),
        collection_bids: Vec::new(),
        sale_history: Vec::new(),
        tvl: Vec::new(),
    }
}

/// Rejects any payment attached to a call that accepts none.
pub fn nonpayable(funds: &Vec<Asset>) -> (r: Result<(), ContractError>)
    ensures
        r is Ok <==> funds@.len() == 0,
        r is Err ==> r == Err::<(), ContractError>(ContractError::TooMuchFunds),
{
    if funds.is_empty() {
        Ok(())
    } else {
        Err(ContractError::TooMuchFunds)
    }
}

/// Registers (or re-registers) the denomination a token contract pays in.
/// Owner only.
pub fn execute_token_address(
    m: &mut Marketplace,
    sender: &String,
    symbol: String,
    address: String,
) -> (r: Result<(), ContractError>)
    requires
        old(m).wf(),
    ensures
        final(m).wf(),
        r == owner_only_result(*old(m), sender@),
        r is Ok ==> final(m).token_contracts@ == insert_sorted(
            old(m).token_contracts@,
            TokenContract { address, denom: symbol },
        ),
        r is Ok ==> config_unchanged(*old(m), *final(m)) && ledgers_unchanged(*old(m), *final(m))
            && books_unchanged(*old(m), *final(m)) && final(m).collection_infos@ == old(m).collection_infos@ && final(m).members@ == old(m).members@ && final(m).coin_denoms@ == old(m).coin_denoms@,
        r is Err ==> state_unchanged(*old(m), *final(m)),
{
    if !(*sender == m.config.owner) {
        return Err(ContractError::Unauthorized);
    }
    table_upsert(&mut m.token_contracts, TokenContract { address, denom: symbol });
    Ok(())
}

/// Registers a native denomination. Owner only.
pub fn execute_add_coin(m: &mut Marketplace, sender: &String, symbol: String) -> (r: Result<
    (),
    ContractError,
>)
    requires
        old(m).wf(),
    ensures
        final(m).wf(),
        r == owner_only_result(*old(m), sender@),
        r is Ok ==> final(m).coin_denoms@ == insert_sorted(
            old(m).coin_denoms@,
            CoinDenom { denom: symbol, enabled: true },
        ),
        r is Ok ==> config_unchanged(*old(m), *final(m)) && ledgers_unchanged(*old(m), *final(m))
            && books_unchanged(*old(m), *final(m)) && final(m).collection_infos@ == old(m).collection_infos@ && final(m).members@ == old(m).members@ && final(m).token_contracts@
            == old(m).token_contracts@,
        r is Err ==> state_unchanged(*old(m), *final(m)),
{
    if !(*sender == m.config.owner) {
        return Err(ContractError::Unauthorized);
    }
    table_upsert(&mut m.coin_denoms, CoinDenom { denom: symbol, enabled: true });
    Ok(())
}

/// What rotating the owner or admin role decides: only the admin may.
pub open spec fn admin_only_result(m: Marketplace, sender: Seq<char>) -> Result<
    (),
    ContractError,
> {
    if sender != m.config.admin@ {
        Err(ContractError::Unauthorized)
    } else {
        Ok(())
    }
}

/// Hands the owner role to another address. Admin only.
pub fn execute_change_owner(m: &mut Marketplace, sender: &String, address: String) -> (r: Result<
    (),
    ContractError,
>)
    requires
        old(m).wf(),
    ensures
        final(m).wf(),
        r == admin_only_result(*old(m), sender@),
        r is Ok ==> final(m).config == (State {
            owner: address,
            bid_limit: old(m).config.bid_limit,
            admin: old(m).config.admin,
        }),
        r is Ok ==> registries_unchanged(*old(m), *final(m)) && ledgers_unchanged(
            *old(m),
            *final(m),
        ) && books_unchanged(*old(m), *final(m)),
        r is Err ==> state_unchanged(*old(m), *final(m)),
{
    if !(*sender == m.config.admin) {
        return Err(ContractError::Unauthorized);
    }
    m.config.owner = address;
    Ok(())
}

/// Hands the admin role to another address. Admin only.
pub fn execute_change_admin(m: &mut Marketplace, sender: &String, address: String) -> (r: Result<
    (),
    ContractError,
>)
    requires
        old(m).wf(),
    ensures
        final(m).wf(),
        r == admin_only_result(*old(m), sender@),
        r is Ok ==> final(m).config == (State {
            owner: old(m).config.owner,
            bid_limit: old(m).config.bid_limit,
            admin: address,
        }),
        r is Ok ==> registries_unchanged(*old(m), *final(m)) && ledgers_unchanged(
            *old(m),
            *final(m),
        ) && books_unchanged(*old(m), *final(m)),
        r is Err ==> state_unchanged(*old(m), *final(m)),
{
    if !(*sender == m.config.admin) {
        return Err(ContractError::Unauthorized);
    }
    m.config.admin = address;
    Ok(())
}

/// Sets the per-item cap on open bids. Owner only.
pub fn execute_bid_limit(m: &mut Marketplace, sender: &String, bid_limit: u32) -> (r: Result<
    (),
    ContractError,
>)
    requires
        old(m).wf(),
    ensures
        final(m).wf(),
        r == owner_only_result(*old(m), sender@),
        r is Ok ==> final(m).config == (State {
            owner: old(m).config.owner,
            bid_limit,
            admin: old(m).config.admin,
        }),
        r is Ok ==> registries_unchanged(*old(m), *final(m)) && ledgers_unchanged(
            *old(m),
            *final(m),
        ) && books_unchanged(*old(m), *final(m)),
        r is Err ==> state_unchanged(*old(m), *final(m)),
{
    if !(*sender == m.config.owner) {
        return Err(ContractError::Unauthorized);
    }
    m.config.bid_limit = bid_limit;
    Ok(())
}

/// Sums the members' shares; `None` when the sum does not fit the machine
/// word, in which case it certainly is not one.
fn sum_portions_exec(members: &Vec<UserInfo>) -> (r: Option<u128>)
    ensures
        match r {
            Some(v) => v == sum_portions(members@),
            None => sum_portions(members@) > u128::MAX,
        },
{
    let n = members.len();
    let mut acc: u128 = 0;
    let mut i: usize = 0;
    while i < n
        invariant
            i <= n,
            n == members@.len(),
            acc == sum_portions(members@.take(i as int)),
        decreases n - i,
    {
        let p = members[i].portion;
        proof {
            lemma_sum_portions_take(members@, i as int);
        }
        if acc > u128::MAX - p {
            proof {
                lemma_sum_portions_split(members@, i + 1);
                lemma_sum_portions_nonneg(members@.skip(i + 1));
            }
            return None;
        }
        acc = acc + p;
        i = i + 1;
    }
    proof {
        assert(members@.take(n as int) =~= members@);
    }
    Some(acc)
}

/// Registering a collection keeps the registry invariants: the new royalty
/// is within bounds and the new member list sums to one, and every other
/// record was already there.
proof fn lemma_registry_invariants_after(
    pre_infos: Seq<CollectionInfo>,
    pre_members: Seq<CollectionMembers>,
    ci: CollectionInfo,
    cm: CollectionMembers,
)
    requires
        ci.royalty_portion <= DECIMAL_FRACTIONAL,
        sum_portions(cm.members@) == DECIMAL_FRACTIONAL,
        forall|i: int|
            0 <= i < pre_infos.len() ==> (#[trigger] pre_infos[i]).royalty_portion
                <= DECIMAL_FRACTIONAL,
        forall|i: int|
            0 <= i < pre_members.len() ==> sum_portions((#[trigger] pre_members[i]).members@)
                == DECIMAL_FRACTIONAL,
    ensures
        forall|i: int|
            0 <= i < insert_sorted(pre_infos, ci).len() ==> (#[trigger] insert_sorted(
                pre_infos,
                ci,
            )[i]).royalty_portion <= DECIMAL_FRACTIONAL,
        forall|i: int|
            0 <= i < insert_sorted(pre_members, cm).len() ==> sum_portions(
                (#[trigger] insert_sorted(pre_members, cm)[i]).members@,
            ) == DECIMAL_FRACTIONAL,
{
    crate::table::lemma_insert_sorted_elems(pre_infos, ci);
    crate::table::lemma_insert_sorted_elems(pre_members, cm);
    let ri = insert_sorted(pre_infos, ci);
    assert forall|i: int| 0 <= i < ri.len() implies (#[trigger] ri[i]).royalty_portion
        <= DECIMAL_FRACTIONAL by {
        if ri[i] != ci {
            let mi = choose|mi: int| 0 <= mi < pre_infos.len() && ri[i] == pre_infos[mi];
            assert(pre_infos[mi].royalty_portion <= DECIMAL_FRACTIONAL);
        }
    }
    let rm = insert_sorted(pre_members, cm);
    assert forall|i: int| 0 <= i < rm.len() implies sum_portions((#[trigger] rm[i]).members@)
        == DECIMAL_FRACTIONAL by {
        if rm[i] != cm {
            let mi = choose|mi: int| 0 <= mi < pre_members.len() && rm[i] == pre_members[mi];
            assert(sum_portions(pre_members[mi].members@) == DECIMAL_FRACTIONAL);
        }
    }
}

/// What registering a collection decides: the caller must be the owner, the
/// collection must be new, the royalty must not exceed one, and the member
/// shares must sum to exactly one.
pub open spec fn add_collection_result(
    m: Marketplace,
    sender: Seq<char>,
    royalty_portion: u128,
    members: Seq<UserInfo>,
    nft_address: Seq<char>,
) -> Result<(), ContractError> {
    if sender != m.config.owner@ {
        Err(ContractError::Unauthorized)
    } else if m.spec_collection_info(nft_address) is Some {
        Err(ContractError::UnknownCollection)
    } else if royalty_portion > DECIMAL_FRACTIONAL {
        Err(ContractError::WrongConfig)
    } else if sum_portions(members) != DECIMAL_FRACTIONAL {
        Err(ContractError::WrongPortionError)
    } else {
        Ok(())
    }
}

/// Registers a collection with its royalty portion and members. Owner only.
pub fn execute_add_collection(
    m: &mut Marketplace,
    sender: &String,
    royalty_portion: u128,
    members: Vec<UserInfo>,
    nft_address: String,
) -> (r: Result<(), ContractError>)
    requires
        old(m).wf(),
    ensures
        final(m).wf(),
        r == add_collection_result(*old(m), sender@, royalty_portion, members@, nft_address@),
        r is Ok ==> final(m).collection_infos@ == insert_sorted(
            old(m).collection_infos@,
            CollectionInfo { nft_address, royalty_portion },
        ),
        r is Ok ==> final(m).members@ == insert_sorted(
            old(m).members@,
            CollectionMembers { collection: nft_address, members },
        ),
        r is Ok ==> config_unchanged(*old(m), *final(m)) && ledgers_unchanged(*old(m), *final(m))
            && books_unchanged(*old(m), *final(m)) && final(m).token_contracts@ == old(m).token_contracts@ && final(m).coin_denoms@ == old(m).coin_denoms@,
        r is Err ==> state_unchanged(*old(m), *final(m)),
{
    if !(*sender == m.config.owner) {
        return Err(ContractError::Unauthorized);
    }
    let k = exec_key1(&nft_address);
    if table_get(&m.collection_infos, &k).is_some() {
        return Err(ContractError::UnknownCollection);
    }
    if royalty_portion > DECIMAL_FRACTIONAL {
        return Err(ContractError::WrongConfig);
    }
    match sum_portions_exec(&members) {
        Some(s) => {
            if s != DECIMAL_FRACTIONAL {
                return Err(ContractError::WrongPortionError);
            }
        },
        None => {
            return Err(ContractError::WrongPortionError);
        },
    }
    let ghost pre_infos = m.collection_infos@;
    let ghost pre_members = m.members@;
    let cm = CollectionMembers { collection: nft_address.clone(), members };
    let ghost gcm = cm;
    table_upsert(&mut m.members, cm);
    let ci = CollectionInfo { nft_address, royalty_portion };
    let ghost gci = ci;
    table_upsert(&mut m.collection_infos, ci);
    proof {
        lemma_registry_invariants_after(pre_infos, pre_members, gci, gcm);
    }
    Ok(())
}

/// What updating a collection decides: as for registration, except that the
/// collection must already exist.
pub open spec fn update_collection_result(
    m: Marketplace,
    sender: Seq<char>,
    royalty_portion: u128,
    members: Seq<UserInfo>,
    nft_address: Seq<char>,
) -> Result<(), ContractError> {
    if sender != m.config.owner@ {
        Err(ContractError::Unauthorized)
    } else if m.spec_collection_info(nft_address) is None {
        Err(ContractError::UnknownCollection)
    } else if royalty_portion > DECIMAL_FRACTIONAL {
        Err(ContractError::WrongConfig)
    } else if sum_portions(members) != DECIMAL_FRACTIONAL {
        Err(ContractError::WrongPortionError)
    } else {
        Ok(())
    }
}

/// Replaces a registered collection's royalty portion and members. Owner
/// only.
pub fn execute_update_collection(
    m: &mut Marketplace,
    sender: &String,
    royalty_portion: u128,
    members: Vec<UserInfo>,
    nft_address: String,
) -> (r: Result<(), ContractError>)
    requires
        old(m).wf(),
    ensures
        final(m).wf(),
        r == update_collection_result(*old(m), sender@, royalty_portion, members@, nft_address@),
        r is Ok ==> final(m).collection_infos@ == insert_sorted(
            old(m).collection_infos@,
            CollectionInfo { nft_address, royalty_portion },
        ),
        r is Ok ==> final(m).members@ == insert_sorted(
            old(m).members@,
            CollectionMembers { collection: nft_address, members },
        ),
        r is Ok ==> config_unchanged(*old(m), *final(m)) && ledgers_unchanged(*old(m), *final(m))
            && books_unchanged(*old(m), *final(m)) && final(m).token_contracts@ == old(m).token_contracts@ && final(m).coin_denoms@ == old(m).coin_denoms@,
        r is Err ==> state_unchanged(*old(m), *final(m)),
{
    if !(*sender == m.config.owner) {
        return Err(ContractError::Unauthorized);
    }
    let k = exec_key1(&nft_address);
    if table_get(&m.collection_infos, &k).is_none() {
        return Err(ContractError::UnknownCollection);
    }
    if royalty_portion > DECIMAL_FRACTIONAL {
        return Err(ContractError::WrongConfig);
    }
    match sum_portions_exec(&members) {
        Some(s) => {
            if s != DECIMAL_FRACTIONAL {
                return Err(ContractError::WrongPortionError);
            }
        },
        None => {
            return Err(ContractError::WrongPortionError);
        },
    }
    let ghost pre_infos = m.collection_infos@;
    let ghost pre_members = m.members@;
    let cm = CollectionMembers { collection: nft_address.clone(), members };
    let ghost gcm = cm;
    table_upsert(&mut m.members, cm);
    let ci = CollectionInfo { nft_address, royalty_portion };
    let ghost gci = ci;
    table_upsert(&mut m.collection_infos, ci);
    proof {
        lemma_registry_invariants_after(pre_infos, pre_members, gci, gcm);
    }
    Ok(())
}

/// Recovers one NFT held by the marketplace to the owner. Owner only; pure
/// instruction emission, no state change.
pub fn execute_fix_nft(m: &Marketplace, sender: &String, address: String, token_id: String) -> (r:
    Result<Vec<TransferInstruction>, ContractError>)
    ensures
        sender@ != m.config.owner@ <==> r == Err::<Vec<TransferInstruction>, ContractError>(
            ContractError::Unauthorized,
        ),
        sender@ == m.config.owner@ ==> r is Ok,
        r matches Ok(instrs) ==> instrs@ == seq![
            TransferInstruction::Nft { contract: address, to: *sender, token_id },
        ],
{
    if !(*sender == m.config.owner) {
        return Err(ContractError::Unauthorized);
    }
    let mut instrs: Vec<TransferInstruction> = Vec::new();
    instrs.push(
        TransferInstruction::Nft { contract: address, to: sender.clone(), token_id },
    );
    Ok(instrs)
}

/// Moves a batch of NFTs held by the marketplace to a destination. Owner
/// only; pure instruction emission, no state change.
pub fn execute_migrate(
    m: &Marketplace,
    sender: &String,
    address: String,
    dest: String,
    token_id: Vec<String>,
) -> (r: Result<Vec<TransferInstruction>, ContractError>)
    ensures
        sender@ != m.config.owner@ <==> r == Err::<Vec<TransferInstruction>, ContractError>(
            ContractError::Unauthorized,
        ),
        sender@ == m.config.owner@ ==> r is Ok,
        r matches Ok(instrs) ==> instrs@.len() == token_id@.len() && forall|i: int|
            0 <= i < instrs@.len() ==> instrs@[i] == (TransferInstruction::Nft {
                contract: address,
                to: dest,
                token_id: token_id@[i],
            }),
{
    if !(*sender == m.config.owner) {
        return Err(ContractError::Unauthorized);
    }
    let mut instrs: Vec<TransferInstruction> = Vec::new();
    let n = token_id.len();
    let mut i: usize = 0;
    while i < n
        invariant
            i <= n,
            n == token_id@.len(),
            instrs@.len() == i,
            forall|j: int|
                0 <= j < i ==> instrs@[j] == (TransferInstruction::Nft {
                    contract: address,
                    to: dest,
                    token_id: token_id@[j],
                }),
        decreases n - i,
    {
        instrs.push(
            TransferInstruction::Nft {
                contract: address.clone(),
                to: dest.clone(),
                token_id: token_id[i].clone(),
            },
        );
        i = i + 1;
    }
    Ok(instrs)
}

/// Sweeps accumulated balances to the owner: a token transfer when a token
/// amount is named, a native send when a coin amount is named. Owner only;
/// pure instruction emission, no state change.
pub fn execute_withdraw_coin(
    m: &Marketplace,
    sender: &String,
    token_amount: u128,
    coin_amount: u128,
    token_address: String,
    coin_denom: String,
) -> (r: Result<Vec<TransferInstruction>, ContractError>)
    ensures
        sender@ != m.config.owner@ <==> r == Err::<Vec<TransferInstruction>, ContractError>(
            ContractError::Unauthorized,
        ),
        sender@ == m.config.owner@ ==> r is Ok,
        r matches Ok(instrs) ==> {
            let token_part: Seq<TransferInstruction> = if token_amount > 0 {
                seq![
                    TransferInstruction::Token {
                        contract: token_address,
                        to: m.config.owner,
                        amount: token_amount,
                    },
                ]
            } else {
                Seq::empty()
            };
            let coin_part: Seq<TransferInstruction> = if coin_amount > 0 {
                seq![
                    TransferInstruction::Native {
                        to: m.config.owner,
                        denom: coin_denom,
                        amount: coin_amount,
                    },
                ]
            } else {
                Seq::empty()
            };
            instrs@ == token_part + coin_part
        },
{
    if !(*sender == m.config.owner) {
        return Err(ContractError::Unauthorized);
    }
    let mut instrs: Vec<TransferInstruction> = Vec::new();
    if token_amount > 0 {
        instrs.push(
            TransferInstruction::Token {
                contract: token_address,
                to: m.config.owner.clone(),
                amount: token_amount,
            },
        );
    }
    if coin_amount > 0 {
        instrs.push(
            TransferInstruction::Native {
                to: m.config.owner.clone(),
                denom: coin_denom,
                amount: coin_amount,
            },
        );
    }
    proof {
        assert(instrs@ =~= {
            let token_part: Seq<TransferInstruction> = if token_amount > 0 {
                seq![
                    TransferInstruction::Token {
                        contract: token_address,
                        to: m.config.owner,
                        amount: token_amount,
                    },
                ]
            } else {
                Seq::empty()
            };
            let coin_part: Seq<TransferInstruction> = if coin_amount > 0 {
                seq![
                    TransferInstruction::Native {
                        to: m.config.owner,
                        denom: coin_denom,
                        amount: coin_amount,
                    },
                ]
            } else {
                Seq::empty()
            };
            token_part + coin_part
        });
    }
    Ok(instrs)
}

/// Whether a bid targets the given item.
pub open spec fn bid_on_item(b: Bid, c: Seq<char>, t: Seq<char>) -> bool {
    b.collection@ == c && b.token_id@ == t
}

/// The refund a removed bid is owed: its full amount, by the same channel
/// it was funded through.
pub open spec fn refund_instruction(b: Bid) -> TransferInstruction {
    match b.token_address {
        Some(ta) => TransferInstruction::Token {
            contract: ta,
            to: b.bidder,
            amount: b.list_price.amount,
        },
        None => TransferInstruction::Native {
            to: b.bidder,
            denom: b.list_price.denom,
            amount: b.list_price.amount,
        },
    }
}

/// The bid ledger after every bid on the item is removed.
pub open spec fn swept_bids(bids: Seq<Bid>, c: Seq<char>, t: Seq<char>) -> Seq<Bid> {
    bids.filter(|b: Bid| !bid_on_item(b, c, t))
}

/// The bids on the item owed a refund when the item settles: all of them,
/// except one accepted bidder's own bid where one is named.
pub open spec fn refunded_bids(
    bids: Seq<Bid>,
    c: Seq<char>,
    t: Seq<char>,
    except: Option<Seq<char>>,
) -> Seq<Bid> {
    bids.filter(
        |b: Bid|
            bid_on_item(b, c, t) && match except {
                Some(e) => b.bidder@ != e,
                None => true,
            },
    )
}

/// One refund instruction per bid, in the bids' order.
pub open spec fn refunds_for(bids: Seq<Bid>) -> Seq<TransferInstruction> {
    bids.map_values(|b: Bid| refund_instruction(b))
}

pub open spec fn opt_str_view(o: Option<&String>) -> Option<Seq<char>> {
    match o {
        Some(s) => Some(s@),
        None => None,
    }
}

fn refund_instruction_exec(b: &Bid) -> (r: TransferInstruction)
    ensures
        r == refund_instruction(*b),
{
    match &b.token_address {
        Some(ta) => TransferInstruction::Token {
            contract: ta.clone(),
            to: b.bidder.clone(),
            amount: b.list_price.amount,
        },
        None => TransferInstruction::Native {
            to: b.bidder.clone(),
            denom: b.list_price.denom.clone(),
            amount: b.list_price.amount,
        },
    }
}

/// Sweeping keeps the ledger's order, and keeps only records that were
/// already stored.
proof fn lemma_sorted_swept(s: Seq<Bid>, c: Seq<char>, t: Seq<char>)
    requires
        sorted_by_key(s),
    ensures
        sorted_by_key(swept_bids(s, c, t)),
        forall|j: int| 0 <= j < swept_bids(s, c, t).len() ==> exists|i: int|
            0 <= i < s.len() && #[trigger] swept_bids(s, c, t)[j] == s[i],
    decreases s.len(),
{
    reveal(Seq::filter);
    let r = swept_bids(s, c, t);
    if s.len() > 0 {
        let pre = s.drop_last();
        assert(sorted_by_key(pre)) by {
            assert forall|i: int, j: int| 0 <= i < j < pre.len() implies crate::keys::key_lt(
                #[trigger] pre[i].skey(),
                #[trigger] pre[j].skey(),
            ) by {
                assert(pre[i] == s[i] && pre[j] == s[j]);
            }
        }
        lemma_sorted_swept(pre, c, t);
        let sub = swept_bids(pre, c, t);
        if !bid_on_item(s.last(), c, t) {
            assert(r == sub.push(s.last()));
            assert forall|j: int| 0 <= j < r.len() implies exists|i: int|
                0 <= i < s.len() && #[trigger] r[j] == s[i] by {
                if j < sub.len() {
                    assert(r[j] == sub[j]);
                    let i = choose|i: int| 0 <= i < pre.len() && sub[j] == pre[i];
                    assert(r[j] == s[i]);
                } else {
                    assert(r[j] == s[s.len() - 1]);
                }
            }
            assert forall|i: int, j: int| 0 <= i < j < r.len() implies crate::keys::key_lt(
                #[trigger] r[i].skey(),
                #[trigger] r[j].skey(),
            ) by {
                if j < sub.len() {
                    assert(r[i] == sub[i] && r[j] == sub[j]);
                } else {
                    assert(r[i] == sub[i]);
                    let i2 = choose|i2: int| 0 <= i2 < pre.len() && sub[i] == pre[i2];
                    assert(r[j] == s[s.len() - 1]);
                    assert(crate::keys::key_lt(s[i2].skey(), s[s.len() - 1].skey()));
                }
            }
        } else {
            assert(r == sub);
            assert forall|j: int| 0 <= j < r.len() implies exists|i: int|
                0 <= i < s.len() && #[trigger] r[j] == s[i] by {
                let i = choose|i: int| 0 <= i < pre.len() && sub[j] == pre[i];
                assert(r[j] == s[i]);
            }
        }
    }
}

/// Removes every bid on the item, and collects one refund instruction per
/// removed bid — in ascending bidder order, the ledger's own order — except
/// for the one accepted bidder where one is named.
fn sweep_item_bids(
    bids: &mut Vec<Bid>,
    collection: &String,
    token_id: &String,
    except: Option<&String>,
) -> (refunds: Vec<TransferInstruction>)
    requires
        sorted_by_key(old(bids)@),
    ensures
        final(bids)@ == swept_bids(old(bids)@, collection@, token_id@),
        sorted_by_key(final(bids)@),
        refunds@ == refunds_for(
            refunded_bids(old(bids)@, collection@, token_id@, opt_str_view(except)),
        ),
{
    let ghost orig = bids@;
    let ghost c = collection@;
    let ghost t = token_id@;
    let ghost ex = opt_str_view(except);
    let n = bids.len();
    let mut kept: Vec<Bid> = Vec::new();
    let mut refunds: Vec<TransferInstruction> = Vec::new();
    let mut i: usize = 0;
    proof {
        reveal(Seq::filter);
        assert(orig.take(0) =~= Seq::<Bid>::empty());
        assert(kept@ =~= swept_bids(orig.take(0), c, t));
        assert(refunds@ =~= refunds_for(refunded_bids(orig.take(0), c, t, ex)));
    }
    while i < n
        invariant
            i <= n,
            n == bids@.len(),
            bids@ == orig,
            sorted_by_key(orig),
            c == collection@,
            t == token_id@,
            ex == opt_str_view(except),
            kept@ == swept_bids(orig.take(i as int), c, t),
            refunds@ == refunds_for(refunded_bids(orig.take(i as int), c, t, ex)),
        decreases n - i,
    {
        proof {
            reveal(Seq::filter);
            assert(orig.take(i + 1).drop_last() =~= orig.take(i as int));
            assert(orig.take(i + 1).last() == orig[i as int]);
        }
        let on_item = bids[i].collection == *collection && bids[i].token_id == *token_id;
        if on_item {
            let refundable = match except {
                Some(e) => !(bids[i].bidder == *e),
                None => true,
            };
            if refundable {
                let instr = refund_instruction_exec(&bids[i]);
                refunds.push(instr);
                proof {
                    assert(refunds@ =~= refunds_for(refunded_bids(orig.take(i + 1), c, t, ex)));
                }
            }
        } else {
            let kb = bids[i].clone();
            kept.push(kb);
        }
        i = i + 1;
    }
    proof {
        assert(orig.take(n as int) =~= orig);
        lemma_sorted_swept(orig, c, t);
    }
    *bids = kept;
    refunds
}

/// Maps a result's success case to the unit decision it realises.
pub open spec fn outcome<T>(r: Result<T, ContractError>) -> Result<(), ContractError> {
    match r {
        Ok(_) => Ok(()),
        Err(e) => Err(e),
    }
}

/// What listing an NFT decides: the collection must be registered; a
/// coin-priced listing needs a registered, enabled native denomination and a
/// token-priced one a token contract registered under the same denomination;
/// and the deadline must still be ahead.
pub open spec fn receive_nft_result(
    m: Marketplace,
    nft_address: Seq<char>,
    denom: Seq<char>,
    token_address: Option<Seq<char>>,
    expire: u64,
    now: u64,
) -> Result<(), ContractError> {
    if m.spec_collection_info(nft_address) is None {
        Err(ContractError::UnknownCollection)
    } else {
        match token_address {
            None => match m.spec_coin(denom) {
                Some(cd) => if !cd.enabled {
                    Err(ContractError::UnknownDenom)
                } else if expire <= now {
                    Err(ContractError::AskExpired)
                } else {
                    Ok(())
                },
                None => Err(ContractError::UnknownDenom),
            },
            Some(ta) => match m.spec_token_contract(ta) {
                Some(tc) => if tc.denom@ != denom {
                    Err(ContractError::TokenDenomMismatch)
                } else if expire <= now {
                    Err(ContractError::AskExpired)
                } else {
                    Ok(())
                },
                None => Err(ContractError::TokenDenomMismatch),
            },
        }
    }
}

pub open spec fn opt_string_view(o: Option<String>) -> Option<Seq<char>> {
    match o {
        Some(s) => Some(s@),
        None => None,
    }
}

/// Lists an NFT for sale: upserts the ask at (collection, token id),
/// replacing any prior listing of the item. The caller is the collection's
/// NFT contract handing the token over; the seller is the depositor.
pub fn execute_receive_nft(
    m: &mut Marketplace,
    nft_address: String,
    seller: String,
    token_id: String,
    list_price: Asset,
    expire: u64,
    token_address: Option<String>,
    now: u64,
) -> (r: Result<(), ContractError>)
    requires
        old(m).wf(),
    ensures
        final(m).wf(),
        r == receive_nft_result(
            *old(m),
            nft_address@,
            list_price.denom@,
            opt_string_view(token_address),
            expire,
            now,
        ),
        r is Ok ==> final(m).asks@ == insert_sorted(
            old(m).asks@,
            Ask { token_id, seller, list_price, expires_at: expire, collection: nft_address },
        ),
        r is Ok ==> config_unchanged(*old(m), *final(m)) && registries_unchanged(
            *old(m),
            *final(m),
        ) && books_unchanged(*old(m), *final(m)) && final(m).bids@ == old(m).bids@ && final(m).collection_bids@ == old(m).collection_bids@,
        r is Err ==> state_unchanged(*old(m), *final(m)),
{
    let ck = exec_key1(&nft_address);
    if table_get(&m.collection_infos, &ck).is_none() {
        return Err(ContractError::UnknownCollection);
    }
    match &token_address {
        None => {
            let dk = exec_key1(&list_price.denom);
            match table_get(&m.coin_denoms, &dk) {
                Some(cd) => {
                    if !cd.enabled {
                        return Err(ContractError::UnknownDenom);
                    }
                },
                None => {
                    return Err(ContractError::UnknownDenom);
                },
            }
        },
        Some(ta) => {
            let tk = exec_key1(ta);
            match table_get(&m.token_contracts, &tk) {
                Some(tc) => {
                    if !(tc.denom == list_price.denom) {
                        return Err(ContractError::TokenDenomMismatch);
                    }
                },
                None => {
                    return Err(ContractError::TokenDenomMismatch);
                },
            }
        },
    }
    if expire <= now {
        return Err(ContractError::AskExpired);
    }
    let ask = Ask { token_id, seller, list_price, expires_at: expire, collection: nft_address };
    table_upsert(&mut m.asks, ask);
    Ok(())
}

/// What a price update decides: no payment may be attached, the ask must
/// exist, only its seller may change it, and the new price's denomination
/// is validated exactly as when listing.
pub open spec fn update_ask_price_result(
    m: Marketplace,
    sender: Seq<char>,
    funds: Seq<Asset>,
    nft_address: Seq<char>,
    token_id: Seq<char>,
    denom: Seq<char>,
    token_address: Option<Seq<char>>,
) -> Result<(), ContractError> {
    if funds.len() != 0 {
        Err(ContractError::TooMuchFunds)
    } else {
        match m.spec_ask(nft_address, token_id) {
            None => Err(ContractError::NoSuchAsk),
            Some(ask) => if ask.seller@ != sender {
                Err(ContractError::Unauthorized)
            } else {
                match token_address {
                    Some(ta) => match m.spec_token_contract(ta) {
                        Some(tc) => if tc.denom@ != denom {
                            Err(ContractError::TokenDenomMismatch)
                        } else {
                            Ok(())
                        },
                        None => Err(ContractError::TokenDenomMismatch),
                    },
                    None => match m.spec_coin(denom) {
                        Some(cd) => if !cd.enabled {
                            Err(ContractError::UnknownDenom)
                        } else {
                            Ok(())
                        },
                        None => Err(ContractError::UnknownDenom),
                    },
                }
            },
        }
    }
}

/// Changes the price of a stored ask — price only: seller, deadline and
/// keys stay as they are. Seller only.
pub fn execute_update_ask_price(
    m: &mut Marketplace,
    sender: &String,
    funds: &Vec<Asset>,
    nft_address: String,
    token_id: String,
    list_price: Asset,
    token_address: Option<String>,
) -> (r: Result<(), ContractError>)
    requires
        old(m).wf(),
    ensures
        final(m).wf(),
        r == update_ask_price_result(
            *old(m),
            sender@,
            funds@,
            nft_address@,
            token_id@,
            list_price.denom@,
            opt_string_view(token_address),
        ),
        r is Ok ==> (old(m).spec_ask(nft_address@, token_id@) matches Some(ask) && final(m).asks@ == insert_sorted(
            old(m).asks@,
            Ask {
                token_id: ask.token_id,
                seller: ask.seller,
                list_price,
                expires_at: ask.expires_at,
                collection: ask.collection,
            },
        )),
        r is Ok ==> config_unchanged(*old(m), *final(m)) && registries_unchanged(
            *old(m),
            *final(m),
        ) && books_unchanged(*old(m), *final(m)) && final(m).bids@ == old(m).bids@ && final(m).collection_bids@ == old(m).collection_bids@,
        r is Err ==> state_unchanged(*old(m), *final(m)),
{
    if let Err(e) = nonpayable(funds) {
        return Err(e);
    }
    let ak = exec_key2(&nft_address, &token_id);
    let ask = match table_get(&m.asks, &ak) {
        Some(a) => a.clone(),
        None => {
            return Err(ContractError::NoSuchAsk);
        },
    };
    if !(ask.seller == *sender) {
        return Err(ContractError::Unauthorized);
    }
    match &token_address {
        Some(ta) => {
            let tk = exec_key1(ta);
            match table_get(&m.token_contracts, &tk) {
                Some(tc) => {
                    if !(tc.denom == list_price.denom) {
                        return Err(ContractError::TokenDenomMismatch);
                    }
                },
                None => {
                    return Err(ContractError::TokenDenomMismatch);
                },
            }
        },
        None => {
            let dk = exec_key1(&list_price.denom);
            match table_get(&m.coin_denoms, &dk) {
                Some(cd) => {
                    if !cd.enabled {
                        return Err(ContractError::UnknownDenom);
                    }
                },
                None => {
                    return Err(ContractError::UnknownDenom);
                },
            }
        },
    }
    table_upsert(
        &mut m.asks,
        Ask {
            token_id: ask.token_id,
            seller: ask.seller,
            list_price,
            expires_at: ask.expires_at,
            collection: ask.collection,
        },
    );
    Ok(())
}

/// What a withdrawal decides: no payment may be attached, the ask must
/// exist, and only its seller may withdraw it.
pub open spec fn withdraw_result(
    m: Marketplace,
    sender: Seq<char>,
    funds: Seq<Asset>,
    nft_address: Seq<char>,
    token_id: Seq<char>,
) -> Result<(), ContractError> {
    if funds.len() != 0 {
        Err(ContractError::TooMuchFunds)
    } else {
        match m.spec_ask(nft_address, token_id) {
            None => Err(ContractError::NoSuchAsk),
            Some(ask) => if ask.seller@ != sender {
                Err(ContractError::Unauthorized)
            } else {
                Ok(())
            },
        }
    }
}

/// Withdraws a listing: removes the ask and every bid on the item, refunds
/// each removed bid in ascending bidder order, and returns the NFT to the
/// seller. Seller only; all-or-nothing.
pub fn execute_withdraw(
    m: &mut Marketplace,
    sender: &String,
    funds: &Vec<Asset>,
    nft_address: String,
    token_id: String,
) -> (r: Result<Vec<TransferInstruction>, ContractError>)
    requires
        old(m).wf(),
    ensures
        final(m).wf(),
        outcome(r) == withdraw_result(*old(m), sender@, funds@, nft_address@, token_id@),
        r is Ok ==> final(m).asks@ == remove_key(old(m).asks@, skey2(nft_address@, token_id@)),
        r is Ok ==> final(m).bids@ == swept_bids(old(m).bids@, nft_address@, token_id@),
        r matches Ok(instrs) ==> (old(m).spec_ask(nft_address@, token_id@) matches Some(ask)
            && instrs@ == refunds_for(
            refunded_bids(old(m).bids@, nft_address@, token_id@, None),
        ) + seq![
            TransferInstruction::Nft { contract: nft_address, to: ask.seller, token_id },
        ]),
        r is Ok ==> config_unchanged(*old(m), *final(m)) && registries_unchanged(
            *old(m),
            *final(m),
        ) && books_unchanged(*old(m), *final(m)) && final(m).collection_bids@ == old(m).collection_bids@,
        r is Err ==> state_unchanged(*old(m), *final(m)),
{
    if let Err(e) = nonpayable(funds) {
        return Err(e);
    }
    let ak = exec_key2(&nft_address, &token_id);
    let ask = match table_get(&m.asks, &ak) {
        Some(a) => a.clone(),
        None => {
            return Err(ContractError::NoSuchAsk);
        },
    };
    if !(ask.seller == *sender) {
        return Err(ContractError::Unauthorized);
    }
    table_remove(&mut m.asks, &ak);
    let mut messages = sweep_item_bids(&mut m.bids, &nft_address, &token_id, None);
    messages.push(
        TransferInstruction::Nft { contract: nft_address, to: ask.seller, token_id },
    );
    Ok(messages)
}

/// What removing a bid decides: no payment may be attached, and the caller
/// must have a stored bid on the item.
pub open spec fn remove_bid_result(
    m: Marketplace,
    sender: Seq<char>,
    funds: Seq<Asset>,
    nft_address: Seq<char>,
    token_id: Seq<char>,
) -> Result<(), ContractError> {
    if funds.len() != 0 {
        Err(ContractError::TooMuchFunds)
    } else if m.spec_bid(nft_address, token_id, sender) is None {
        Err(ContractError::NoData)
    } else {
        Ok(())
    }
}

/// Removes the caller's own bid on an item and refunds it in full.
pub fn execute_remove_bid(
    m: &mut Marketplace,
    sender: &String,
    funds: &Vec<Asset>,
    nft_address: String,
    token_id: String,
) -> (r: Result<Vec<TransferInstruction>, ContractError>)
    requires
        old(m).wf(),
    ensures
        final(m).wf(),
        outcome(r) == remove_bid_result(*old(m), sender@, funds@, nft_address@, token_id@),
        r is Ok ==> final(m).bids@ == remove_key(
            old(m).bids@,
            skey3(nft_address@, token_id@, sender@),
        ),
        r matches Ok(instrs) ==> (old(m).spec_bid(nft_address@, token_id@, sender@) matches Some(
            bid,
        ) && instrs@ == seq![refund_instruction(bid)]),
        r is Ok ==> config_unchanged(*old(m), *final(m)) && registries_unchanged(
            *old(m),
            *final(m),
        ) && books_unchanged(*old(m), *final(m)) && final(m).asks@ == old(m).asks@ && final(m).collection_bids@ == old(m).collection_bids@,
        r is Err ==> state_unchanged(*old(m), *final(m)),
{
    if let Err(e) = nonpayable(funds) {
        return Err(e);
    }
    let bk = exec_key3(&nft_address, &token_id, sender);
    let bid = match table_get(&m.bids, &bk) {
        Some(b) => b.clone(),
        None => {
            return Err(ContractError::NoData);
        },
    };
    table_remove(&mut m.bids, &bk);
    let mut messages: Vec<TransferInstruction> = Vec::new();
    messages.push(refund_instruction_exec(&bid));
    Ok(messages)
}

/// The refund a removed collection bid is owed.
pub open spec fn collection_bid_refund(b: CollectionBid) -> TransferInstruction {
    match b.token_address {
        Some(ta) => TransferInstruction::Token {
            contract: ta,
            to: b.bidder,
            amount: b.list_price.amount,
        },
        None => TransferInstruction::Native {
            to: b.bidder,
            denom: b.list_price.denom,
            amount: b.list_price.amount,
        },
    }
}

fn collection_bid_refund_exec(b: &CollectionBid) -> (r: TransferInstruction)
    ensures
        r == collection_bid_refund(*b),
{
    match &b.token_address {
        Some(ta) => TransferInstruction::Token {
            contract: ta.clone(),
            to: b.bidder.clone(),
            amount: b.list_price.amount,
        },
        None => TransferInstruction::Native {
            to: b.bidder.clone(),
            denom: b.list_price.denom.clone(),
            amount: b.list_price.amount,
        },
    }
}

/// What removing a collection bid decides: no payment may be attached, and
/// the caller must have a standing bid on the collection.
pub open spec fn remove_collection_bid_result(
    m: Marketplace,
    sender: Seq<char>,
    funds: Seq<Asset>,
    nft_address: Seq<char>,
) -> Result<(), ContractError> {
    if funds.len() != 0 {
        Err(ContractError::TooMuchFunds)
    } else if m.spec_collection_bid(nft_address, sender) is None {
        Err(ContractError::NoData)
    } else {
        Ok(())
    }
}

/// Removes the caller's standing collection bid and refunds it in full.
pub fn execute_remove_collection_bid(
    m: &mut Marketplace,
    sender: &String,
    funds: &Vec<Asset>,
    nft_address: String,
) -> (r: Result<Vec<TransferInstruction>, ContractError>)
    requires
        old(m).wf(),
    ensures
        final(m).wf(),
        outcome(r) == remove_collection_bid_result(*old(m), sender@, funds@, nft_address@),
        r is Ok ==> final(m).collection_bids@ == remove_key(
            old(m).collection_bids@,
            skey2(nft_address@, sender@),
        ),
        r matches Ok(instrs) ==> (old(m).spec_collection_bid(nft_address@, sender@) matches Some(
            bid,
        ) && instrs@ == seq![collection_bid_refund(bid)]),
        r is Ok ==> config_unchanged(*old(m), *final(m)) && registries_unchanged(
            *old(m),
            *final(m),
        ) && books_unchanged(*old(m), *final(m)) && final(m).asks@ == old(m).asks@ && final(m).bids@
            == old(m).bids@,
        r is Err ==> state_unchanged(*old(m), *final(m)),
{
    if let Err(e) = nonpayable(funds) {
        return Err(e);
    }
    let ck = exec_key2(&nft_address, sender);
    let bid = match table_get(&m.collection_bids, &ck) {
        Some(b) => b.clone(),
        None => {
            return Err(ContractError::NoData);
        },
    };
    table_remove(&mut m.collection_bids, &ck);
    let mut messages: Vec<TransferInstruction> = Vec::new();
    messages.push(collection_bid_refund_exec(&bid));
    Ok(messages)
}

/// A payment instruction: native transfer when no token contract is
/// attached to the settlement, token transfer through that contract
/// otherwise.
pub open spec fn pay_instruction(
    to: String,
    denom: String,
    amount: u128,
    token: Option<String>,
) -> TransferInstruction {
    match token {
        Some(ta) => TransferInstruction::Token { contract: ta, to, amount },
        None => TransferInstruction::Native { to, denom, amount },
    }
}

/// The royalty pool: the sale amount scaled by the royalty portion.
pub open spec fn royalty_base(amount: u128, royalty: u128) -> u128 {
    mul_floor(amount, royalty) as u128
}

/// One member's cut: the royalty pool scaled by the member's share.
pub open spec fn member_payment(amount: u128, royalty: u128, portion: u128) -> u128 {
    mul_floor(royalty_base(amount, royalty), portion) as u128
}

/// The seller's residual: the sale amount minus every member's cut, so
/// whatever the truncating member scalings drop is absorbed by the seller,
/// never lost and never paid twice.
pub open spec fn seller_residual(members: Seq<UserInfo>, amount: u128, royalty: u128) -> u128 {
    (amount - sum_payments(members, royalty_base(amount, royalty))) as u128
}

/// The payment a royalty member receives at settlement.
pub open spec fn member_pay_instr(
    u: UserInfo,
    royalty: u128,
    price: Asset,
    token: Option<String>,
) -> TransferInstruction {
    pay_instruction(u.address, price.denom, member_payment(price.amount, royalty, u.portion), token)
}

/// Everything a settlement pays out, in order: one payment per royalty
/// member, the seller's residual, and the NFT handover to the recipient.
pub open spec fn distribution_instrs(
    members: Seq<UserInfo>,
    royalty: u128,
    seller: String,
    recipient: String,
    price: Asset,
    token: Option<String>,
    collection: String,
    token_id: String,
) -> Seq<TransferInstruction> {
    members.map_values(|u: UserInfo| member_pay_instr(u, royalty, price, token)) + seq![
        pay_instruction(seller, price.denom, seller_residual(members, price.amount, royalty), token),
        TransferInstruction::Nft { contract: collection, to: recipient, token_id },
    ]
}

/// Appends the distribution of one settled sale: every royalty member's
/// cut, the seller's residual, and the NFT handover. Relies on the stored
/// member list, whose shares sum to one.
fn distribute_money(
    m: &Marketplace,
    nft_address: &String,
    royalty_portion: u128,
    seller: String,
    bidder: String,
    list_price: Asset,
    token_address: Option<String>,
    token_id: String,
    messages: &mut Vec<TransferInstruction>,
) -> (r: Result<(), ContractError>)
    requires
        m.wf(),
        royalty_portion <= DECIMAL_FRACTIONAL,
    ensures
        r is Ok <==> m.spec_members(nft_address@) is Some,
        r is Err ==> r == Err::<(), ContractError>(ContractError::NoData) && final(messages)@
            == old(messages)@,
        r is Ok ==> (m.spec_members(nft_address@) matches Some(cm) && final(messages)@ == old(messages)@ + distribution_instrs(
            cm.members@,
            royalty_portion,
            seller,
            bidder,
            list_price,
            token_address,
            *nft_address,
            token_id,
        )),
{
    let mk = exec_key1(nft_address);
    let cm = match table_get(&m.members, &mk) {
        Some(cm) => cm,
        None => {
            return Err(ContractError::NoData);
        },
    };
    proof {
        crate::table::lemma_spec_get_in(m.members@, skey1(nft_address@));
        let cmv = m.spec_members(nft_address@)->Some_0;
        let wi = choose|wi: int| 0 <= wi < m.members@.len() && m.members@[wi] == cmv;
        assert(sum_portions(cmv.members@) == DECIMAL_FRACTIONAL);
    }
    let base = decimal_mul_floor(list_price.amount, royalty_portion);
    let ghost dist = cm.members@;
    let ghost pre = messages@;
    let n = cm.members.len();
    let mut paid: u128 = 0;
    let mut i: usize = 0;
    proof {
        assert(messages@ =~= pre + dist.take(0).map_values(
            |u: UserInfo| member_pay_instr(u, royalty_portion, list_price, token_address),
        ));
        assert(dist.take(0) =~= Seq::<UserInfo>::empty());
    }
    while i < n
        invariant
            i <= n,
            n == cm.members@.len(),
            dist == cm.members@,
            sum_portions(dist) == DECIMAL_FRACTIONAL,
            royalty_portion <= DECIMAL_FRACTIONAL,
            base == royalty_base(list_price.amount, royalty_portion),
            base <= list_price.amount,
            paid == sum_payments(dist.take(i as int), base),
            messages@ == pre + dist.take(i as int).map_values(
                |u: UserInfo| member_pay_instr(u, royalty_portion, list_price, token_address),
            ),
        decreases n - i,
    {
        proof {
            lemma_portion_le_sum(dist, i as int);
        }
        let u = &cm.members[i];
        let pay = decimal_mul_floor(base, u.portion);
        proof {
            lemma_sum_payments_take(dist, base, i as int);
            lemma_sum_payments_split(dist, base, i + 1);
            lemma_sum_payments_nonneg(dist.skip(i + 1), base);
            lemma_sum_payments_bound(dist, base);
        }
        paid = paid + pay;
        let instr = match &token_address {
            Some(ta) => TransferInstruction::Token {
                contract: ta.clone(),
                to: u.address.clone(),
                amount: pay,
            },
            None => TransferInstruction::Native {
                to: u.address.clone(),
                denom: list_price.denom.clone(),
                amount: pay,
            },
        };
        messages.push(instr);
        proof {
            assert(messages@ =~= pre + dist.take(i + 1).map_values(
                |u: UserInfo| member_pay_instr(u, royalty_portion, list_price, token_address),
            ));
        }
        i = i + 1;
    }
    proof {
        assert(dist.take(n as int) =~= dist);
        lemma_sum_payments_bound(dist, base);
    }
    let residual = list_price.amount - paid;
    let seller_instr = match &token_address {
        Some(ta) => TransferInstruction::Token { contract: ta.clone(), to: seller, amount: residual },
        None => TransferInstruction::Native {
            to: seller,
            denom: list_price.denom.clone(),
            amount: residual,
        },
    };
    messages.push(seller_instr);
    messages.push(
        TransferInstruction::Nft { contract: nft_address.clone(), to: bidder, token_id },
    );
    proof {
        assert(dist.take(n as int) =~= dist);
        assert(messages@ =~= pre + distribution_instrs(
            dist,
            royalty_portion,
            seller,
            bidder,
            list_price,
            token_address,
            *nft_address,
            token_id,
        ));
    }
    Ok(())
}

/// Appends the sale to the history and folds its amount into the
/// (collection, denomination) locked-value aggregate, creating the
/// aggregate at the amount when absent.
fn update_sale_history_tvl(
    m: &mut Marketplace,
    seller: String,
    bidder: String,
    nft_address: &String,
    token_id: &String,
    list_price: &Asset,
    now: u64,
)
    requires
        old(m).wf(),
        old(m).spec_tvl_amount(nft_address@, list_price.denom@) + list_price.amount <= u128::MAX,
    ensures
        final(m).wf(),
        final(m).sale_history@ == insert_sorted(
            old(m).sale_history@,
            SaleInfo {
                from: seller,
                to: bidder,
                denom: list_price.denom,
                amount: list_price.amount,
                time: now / NANOS_PER_SECOND,
                collection: *nft_address,
                token_id: *token_id,
            },
        ),
        final(m).tvl@ == insert_sorted(
            old(m).tvl@,
            TvlInfo {
                denom: list_price.denom,
                amount: (old(m).spec_tvl_amount(nft_address@, list_price.denom@)
                    + list_price.amount) as u128,
                collection: *nft_address,
            },
        ),
        config_unchanged(*old(m), *final(m)),
        registries_unchanged(*old(m), *final(m)),
        ledgers_unchanged(*old(m), *final(m)),
{
    let time = now / NANOS_PER_SECOND;
    let rec = SaleInfo {
        from: seller,
        to: bidder,
        denom: list_price.denom.clone(),
        amount: list_price.amount,
        time,
        collection: nft_address.clone(),
        token_id: token_id.clone(),
    };
    table_upsert(&mut m.sale_history, rec);
    let tk = exec_key2(nft_address, &list_price.denom);
    let cur: u128 = match table_get(&m.tvl, &tk) {
        Some(t) => t.amount,
        None => 0,
    };
    let total = cur + list_price.amount;
    table_upsert(
        &mut m.tvl,
        TvlInfo {
            denom: list_price.denom.clone(),
            amount: total,
            collection: nft_address.clone(),
        },
    );
}

/// What accepting a bid decides: the collection must be registered with a
/// member list, no payment may be attached, the named bid must exist and
/// not be expired, the ask must exist, and only its seller may accept.
pub open spec fn accept_bid_result(
    m: Marketplace,
    sender: Seq<char>,
    funds: Seq<Asset>,
    nft_address: Seq<char>,
    token_id: Seq<char>,
    bidder: Seq<char>,
    now: u64,
) -> Result<(), ContractError> {
    if funds.len() != 0 {
        Err(ContractError::TooMuchFunds)
    } else if m.spec_collection_info(nft_address) is None {
        Err(ContractError::UnknownCollection)
    } else {
        match m.spec_bid(nft_address, token_id, bidder) {
            None => Err(ContractError::NoData),
            Some(bid) => if bid.expires_at <= now {
                Err(ContractError::BidExpired)
            } else {
                match m.spec_ask(nft_address, token_id) {
                    None => Err(ContractError::NoSuchAsk),
                    Some(ask) => if ask.seller@ != sender {
                        Err(ContractError::Unauthorized)
                    } else if m.spec_members(nft_address) is None {
                        Err(ContractError::NoData)
                    } else {
                        Ok(())
                    },
                }
            },
        }
    }
}

/// Accepts one bid on a listed item, settling the sale atomically: the ask
/// goes, every bid on the item goes — losers refunded in ascending bidder
/// order, the accepted one not — the sale is booked, and the proceeds are
/// split between the royalty members and the seller, the NFT going to the
/// bidder. Seller only.
pub fn execute_accept_bid(
    m: &mut Marketplace,
    sender: &String,
    funds: &Vec<Asset>,
    nft_address: String,
    token_id: String,
    bidder: String,
    now: u64,
) -> (r: Result<Vec<TransferInstruction>, ContractError>)
    requires
        old(m).wf(),
        old(m).spec_bid(nft_address@, token_id@, bidder@) matches Some(bid) ==> old(m).spec_tvl_amount(nft_address@, bid.list_price.denom@) + bid.list_price.amount
            <= u128::MAX,
    ensures
        final(m).wf(),
        outcome(r) == accept_bid_result(
            *old(m),
            sender@,
            funds@,
            nft_address@,
            token_id@,
            bidder@,
            now,
        ),
        r is Ok ==> final(m).asks@ == remove_key(old(m).asks@, skey2(nft_address@, token_id@)),
        r is Ok ==> final(m).bids@ == swept_bids(old(m).bids@, nft_address@, token_id@),
        r matches Ok(instrs) ==> (old(m).spec_bid(nft_address@, token_id@, bidder@) matches Some(
            bid,
        ) && old(m).spec_ask(nft_address@, token_id@) matches Some(ask) && old(m).spec_members(
            nft_address@,
        ) matches Some(cm) && old(m).spec_collection_info(nft_address@) matches Some(ci) && final(m).sale_history@ == insert_sorted(
            old(m).sale_history@,
            SaleInfo {
                from: ask.seller,
                to: bidder,
                denom: bid.list_price.denom,
                amount: bid.list_price.amount,
                time: now / NANOS_PER_SECOND,
                collection: nft_address,
                token_id,
            },
        ) && final(m).tvl@ == insert_sorted(
            old(m).tvl@,
            TvlInfo {
                denom: bid.list_price.denom,
                amount: (old(m).spec_tvl_amount(nft_address@, bid.list_price.denom@)
                    + bid.list_price.amount) as u128,
                collection: nft_address,
            },
        ) && instrs@ == refunds_for(
            refunded_bids(old(m).bids@, nft_address@, token_id@, Some(bidder@)),
        ) + distribution_instrs(
            cm.members@,
            ci.royalty_portion,
            ask.seller,
            bidder,
            bid.list_price,
            bid.token_address,
            nft_address,
            token_id,
        )),
        r is Ok ==> config_unchanged(*old(m), *final(m)) && registries_unchanged(
            *old(m),
            *final(m),
        ) && final(m).collection_bids@ == old(m).collection_bids@,
        r is Err ==> state_unchanged(*old(m), *final(m)),
{
    if let Err(e) = nonpayable(funds) {
        return Err(e);
    }
    let ck = exec_key1(&nft_address);
    let ci = match table_get(&m.collection_infos, &ck) {
        Some(c) => c.clone(),
        None => {
            return Err(ContractError::UnknownCollection);
        },
    };
    let bk = exec_key3(&nft_address, &token_id, &bidder);
    let bid = match table_get(&m.bids, &bk) {
        Some(b) => b.clone(),
        None => {
            return Err(ContractError::NoData);
        },
    };
    if bid.is_expired(now) {
        return Err(ContractError::BidExpired);
    }
    let ak = exec_key2(&nft_address, &token_id);
    let ask = match table_get(&m.asks, &ak) {
        Some(a) => a.clone(),
        None => {
            return Err(ContractError::NoSuchAsk);
        },
    };
    if !(ask.seller == *sender) {
        return Err(ContractError::Unauthorized);
    }
    let mk = exec_key1(&nft_address);
    if table_get(&m.members, &mk).is_none() {
        return Err(ContractError::NoData);
    }
    proof {
        crate::table::lemma_spec_get_in(m.collection_infos@, skey1(nft_address@));
        let civ = m.spec_collection_info(nft_address@)->Some_0;
        let wi = choose|wi: int|
            0 <= wi < m.collection_infos@.len() && m.collection_infos@[wi] == civ;
        assert(civ.royalty_portion <= DECIMAL_FRACTIONAL);
    }
    table_remove(&mut m.asks, &ak);
    let mut messages = sweep_item_bids(&mut m.bids, &nft_address, &token_id, Some(&bidder));
    update_sale_history_tvl(
        m,
        ask.seller.clone(),
        bidder.clone(),
        &nft_address,
        &token_id,
        &bid.list_price,
        now,
    );
    let dres = distribute_money(
        &*m,
        &nft_address,
        ci.royalty_portion,
        ask.seller.clone(),
        bidder.clone(),
        bid.list_price.clone(),
        crate::state::clone_opt_string(&bid.token_address),
        token_id.clone(),
        &mut messages,
    );
    match dres {
        Ok(()) => Ok(messages),
        Err(e) => {
            proof {
                assert(false);
            }
            Err(e)
        },
    }
}

/// The bids stored for one item.
pub open spec fn bids_on_item(bids: Seq<Bid>, c: Seq<char>, t: Seq<char>) -> Seq<Bid> {
    bids.filter(|b: Bid| bid_on_item(b, c, t))
}

/// Counts the bids stored for one item.
fn count_item_bids(bids: &Vec<Bid>, collection: &String, token_id: &String) -> (n: usize)
    ensures
        n == bids_on_item(bids@, collection@, token_id@).len(),
{
    let ghost c = collection@;
    let ghost t = token_id@;
    let len = bids.len();
    let mut count: usize = 0;
    let mut i: usize = 0;
    proof {
        reveal(Seq::filter);
        assert(bids@.take(0) =~= Seq::<Bid>::empty());
    }
    while i < len
        invariant
            i <= len,
            len == bids@.len(),
            c == collection@,
            t == token_id@,
            count == bids_on_item(bids@.take(i as int), c, t).len(),
            count <= i,
        decreases len - i,
    {
        proof {
            reveal(Seq::filter);
            assert(bids@.take(i + 1).drop_last() =~= bids@.take(i as int));
            assert(bids@.take(i + 1).last() == bids@[i as int]);
        }
        if bids[i].collection == *collection && bids[i].token_id == *token_id {
            count = count + 1;
        }
        i = i + 1;
    }
    proof {
        assert(bids@.take(len as int) =~= bids@);
    }
    count
}

/// The amount presented with a call in the given denomination: the sum of
/// the matching funds, other denominations ignored.
pub open spec fn funds_amount(funds: Seq<Asset>, denom: Seq<char>) -> int
    decreases funds.len(),
{
    if funds.len() == 0 {
        0
    } else {
        (if funds[0].denom@ == denom {
            funds[0].amount as int
        } else {
            0
        }) + funds_amount(funds.skip(1), denom)
    }
}

proof fn lemma_funds_amount_nonneg(funds: Seq<Asset>, denom: Seq<char>)
    ensures
        0 <= funds_amount(funds, denom),
    decreases funds.len(),
{
    if funds.len() > 0 {
        lemma_funds_amount_nonneg(funds.skip(1), denom);
    }
}

proof fn lemma_funds_amount_split(funds: Seq<Asset>, denom: Seq<char>, i: int)
    requires
        0 <= i <= funds.len(),
    ensures
        funds_amount(funds, denom) == funds_amount(funds.take(i), denom) + funds_amount(
            funds.skip(i),
            denom,
        ),
    decreases i,
{
    if i == 0 {
        assert(funds.take(0) =~= Seq::<Asset>::empty());
        assert(funds.skip(0) =~= funds);
    } else {
        lemma_funds_amount_split(funds.skip(1), denom, i - 1);
        assert(funds.skip(1).take(i - 1) =~= funds.take(i).skip(1));
        assert(funds.skip(1).skip(i - 1) =~= funds.skip(i));
        assert(funds.take(i)[0] == funds[0]);
    }
}

proof fn lemma_funds_amount_take(funds: Seq<Asset>, denom: Seq<char>, i: int)
    requires
        0 <= i < funds.len(),
    ensures
        funds_amount(funds.take(i + 1), denom) == funds_amount(funds.take(i), denom) + (if funds[i].denom@
            == denom {
            funds[i].amount as int
        } else {
            0
        }),
{
    lemma_funds_amount_split(funds, denom, i);
    lemma_funds_amount_split(funds, denom, i + 1);
    lemma_funds_amount_nonneg(funds.skip(i + 1), denom);
    assert(funds.skip(i)[0] == funds[i]);
    assert(funds.skip(i).skip(1) =~= funds.skip(i + 1));
}

/// Sums the presented funds in the given denomination; `None` when the sum
/// does not fit the machine word, in which case it matches no stored price.
fn funds_amount_exec(funds: &Vec<Asset>, denom: &String) -> (r: Option<u128>)
    ensures
        match r {
            Some(v) => v == funds_amount(funds@, denom@),
            None => funds_amount(funds@, denom@) > u128::MAX,
        },
{
    let n = funds.len();
    let mut acc: u128 = 0;
    let mut i: usize = 0;
    proof {
        assert(funds@.take(0) =~= Seq::<Asset>::empty());
    }
    while i < n
        invariant
            i <= n,
            n == funds@.len(),
            acc == funds_amount(funds@.take(i as int), denom@),
        decreases n - i,
    {
        proof {
            lemma_funds_amount_take(funds@, denom@, i as int);
        }
        if funds[i].denom == *denom {
            let a = funds[i].amount;
            if acc > u128::MAX - a {
                proof {
                    lemma_funds_amount_split(funds@, denom@, i + 1);
                    lemma_funds_amount_nonneg(funds@.skip(i + 1), denom@);
                }
                return None;
            }
            acc = acc + a;
        }
        i = i + 1;
    }
    proof {
        assert(funds@.take(n as int) =~= funds@);
    }
    Some(acc)
}

/// What storing an auction bid decides: the item must carry a live ask, the
/// item must still be under the bid cap, and the new bid's own deadline
/// must be ahead.
pub open spec fn auction_bid_result(
    m: Marketplace,
    c: Seq<char>,
    t: Seq<char>,
    expire: u64,
    now: u64,
) -> Result<(), ContractError> {
    match m.spec_ask(c, t) {
        None => Err(ContractError::NoSuchAsk),
        Some(ask) => if ask.expires_at <= now {
            Err(ContractError::AskExpired)
        } else if bids_on_item(m.bids@, c, t).len() >= m.config.bid_limit {
            Err(ContractError::BidCountExceeded)
        } else if expire <= now {
            Err(ContractError::BidExpired)
        } else {
            Ok(())
        },
    }
}

/// The ledger effect and refund of storing an auction bid: the bid is
/// upserted under (collection, token id, bidder) with the ask's seller as a
/// snapshot, and a prior bid by the same bidder is refunded in full first.
pub open spec fn auction_bid_post(
    pre: Marketplace,
    post: Marketplace,
    instrs: Seq<TransferInstruction>,
    c_str: String,
    t_str: String,
    bidder_str: String,
    price: Asset,
    token: Option<String>,
    expire: u64,
) -> bool {
    &&& (pre.spec_ask(c_str@, t_str@) matches Some(ask) && post.bids@ == insert_sorted(
        pre.bids@,
        Bid {
            collection: c_str,
            token_id: t_str,
            bidder: bidder_str,
            list_price: price,
            expires_at: expire,
            token_address: token,
            seller: ask.seller,
        },
    ))
    &&& instrs == match pre.spec_bid(c_str@, t_str@, bidder_str@) {
        Some(ob) => seq![refund_instruction(ob)],
        None => Seq::<TransferInstruction>::empty(),
    }
    &&& post.asks@ == pre.asks@
    &&& post.collection_bids@ == pre.collection_bids@
    &&& config_unchanged(pre, post)
    &&& registries_unchanged(pre, post)
    &&& books_unchanged(pre, post)
}

/// Stores an auction bid, refunding and replacing the bidder's prior bid on
/// the item if one is stored.
fn place_auction_bid(
    m: &mut Marketplace,
    nft_address: String,
    token_id: String,
    bidder: String,
    price: Asset,
    token_address: Option<String>,
    expire: u64,
    now: u64,
) -> (r: Result<Vec<TransferInstruction>, ContractError>)
    requires
        old(m).wf(),
    ensures
        final(m).wf(),
        outcome(r) == auction_bid_result(*old(m), nft_address@, token_id@, expire, now),
        r matches Ok(instrs) ==> auction_bid_post(
            *old(m),
            *final(m),
            instrs@,
            nft_address,
            token_id,
            bidder,
            price,
            token_address,
            expire,
        ),
        r is Err ==> state_unchanged(*old(m), *final(m)),
{
    let ak = exec_key2(&nft_address, &token_id);
    let ask = match table_get(&m.asks, &ak) {
        Some(a) => a.clone(),
        None => {
            return Err(ContractError::NoSuchAsk);
        },
    };
    if ask.is_expired(now) {
        return Err(ContractError::AskExpired);
    }
    let count = count_item_bids(&m.bids, &nft_address, &token_id);
    if count >= m.config.bid_limit as usize {
        return Err(ContractError::BidCountExceeded);
    }
    let bk = exec_key3(&nft_address, &token_id, &bidder);
    let old_bid = match table_get(&m.bids, &bk) {
        Some(b) => Some(b.clone()),
        None => None,
    };
    if expire <= now {
        return Err(ContractError::BidExpired);
    }
    let mut messages: Vec<TransferInstruction> = Vec::new();
    if let Some(ob) = &old_bid {
        messages.push(refund_instruction_exec(ob));
    }
    let bid = Bid {
        collection: nft_address,
        token_id,
        bidder,
        list_price: price,
        expires_at: expire,
        token_address,
        seller: ask.seller,
    };
    table_upsert(&mut m.bids, bid);
    proof {
        if old(m).spec_bid(bk.0@, bk.1@, bk.2@) is Some {
            assert(messages@ =~= seq![
                refund_instruction(old(m).spec_bid(bk.0@, bk.1@, bk.2@)->Some_0),
            ]);
        } else {
            assert(messages@ =~= Seq::<TransferInstruction>::empty());
        }
    }
    Ok(messages)
}

/// What storing a collection bid decides: only that its deadline is ahead.
pub open spec fn collection_bid_store_result(expire: u64, now: u64) -> Result<(), ContractError> {
    if expire <= now {
        Err(ContractError::BidExpired)
    } else {
        Ok(())
    }
}

/// The ledger effect and refund of storing a collection bid.
pub open spec fn collection_bid_post(
    pre: Marketplace,
    post: Marketplace,
    instrs: Seq<TransferInstruction>,
    c_str: String,
    bidder_str: String,
    price: Asset,
    token: Option<String>,
    expire: u64,
) -> bool {
    &&& post.collection_bids@ == insert_sorted(
        pre.collection_bids@,
        CollectionBid {
            collection: c_str,
            bidder: bidder_str,
            list_price: price,
            expires_at: expire,
            token_address: token,
        },
    )
    &&& instrs == match pre.spec_collection_bid(c_str@, bidder_str@) {
        Some(ob) => seq![collection_bid_refund(ob)],
        None => Seq::<TransferInstruction>::empty(),
    }
    &&& post.asks@ == pre.asks@
    &&& post.bids@ == pre.bids@
    &&& config_unchanged(pre, post)
    &&& registries_unchanged(pre, post)
    &&& books_unchanged(pre, post)
}

/// Stores a standing collection bid, refunding and replacing the bidder's
/// prior one if stored.
fn place_collection_bid(
    m: &mut Marketplace,
    nft_address: String,
    bidder: String,
    price: Asset,
    token_address: Option<String>,
    expire: u64,
    now: u64,
) -> (r: Result<Vec<TransferInstruction>, ContractError>)
    requires
        old(m).wf(),
    ensures
        final(m).wf(),
        outcome(r) == collection_bid_store_result(expire, now),
        r matches Ok(instrs) ==> collection_bid_post(
            *old(m),
            *final(m),
            instrs@,
            nft_address,
            bidder,
            price,
            token_address,
            expire,
        ),
        r is Err ==> state_unchanged(*old(m), *final(m)),
{
    let ck = exec_key2(&nft_address, &bidder);
    let old_bid = match table_get(&m.collection_bids, &ck) {
        Some(b) => Some(b.clone()),
        None => None,
    };
    if expire <= now {
        return Err(ContractError::BidExpired);
    }
    let mut messages: Vec<TransferInstruction> = Vec::new();
    if let Some(ob) = &old_bid {
        messages.push(collection_bid_refund_exec(ob));
    }
    let bid = CollectionBid {
        collection: nft_address,
        bidder,
        list_price: price,
        expires_at: expire,
        token_address,
    };
    table_upsert(&mut m.collection_bids, bid);
    proof {
        if old(m).spec_collection_bid(ck.0@, ck.1@) is Some {
            assert(messages@ =~= seq![
                collection_bid_refund(old(m).spec_collection_bid(ck.0@, ck.1@)->Some_0),
            ]);
        } else {
            assert(messages@ =~= Seq::<TransferInstruction>::empty());
        }
    }
    Ok(messages)
}

/// What an immediate purchase decides: the item must carry a live ask, the
/// presented amount and denomination must equal the ask's price exactly,
/// and the collection must have its member list.
pub open spec fn fixed_price_result(
    m: Marketplace,
    c: Seq<char>,
    t: Seq<char>,
    pay_denom: Seq<char>,
    pay_amount: u128,
    now: u64,
) -> Result<(), ContractError> {
    match m.spec_ask(c, t) {
        None => Err(ContractError::NoSuchAsk),
        Some(ask) => if ask.expires_at <= now {
            Err(ContractError::AskExpired)
        } else if pay_denom != ask.list_price.denom@ || pay_amount != ask.list_price.amount {
            Err(ContractError::NotEnoughFunds)
        } else if m.spec_members(c) is None {
            Err(ContractError::NoData)
        } else {
            Ok(())
        },
    }
}

/// The state change and payout of a settlement at the ask's price: ask
/// removed, every bid on the item removed and refunded in ascending bidder
/// order, sale booked, aggregate grown, proceeds distributed, NFT to the
/// recipient.
pub open spec fn settlement_post(
    pre: Marketplace,
    post: Marketplace,
    instrs: Seq<TransferInstruction>,
    c_str: String,
    t_str: String,
    recipient: String,
    token: Option<String>,
    royalty: u128,
    now: u64,
) -> bool {
    &&& (pre.spec_ask(c_str@, t_str@) matches Some(ask) && pre.spec_members(
        c_str@,
    ) matches Some(cm) && {
        &&& post.asks@ == remove_key(pre.asks@, skey2(c_str@, t_str@))
        &&& post.bids@ == swept_bids(pre.bids@, c_str@, t_str@)
        &&& post.sale_history@ == insert_sorted(
            pre.sale_history@,
            SaleInfo {
                from: ask.seller,
                to: recipient,
                denom: ask.list_price.denom,
                amount: ask.list_price.amount,
                time: now / NANOS_PER_SECOND,
                collection: c_str,
                token_id: t_str,
            },
        )
        &&& post.tvl@ == insert_sorted(
            pre.tvl@,
            TvlInfo {
                denom: ask.list_price.denom,
                amount: (pre.spec_tvl_amount(c_str@, ask.list_price.denom@)
                    + ask.list_price.amount) as u128,
                collection: c_str,
            },
        )
        &&& instrs == refunds_for(refunded_bids(pre.bids@, c_str@, t_str@, None))
            + distribution_instrs(
            cm.members@,
            royalty,
            ask.seller,
            recipient,
            ask.list_price,
            token,
            c_str,
            t_str,
        )
    })
}

/// Settles an immediate purchase of a listed item at its asked price.
fn settle_fixed_price(
    m: &mut Marketplace,
    nft_address: String,
    token_id: String,
    buyer: String,
    pay_denom: &String,
    pay_amount: u128,
    token_address: Option<String>,
    royalty_portion: u128,
    now: u64,
) -> (r: Result<Vec<TransferInstruction>, ContractError>)
    requires
        old(m).wf(),
        royalty_portion <= DECIMAL_FRACTIONAL,
        old(m).spec_ask(nft_address@, token_id@) matches Some(ask) ==> old(m).spec_tvl_amount(
            nft_address@,
            ask.list_price.denom@,
        ) + ask.list_price.amount <= u128::MAX,
    ensures
        final(m).wf(),
        outcome(r) == fixed_price_result(
            *old(m),
            nft_address@,
            token_id@,
            pay_denom@,
            pay_amount,
            now,
        ),
        r matches Ok(instrs) ==> settlement_post(
            *old(m),
            *final(m),
            instrs@,
            nft_address,
            token_id,
            buyer,
            token_address,
            royalty_portion,
            now,
        ),
        r is Ok ==> final(m).collection_bids@ == old(m).collection_bids@ && config_unchanged(
            *old(m),
            *final(m),
        ) && registries_unchanged(*old(m), *final(m)),
        r is Err ==> state_unchanged(*old(m), *final(m)),
{
    let ak = exec_key2(&nft_address, &token_id);
    let ask = match table_get(&m.asks, &ak) {
        Some(a) => a.clone(),
        None => {
            return Err(ContractError::NoSuchAsk);
        },
    };
    if ask.is_expired(now) {
        return Err(ContractError::AskExpired);
    }
    if !(ask.list_price.denom == *pay_denom) || pay_amount != ask.list_price.amount {
        return Err(ContractError::NotEnoughFunds);
    }
    let mk = exec_key1(&nft_address);
    if table_get(&m.members, &mk).is_none() {
        return Err(ContractError::NoData);
    }
    table_remove(&mut m.asks, &ak);
    let mut messages = sweep_item_bids(&mut m.bids, &nft_address, &token_id, None);
    update_sale_history_tvl(
        m,
        ask.seller.clone(),
        buyer.clone(),
        &nft_address,
        &token_id,
        &ask.list_price,
        now,
    );
    let dres = distribute_money(
        &*m,
        &nft_address,
        royalty_portion,
        ask.seller.clone(),
        buyer,
        ask.list_price.clone(),
        token_address,
        token_id,
        &mut messages,
    );
    match dres {
        Ok(()) => Ok(messages),
        Err(e) => {
            proof {
                assert(false);
            }
            Err(e)
        },
    }
}

/// What a coin-funded bid or purchase decides: the collection and the
/// denomination must be registered, the funds presented in that
/// denomination must sum to exactly the stated price, and the rest follows
/// the sale type.
pub open spec fn bid_with_coin_result(
    m: Marketplace,
    funds: Seq<Asset>,
    nft_address: Seq<char>,
    token_id: Option<Seq<char>>,
    expire: u64,
    sale_type: SaleType,
    list_price: Asset,
    now: u64,
) -> Result<(), ContractError> {
    if m.spec_collection_info(nft_address) is None {
        Err(ContractError::UnknownCollection)
    } else if m.spec_coin(list_price.denom@) is None {
        Err(ContractError::UnknownDenom)
    } else if funds_amount(funds, list_price.denom@) != list_price.amount {
        Err(ContractError::NotEnoughFunds)
    } else {
        match sale_type {
            SaleType::Auction => match token_id {
                None => Err(ContractError::WrongConfig),
                Some(t) => auction_bid_result(m, nft_address, t, expire, now),
            },
            SaleType::CollectionBid => if token_id is Some {
                Err(ContractError::WrongConfig)
            } else {
                collection_bid_store_result(expire, now)
            },
            SaleType::FixedPrice => match token_id {
                None => Err(ContractError::WrongConfig),
                Some(t) => fixed_price_result(
                    m,
                    nft_address,
                    t,
                    list_price.denom@,
                    list_price.amount,
                    now,
                ),
            },
        }
    }
}

/// Places a coin-funded offer: an auction bid, a standing collection bid,
/// or an immediate purchase at the asked price, depending on the sale type.
/// The payment is the funds attached to the call, in the price's
/// denomination; other denominations present are ignored.
pub fn execute_bid_with_coin(
    m: &mut Marketplace,
    sender: &String,
    funds: &Vec<Asset>,
    nft_address: String,
    token_id: Option<String>,
    expire: u64,
    sale_type: SaleType,
    list_price: Asset,
    now: u64,
) -> (r: Result<Vec<TransferInstruction>, ContractError>)
    requires
        old(m).wf(),
        sale_type == SaleType::FixedPrice ==> (match token_id {
            Some(t) => match old(m).spec_ask(nft_address@, t@) {
                Some(ask) => old(m).spec_tvl_amount(nft_address@, ask.list_price.denom@)
                    + ask.list_price.amount <= u128::MAX,
                None => true,
            },
            None => true,
        }),
    ensures
        final(m).wf(),
        outcome(r) == bid_with_coin_result(
            *old(m),
            funds@,
            nft_address@,
            opt_string_view(token_id),
            expire,
            sale_type,
            list_price,
            now,
        ),
        sale_type == SaleType::Auction ==> (r matches Ok(instrs) ==> token_id matches Some(t)
            && auction_bid_post(
            *old(m),
            *final(m),
            instrs@,
            nft_address,
            t,
            *sender,
            list_price,
            None,
            expire,
        )),
        sale_type == SaleType::CollectionBid ==> (r matches Ok(instrs) ==> collection_bid_post(
            *old(m),
            *final(m),
            instrs@,
            nft_address,
            *sender,
            list_price,
            None,
            expire,
        )),
        sale_type == SaleType::FixedPrice ==> (r matches Ok(instrs) ==> token_id matches Some(t)
            && old(m).spec_collection_info(nft_address@) matches Some(ci) && settlement_post(
            *old(m),
            *final(m),
            instrs@,
            nft_address,
            t,
            *sender,
            None,
            ci.royalty_portion,
            now,
        ) && final(m).collection_bids@ == old(m).collection_bids@ && config_unchanged(
            *old(m),
            *final(m),
        ) && registries_unchanged(*old(m), *final(m))),
        r is Err ==> state_unchanged(*old(m), *final(m)),
{
    let ck = exec_key1(&nft_address);
    let ci = match table_get(&m.collection_infos, &ck) {
        Some(c) => c.clone(),
        None => {
            return Err(ContractError::UnknownCollection);
        },
    };
    let dk = exec_key1(&list_price.denom);
    if table_get(&m.coin_denoms, &dk).is_none() {
        return Err(ContractError::UnknownDenom);
    }
    let amount_ok = match funds_amount_exec(funds, &list_price.denom) {
        Some(a) => a == list_price.amount,
        None => false,
    };
    if !amount_ok {
        return Err(ContractError::NotEnoughFunds);
    }
    match sale_type {
        SaleType::Auction => {
            let t = match token_id {
                Some(t) => t,
                None => {
                    return Err(ContractError::WrongConfig);
                },
            };
            place_auction_bid(m, nft_address, t, sender.clone(), list_price, None, expire, now)
        },
        SaleType::CollectionBid => {
            if token_id.is_some() {
                return Err(ContractError::WrongConfig);
            }
            place_collection_bid(m, nft_address, sender.clone(), list_price, None, expire, now)
        },
        SaleType::FixedPrice => {
            let t = match token_id {
                Some(t) => t,
                None => {
                    return Err(ContractError::WrongConfig);
                },
            };
            proof {
                crate::table::lemma_spec_get_in(m.collection_infos@, skey1(nft_address@));
                let civ = m.spec_collection_info(nft_address@)->Some_0;
                let wi = choose|wi: int|
                    0 <= wi < m.collection_infos@.len() && m.collection_infos@[wi] == civ;
                assert(civ.royalty_portion <= DECIMAL_FRACTIONAL);
            }
            let denom = list_price.denom.clone();
            settle_fixed_price(
                m,
                nft_address,
                t,
                sender.clone(),
                &denom,
                list_price.amount,
                None,
                ci.royalty_portion,
                now,
            )
        },
    }
}

/// What a token-funded bid or purchase decides: the paying contract must be
/// registered — the transfer's amount in its denomination is the payment —
/// the collection must be registered, and the rest follows the sale type.
pub open spec fn receive_result(
    m: Marketplace,
    token_contract: Seq<char>,
    amount: u128,
    nft_address: Seq<char>,
    token_id: Option<Seq<char>>,
    expire: u64,
    sale_type: SaleType,
    now: u64,
) -> Result<(), ContractError> {
    match m.spec_token_contract(token_contract) {
        None => Err(ContractError::TokenDenomMismatch),
        Some(tc) => if m.spec_collection_info(nft_address) is None {
            Err(ContractError::UnknownCollection)
        } else {
            match sale_type {
                SaleType::Auction => match token_id {
                    None => Err(ContractError::WrongConfig),
                    Some(t) => auction_bid_result(m, nft_address, t, expire, now),
                },
                SaleType::CollectionBid => if token_id is Some {
                    Err(ContractError::WrongConfig)
                } else {
                    collection_bid_store_result(expire, now)
                },
                SaleType::FixedPrice => match token_id {
                    None => Err(ContractError::WrongConfig),
                    Some(t) => fixed_price_result(m, nft_address, t, tc.denom@, amount, now),
                },
            }
        },
    }
}

/// Places a token-funded offer: the caller is a registered token contract
/// reporting a completed transfer of `amount` from `bidder`; the payment's
/// denomination is the one the contract is registered under.
pub fn execute_receive(
    m: &mut Marketplace,
    token_contract: &String,
    bidder: String,
    amount: u128,
    nft_address: String,
    token_id: Option<String>,
    expire: u64,
    sale_type: SaleType,
    now: u64,
) -> (r: Result<Vec<TransferInstruction>, ContractError>)
    requires
        old(m).wf(),
        sale_type == SaleType::FixedPrice ==> (match token_id {
            Some(t) => match old(m).spec_ask(nft_address@, t@) {
                Some(ask) => old(m).spec_tvl_amount(nft_address@, ask.list_price.denom@)
                    + ask.list_price.amount <= u128::MAX,
                None => true,
            },
            None => true,
        }),
    ensures
        final(m).wf(),
        outcome(r) == receive_result(
            *old(m),
            token_contract@,
            amount,
            nft_address@,
            opt_string_view(token_id),
            expire,
            sale_type,
            now,
        ),
        sale_type == SaleType::Auction ==> (r matches Ok(instrs) ==> token_id matches Some(t)
            && old(m).spec_token_contract(token_contract@) matches Some(tc) && auction_bid_post(
            *old(m),
            *final(m),
            instrs@,
            nft_address,
            t,
            bidder,
            Asset { denom: tc.denom, amount },
            Some(*token_contract),
            expire,
        )),
        sale_type == SaleType::CollectionBid ==> (r matches Ok(instrs) ==> old(m).spec_token_contract(token_contract@) matches Some(tc) && collection_bid_post(
            *old(m),
            *final(m),
            instrs@,
            nft_address,
            bidder,
            Asset { denom: tc.denom, amount },
            Some(*token_contract),
            expire,
        )),
        sale_type == SaleType::FixedPrice ==> (r matches Ok(instrs) ==> token_id matches Some(t)
            && old(m).spec_collection_info(nft_address@) matches Some(ci) && settlement_post(
            *old(m),
            *final(m),
            instrs@,
            nft_address,
            t,
            bidder,
            Some(*token_contract),
            ci.royalty_portion,
            now,
        ) && final(m).collection_bids@ == old(m).collection_bids@ && config_unchanged(
            *old(m),
            *final(m),
        ) && registries_unchanged(*old(m), *final(m))),
        r is Err ==> state_unchanged(*old(m), *final(m)),
{
    let tk = exec_key1(token_contract);
    let tc = match table_get(&m.token_contracts, &tk) {
        Some(t) => t.clone(),
        None => {
            return Err(ContractError::TokenDenomMismatch);
        },
    };
    let ck = exec_key1(&nft_address);
    let ci = match table_get(&m.collection_infos, &ck) {
        Some(c) => c.clone(),
        None => {
            return Err(ContractError::UnknownCollection);
        },
    };
    match sale_type {
        SaleType::Auction => {
            let t = match token_id {
                Some(t) => t,
                None => {
                    return Err(ContractError::WrongConfig);
                },
            };
            place_auction_bid(
                m,
                nft_address,
                t,
                bidder,
                Asset { denom: tc.denom, amount },
                Some(token_contract.clone()),
                expire,
                now,
            )
        },
        SaleType::CollectionBid => {
            if token_id.is_some() {
                return Err(ContractError::WrongConfig);
            }
            place_collection_bid(
                m,
                nft_address,
                bidder,
                Asset { denom: tc.denom, amount },
                Some(token_contract.clone()),
                expire,
                now,
            )
        },
        SaleType::FixedPrice => {
            let t = match token_id {
                Some(t) => t,
                None => {
                    return Err(ContractError::WrongConfig);
                },
            };
            proof {
                crate::table::lemma_spec_get_in(m.collection_infos@, skey1(nft_address@));
                let civ = m.spec_collection_info(nft_address@)->Some_0;
                let wi = choose|wi: int|
                    0 <= wi < m.collection_infos@.len() && m.collection_infos@[wi] == civ;
                assert(civ.royalty_portion <= DECIMAL_FRACTIONAL);
            }
            settle_fixed_price(
                m,
                nft_address,
                t,
                bidder,
                &tc.denom,
                amount,
                Some(token_contract.clone()),
                ci.royalty_portion,
                now,
            )
        },
    }
}

/// What accepting a collection bid decides: the collection must be
/// registered with a member list, no payment may be attached, and the
/// named collection bid must exist and not be expired. When the item
/// carries an ask, only that ask's seller may accept and the ask must not
/// be expired; when it carries none, the caller is taken as the seller with
/// no further ownership check.
pub open spec fn accept_collection_bid_result(
    m: Marketplace,
    sender: Seq<char>,
    funds: Seq<Asset>,
    nft_address: Seq<char>,
    token_id: Seq<char>,
    bidder: Seq<char>,
    now: u64,
) -> Result<(), ContractError> {
    if m.spec_collection_info(nft_address) is None {
        Err(ContractError::UnknownCollection)
    } else if funds.len() != 0 {
        Err(ContractError::TooMuchFunds)
    } else {
        match m.spec_collection_bid(nft_address, bidder) {
            None => Err(ContractError::NoData),
            Some(bid) => if bid.expires_at <= now {
                Err(ContractError::BidExpired)
            } else {
                match m.spec_ask(nft_address, token_id) {
                    Some(ask) => if ask.seller@ != sender {
                        Err(ContractError::Unauthorized)
                    } else if ask.expires_at <= now {
                        Err(ContractError::AskExpired)
                    } else if m.spec_members(nft_address) is None {
                        Err(ContractError::NoData)
                    } else {
                        Ok(())
                    },
                    None => if m.spec_members(nft_address) is None {
                        Err(ContractError::NoData)
                    } else {
                        Ok(())
                    },
                }
            },
        }
    }
}

/// Accepts a standing collection bid against one item. With an ask stored
/// for the item the flow is the seller's: the ask goes and every bid on the
/// item is swept with refunds; without one, the caller is taken as the
/// seller directly. Either way the collection bid is removed, the sale
/// booked at the bid's price, and the proceeds distributed, the NFT going
/// to the bidder.
pub fn execute_accept_collection_bid(
    m: &mut Marketplace,
    sender: &String,
    funds: &Vec<Asset>,
    nft_address: String,
    token_id: String,
    bidder: String,
    now: u64,
) -> (r: Result<Vec<TransferInstruction>, ContractError>)
    requires
        old(m).wf(),
        old(m).spec_collection_bid(nft_address@, bidder@) matches Some(bid) ==> old(m).spec_tvl_amount(nft_address@, bid.list_price.denom@) + bid.list_price.amount
            <= u128::MAX,
    ensures
        final(m).wf(),
        outcome(r) == accept_collection_bid_result(
            *old(m),
            sender@,
            funds@,
            nft_address@,
            token_id@,
            bidder@,
            now,
        ),
        r is Ok ==> final(m).collection_bids@ == remove_key(
            old(m).collection_bids@,
            skey2(nft_address@, bidder@),
        ),
        r is Ok && old(m).spec_ask(nft_address@, token_id@) is Some ==> final(m).asks@
            == remove_key(old(m).asks@, skey2(nft_address@, token_id@)) && final(m).bids@
            == swept_bids(old(m).bids@, nft_address@, token_id@),
        r is Ok && old(m).spec_ask(nft_address@, token_id@) is None ==> final(m).asks@ == old(m).asks@ && final(m).bids@ == old(m).bids@,
        r matches Ok(instrs) ==> (old(m).spec_collection_bid(nft_address@, bidder@) matches Some(
            bid,
        ) && old(m).spec_members(nft_address@) matches Some(cm) && old(m).spec_collection_info(
            nft_address@,
        ) matches Some(ci) && {
            let seller = match old(m).spec_ask(nft_address@, token_id@) {
                Some(ask) => ask.seller,
                None => *sender,
            };
            let sweep_part: Seq<TransferInstruction> = match old(m).spec_ask(
                nft_address@,
                token_id@,
            ) {
                Some(ask) => refunds_for(
                    refunded_bids(old(m).bids@, nft_address@, token_id@, None),
                ),
                None => Seq::empty(),
            };
            &&& final(m).sale_history@ == insert_sorted(
                old(m).sale_history@,
                SaleInfo {
                    from: seller,
                    to: bidder,
                    denom: bid.list_price.denom,
                    amount: bid.list_price.amount,
                    time: now / NANOS_PER_SECOND,
                    collection: nft_address,
                    token_id,
                },
            )
            &&& final(m).tvl@ == insert_sorted(
                old(m).tvl@,
                TvlInfo {
                    denom: bid.list_price.denom,
                    amount: (old(m).spec_tvl_amount(nft_address@, bid.list_price.denom@)
                        + bid.list_price.amount) as u128,
                    collection: nft_address,
                },
            )
            &&& instrs@ == sweep_part + distribution_instrs(
                cm.members@,
                ci.royalty_portion,
                seller,
                bidder,
                bid.list_price,
                bid.token_address,
                nft_address,
                token_id,
            )
        }),
        r is Ok ==> config_unchanged(*old(m), *final(m)) && registries_unchanged(
            *old(m),
            *final(m),
        ),
        r is Err ==> state_unchanged(*old(m), *final(m)),
{
    let ck = exec_key1(&nft_address);
    let ci = match table_get(&m.collection_infos, &ck) {
        Some(c) => c.clone(),
        None => {
            return Err(ContractError::UnknownCollection);
        },
    };
    if let Err(e) = nonpayable(funds) {
        return Err(e);
    }
    let cbk = exec_key2(&nft_address, &bidder);
    let bid = match table_get(&m.collection_bids, &cbk) {
        Some(b) => b.clone(),
        None => {
            return Err(ContractError::NoData);
        },
    };
    if bid.is_expired(now) {
        return Err(ContractError::BidExpired);
    }
    let ak = exec_key2(&nft_address, &token_id);
    let ask_opt = match table_get(&m.asks, &ak) {
        Some(a) => Some(a.clone()),
        None => None,
    };
    let seller = match &ask_opt {
        Some(ask) => {
            if !(ask.seller == *sender) {
                return Err(ContractError::Unauthorized);
            }
            if ask.is_expired(now) {
                return Err(ContractError::AskExpired);
            }
            ask.seller.clone()
        },
        None => sender.clone(),
    };
    let mk = exec_key1(&nft_address);
    if table_get(&m.members, &mk).is_none() {
        return Err(ContractError::NoData);
    }
    proof {
        crate::table::lemma_spec_get_in(m.collection_infos@, skey1(nft_address@));
        let civ = m.spec_collection_info(nft_address@)->Some_0;
        let wi = choose|wi: int|
            0 <= wi < m.collection_infos@.len() && m.collection_infos@[wi] == civ;
        assert(civ.royalty_portion <= DECIMAL_FRACTIONAL);
    }
    table_remove(&mut m.collection_bids, &cbk);
    let mut messages: Vec<TransferInstruction> = Vec::new();
    if ask_opt.is_some() {
        table_remove(&mut m.asks, &ak);
        messages = sweep_item_bids(&mut m.bids, &nft_address, &token_id, None);
    }
    update_sale_history_tvl(
        m,
        seller.clone(),
        bidder.clone(),
        &nft_address,
        &token_id,
        &bid.list_price,
        now,
    );
    let dres = distribute_money(
        &*m,
        &nft_address,
        ci.royalty_portion,
        seller,
        bidder.clone(),
        bid.list_price.clone(),
        crate::state::clone_opt_string(&bid.token_address),
        token_id.clone(),
        &mut messages,
    );
    match dres {
        Ok(()) => Ok(messages),
        Err(e) => {
            proof {
                assert(false);
            }
            Err(e)
        },
    }
}

/// What any owner-only operation decides: only the owner may.
pub open spec fn owner_only_result(m: Marketplace, sender: Seq<char>) -> Result<
    (),
    ContractError,
> {
    if sender != m.config.owner@ {
        Err(ContractError::Unauthorized)
    } else {
        Ok(())
    }
}

/// The aggregates after a bulk overwrite: entries applied in order, each
/// keyed and stored under the named collection.
pub open spec fn tvl_after_overwrite(
    s: Seq<TvlInfo>,
    address: String,
    entries: Seq<TvlInfo>,
) -> Seq<TvlInfo>
    decreases entries.len(),
{
    if entries.len() == 0 {
        s
    } else {
        tvl_after_overwrite(
            insert_sorted(
                s,
                TvlInfo {
                    denom: entries[0].denom,
                    amount: entries[0].amount,
                    collection: address,
                },
            ),
            address,
            entries.skip(1),
        )
    }
}

/// Bulk-overwrites locked-value aggregates for one collection, for
/// migration and backfill. Owner only.
pub fn execute_set_tvl(
    m: &mut Marketplace,
    sender: &String,
    address: String,
    tvl: Vec<TvlInfo>,
) -> (r: Result<(), ContractError>)
    requires
        old(m).wf(),
    ensures
        final(m).wf(),
        r == owner_only_result(*old(m), sender@),
        r is Ok ==> final(m).tvl@ == tvl_after_overwrite(old(m).tvl@, address, tvl@),
        r is Ok ==> config_unchanged(*old(m), *final(m)) && registries_unchanged(
            *old(m),
            *final(m),
        ) && ledgers_unchanged(*old(m), *final(m)) && final(m).sale_history@ == old(m).sale_history@,
        r is Err ==> state_unchanged(*old(m), *final(m)),
{
    if !(*sender == m.config.owner) {
        return Err(ContractError::Unauthorized);
    }
    let ghost orig = m.tvl@;
    let n = tvl.len();
    let mut i: usize = 0;
    proof {
        assert(tvl@.skip(0) =~= tvl@);
    }
    while i < n
        invariant
            i <= n,
            n == tvl@.len(),
            sorted_by_key(m.tvl@),
            tvl_after_overwrite(m.tvl@, address, tvl@.skip(i as int)) == tvl_after_overwrite(
                orig,
                address,
                tvl@,
            ),
            orig == old(m).tvl@,
            m.config == old(m).config,
            m.collection_infos@ == old(m).collection_infos@,
            m.members@ == old(m).members@,
            m.token_contracts@ == old(m).token_contracts@,
            m.coin_denoms@ == old(m).coin_denoms@,
            m.asks@ == old(m).asks@,
            m.bids@ == old(m).bids@,
            m.collection_bids@ == old(m).collection_bids@,
            m.sale_history@ == old(m).sale_history@,
        decreases n - i,
    {
        proof {
            assert(tvl@.skip(i as int).skip(1) =~= tvl@.skip(i + 1));
            assert(tvl@.skip(i as int)[0] == tvl@[i as int]);
        }
        let e = &tvl[i];
        table_upsert(
            &mut m.tvl,
            TvlInfo { denom: e.denom.clone(), amount: e.amount, collection: address.clone() },
        );
        i = i + 1;
    }
    proof {
        assert(tvl@.skip(n as int) =~= Seq::<TvlInfo>::empty());
    }
    Ok(())
}

/// The sale history after a bulk overwrite: entries applied in order, each
/// keyed and stored under the named collection.
pub open spec fn history_after_overwrite(
    s: Seq<SaleInfo>,
    address: String,
    entries: Seq<SaleInfo>,
) -> Seq<SaleInfo>
    decreases entries.len(),
{
    if entries.len() == 0 {
        s
    } else {
        history_after_overwrite(
            insert_sorted(
                s,
                SaleInfo {
                    from: entries[0].from,
                    to: entries[0].to,
                    denom: entries[0].denom,
                    amount: entries[0].amount,
                    time: entries[0].time,
                    collection: address,
                    token_id: entries[0].token_id,
                },
            ),
            address,
            entries.skip(1),
        )
    }
}

/// Bulk-overwrites sale history for one collection, for migration and
/// backfill. Owner only.
pub fn execute_history(
    m: &mut Marketplace,
    sender: &String,
    address: String,
    history: Vec<SaleInfo>,
) -> (r: Result<(), ContractError>)
    requires
        old(m).wf(),
    ensures
        final(m).wf(),
        r == owner_only_result(*old(m), sender@),
        r is Ok ==> final(m).sale_history@ == history_after_overwrite(
            old(m).sale_history@,
            address,
            history@,
        ),
        r is Ok ==> config_unchanged(*old(m), *final(m)) && registries_unchanged(
            *old(m),
            *final(m),
        ) && ledgers_unchanged(*old(m), *final(m)) && final(m).tvl@ == old(m).tvl@,
        r is Err ==> state_unchanged(*old(m), *final(m)),
{
    if !(*sender == m.config.owner) {
        return Err(ContractError::Unauthorized);
    }
    let ghost orig = m.sale_history@;
    let n = history.len();
    let mut i: usize = 0;
    proof {
        assert(history@.skip(0) =~= history@);
    }
    while i < n
        invariant
            i <= n,
            n == history@.len(),
            sorted_by_key(m.sale_history@),
            history_after_overwrite(m.sale_history@, address, history@.skip(i as int))
                == history_after_overwrite(orig, address, history@),
            orig == old(m).sale_history@,
            m.config == old(m).config,
            m.collection_infos@ == old(m).collection_infos@,
            m.members@ == old(m).members@,
            m.token_contracts@ == old(m).token_contracts@,
            m.coin_denoms@ == old(m).coin_denoms@,
            m.asks@ == old(m).asks@,
            m.bids@ == old(m).bids@,
            m.collection_bids@ == old(m).collection_bids@,
            m.tvl@ == old(m).tvl@,
        decreases n - i,
    {
        proof {
            assert(history@.skip(i as int).skip(1) =~= history@.skip(i + 1));
            assert(history@.skip(i as int)[0] == history@[i as int]);
        }
        let e = &history[i];
        table_upsert(
            &mut m.sale_history,
            SaleInfo {
                from: e.from.clone(),
                to: e.to.clone(),
                denom: e.denom.clone(),
                amount: e.amount,
                time: e.time,
                collection: address.clone(),
                token_id: e.token_id.clone(),
            },
        );
        i = i + 1;
    }
    proof {
        assert(history@.skip(n as int) =~= Seq::<SaleInfo>::empty());
    }
    Ok(())
}

/// The ask ledger after a bulk restore: offerings applied in order, each
/// stored under the named collection with a fresh deadline.
pub open spec fn asks_after_overwrite(
    s: Seq<Ask>,
    address: String,
    entries: Seq<QueryOfferingsResult>,
    expires_at: u64,
) -> Seq<Ask>
    decreases entries.len(),
{
    if entries.len() == 0 {
        s
    } else {
        asks_after_overwrite(
            insert_sorted(
                s,
                Ask {
                    token_id: entries[0].token_id,
                    seller: entries[0].seller,
                    list_price: entries[0].list_price,
                    expires_at,
                    collection: address,
                },
            ),
            address,
            entries.skip(1),
            expires_at,
        )
    }
}

/// Bulk-restores listings for one collection, each expiring a fixed
/// lifetime after the call. Owner only.
pub fn execute_set_offerings(
    m: &mut Marketplace,
    sender: &String,
    address: String,
    offering: Vec<QueryOfferingsResult>,
    now: u64,
) -> (r: Result<(), ContractError>)
    requires
        old(m).wf(),
        now / NANOS_PER_SECOND + OFFERING_LIFETIME_SECONDS <= u64::MAX / NANOS_PER_SECOND,
    ensures
        final(m).wf(),
        r == owner_only_result(*old(m), sender@),
        r is Ok ==> final(m).asks@ == asks_after_overwrite(
            old(m).asks@,
            address,
            offering@,
            ((now / NANOS_PER_SECOND + OFFERING_LIFETIME_SECONDS) * NANOS_PER_SECOND) as u64,
        ),
        r is Ok ==> config_unchanged(*old(m), *final(m)) && registries_unchanged(
            *old(m),
            *final(m),
        ) && books_unchanged(*old(m), *final(m)) && final(m).bids@ == old(m).bids@ && final(m).collection_bids@ == old(m).collection_bids@,
        r is Err ==> state_unchanged(*old(m), *final(m)),
{
    if !(*sender == m.config.owner) {
        return Err(ContractError::Unauthorized);
    }
    let expires_at = (now / NANOS_PER_SECOND + OFFERING_LIFETIME_SECONDS) * NANOS_PER_SECOND;
    let ghost orig = m.asks@;
    let n = offering.len();
    let mut i: usize = 0;
    proof {
        assert(offering@.skip(0) =~= offering@);
    }
    while i < n
        invariant
            i <= n,
            n == offering@.len(),
            sorted_by_key(m.asks@),
            asks_after_overwrite(m.asks@, address, offering@.skip(i as int), expires_at)
                == asks_after_overwrite(orig, address, offering@, expires_at),
            orig == old(m).asks@,
            m.config == old(m).config,
            m.collection_infos@ == old(m).collection_infos@,
            m.members@ == old(m).members@,
            m.token_contracts@ == old(m).token_contracts@,
            m.coin_denoms@ == old(m).coin_denoms@,
            m.bids@ == old(m).bids@,
            m.collection_bids@ == old(m).collection_bids@,
            m.sale_history@ == old(m).sale_history@,
            m.tvl@ == old(m).tvl@,
        decreases n - i,
    {
        proof {
            assert(offering@.skip(i as int).skip(1) =~= offering@.skip(i + 1));
            assert(offering@.skip(i as int)[0] == offering@[i as int]);
        }
        let e = &offering[i];
        table_upsert(
            &mut m.asks,
            Ask {
                token_id: e.token_id.clone(),
                seller: e.seller.clone(),
                list_price: e.list_price.clone(),
                expires_at,
                collection: address.clone(),
            },
        );
        i = i + 1;
    }
    proof {
        assert(offering@.skip(n as int) =~= Seq::<QueryOfferingsResult>::empty());
    }
    Ok(())
}

} // verus!
