//! The library's laws: what the contracts of the operations, taken
//! together, guarantee of every run — stated and proved once, over the same
//! spec functions the operations' own contracts use.

use vstd::prelude::*;
use crate::contract::{
    Marketplace, auction_bid_post, bid_on_item, bids_on_item, distribution_instrs,
    member_pay_instr, pay_instruction, refund_instruction, refunded_bids, refunds_for,
    royalty_base, seller_residual, skey2, swept_bids,
};
use crate::decimal::{
    DECIMAL_FRACTIONAL, mul_floor, sum_payments, sum_portions, lemma_sum_payments_bound,
};
use crate::keys::{key_lt, lemma_key_lt_irrefl};
use crate::msg::TransferInstruction;
use crate::state::{Ask, Asset, Bid, TvlInfo, UserInfo};
use crate::table::{
    Keyed, insert_sorted, remove_key, lemma_remove_key_self, lemma_insert_sorted_get_self,
    lemma_insert_sorted_get_other,
};

verus! {

/// After a sweep, the item carries no bid at all.
proof fn lemma_swept_clears_item(s: Seq<Bid>, c: Seq<char>, t: Seq<char>)
    ensures
        bids_on_item(swept_bids(s, c, t), c, t).len() == 0,
    decreases s.len(),
{
    reveal(Seq::filter);
    if s.len() > 0 {
        lemma_swept_clears_item(s.drop_last(), c, t);
        let sw = swept_bids(s, c, t);
        let swd = swept_bids(s.drop_last(), c, t);
        if !bid_on_item(s.last(), c, t) {
            assert(sw == swd.push(s.last()));
            assert(sw.drop_last() =~= swd);
            assert(sw.last() == s.last());
        } else {
            assert(sw == swd);
        }
    }
}

/// With no bidder excepted, the refunded bids are exactly the item's bids.
proof fn lemma_refunded_all_eq_on_item(s: Seq<Bid>, c: Seq<char>, t: Seq<char>)
    ensures
        refunded_bids(s, c, t, None) == bids_on_item(s, c, t),
    decreases s.len(),
{
    reveal(Seq::filter);
    if s.len() == 0 {
        assert(refunded_bids(s, c, t, None) =~= bids_on_item(s, c, t));
    } else {
        lemma_refunded_all_eq_on_item(s.drop_last(), c, t);
        assert(refunded_bids(s, c, t, None) =~= bids_on_item(s, c, t));
    }
}

/// A successful listing followed by the seller's successful withdrawal
/// leaves no ask and no bid for the item, and pays out exactly one refund
/// per bid that was on the item — in the ledger's ascending bidder order —
/// followed by one instruction returning the NFT to the seller.
pub proof fn law_list_then_withdraw(
    pre: Marketplace,
    mid: Marketplace,
    post: Marketplace,
    instrs: Seq<TransferInstruction>,
    nft_address: String,
    seller: String,
    token_id: String,
    list_price: Asset,
    expire: u64,
)
    requires
        pre.wf(),
        // the listing's effect, as `execute_receive_nft` ensures on success
        mid.asks@ == insert_sorted(
            pre.asks@,
            Ask { token_id, seller, list_price, expires_at: expire, collection: nft_address },
        ),
        mid.bids@ == pre.bids@,
        // the withdrawal's effect, as `execute_withdraw` ensures on success
        post.asks@ == remove_key(mid.asks@, skey2(nft_address@, token_id@)),
        post.bids@ == swept_bids(mid.bids@, nft_address@, token_id@),
        mid.spec_ask(nft_address@, token_id@) matches Some(ask) && instrs == refunds_for(
            refunded_bids(mid.bids@, nft_address@, token_id@, None),
        ) + seq![
            TransferInstruction::Nft { contract: nft_address, to: ask.seller, token_id },
        ],
    ensures
        post.spec_ask(nft_address@, token_id@) is None,
        bids_on_item(post.bids@, nft_address@, token_id@).len() == 0,
        instrs == refunds_for(bids_on_item(pre.bids@, nft_address@, token_id@)) + seq![
            TransferInstruction::Nft { contract: nft_address, to: seller, token_id },
        ],
{
    let listed = Ask { token_id, seller, list_price, expires_at: expire, collection: nft_address };
    crate::table::lemma_insert_sorted_sorted(pre.asks@, listed);
    lemma_remove_key_self(mid.asks@, skey2(nft_address@, token_id@));
    lemma_swept_clears_item(mid.bids@, nft_address@, token_id@);
    lemma_refunded_all_eq_on_item(mid.bids@, nft_address@, token_id@);
    lemma_insert_sorted_get_self(pre.asks@, listed);
}

/// At most one bid is stored per (collection, token id, bidder): any two
/// distinct stored bids differ in at least one key component.
pub proof fn law_bid_key_unique(m: Marketplace, i: int, j: int)
    requires
        m.wf(),
        0 <= i < j < m.bids@.len(),
    ensures
        !(m.bids@[i].collection@ == m.bids@[j].collection@ && m.bids@[i].token_id@
            == m.bids@[j].token_id@ && m.bids@[i].bidder@ == m.bids@[j].bidder@),
{
    assert(key_lt(m.bids@[i].skey(), m.bids@[j].skey()));
    lemma_key_lt_irrefl(m.bids@[i].skey());
}

/// A second bid by the same bidder on the same item yields exactly one
/// refund instruction, for the first bid's full amount by its own funding
/// channel, and the stored bid afterwards is the new one. (A second bid
/// that fails validation leaves the first untouched: every placement
/// operation guarantees an unchanged state on error.)
pub proof fn law_rebid_refunds_first(
    pre: Marketplace,
    post: Marketplace,
    instrs: Seq<TransferInstruction>,
    c_str: String,
    t_str: String,
    bidder_str: String,
    price: Asset,
    token: Option<String>,
    expire: u64,
    old_bid: Bid,
)
    requires
        pre.wf(),
        pre.spec_bid(c_str@, t_str@, bidder_str@) == Some(old_bid),
        auction_bid_post(pre, post, instrs, c_str, t_str, bidder_str, price, token, expire),
    ensures
        instrs =~= seq![refund_instruction(old_bid)],
        instrs.len() == 1,
        post.spec_bid(c_str@, t_str@, bidder_str@) matches Some(nb) && nb.list_price == price
            && nb.bidder@ == bidder_str@ && nb.expires_at == expire,
{
    let ask = pre.spec_ask(c_str@, t_str@)->Some_0;
    let nb = Bid {
        collection: c_str,
        token_id: t_str,
        bidder: bidder_str,
        list_price: price,
        expires_at: expire,
        token_address: token,
        seller: ask.seller,
    };
    lemma_insert_sorted_get_self(pre.bids@, nb);
}

/// Distribution is amount-conserving: every member's cut plus the seller's
/// residual equals the settled amount exactly; whatever the truncating
/// member scalings drop is absorbed into the seller's residual, never lost
/// and never paid twice.
pub proof fn law_distribution_conserves(members: Seq<UserInfo>, amount: u128, royalty: u128)
    requires
        royalty <= DECIMAL_FRACTIONAL,
        sum_portions(members) == DECIMAL_FRACTIONAL,
    ensures
        0 <= sum_payments(members, royalty_base(amount, royalty)),
        sum_payments(members, royalty_base(amount, royalty)) + seller_residual(
            members,
            amount,
            royalty,
        ) == amount,
        seller_residual(members, amount, royalty) >= amount - royalty_base(amount, royalty),
{
    lemma_sum_payments_bound(members, royalty_base(amount, royalty));
    crate::decimal::lemma_mul_floor_bounds(amount, royalty);
}

/// The amount carried by one instruction; an NFT handover carries none.
pub open spec fn instr_amount(i: TransferInstruction) -> int {
    match i {
        TransferInstruction::Native { amount, .. } => amount as int,
        TransferInstruction::Token { amount, .. } => amount as int,
        TransferInstruction::Nft { .. } => 0,
    }
}

/// The total amount a sequence of instructions moves.
pub open spec fn instrs_total(s: Seq<TransferInstruction>) -> int
    decreases s.len(),
{
    if s.len() == 0 {
        0
    } else {
        instr_amount(s[0]) + instrs_total(s.skip(1))
    }
}

proof fn lemma_instrs_total_split(a: Seq<TransferInstruction>, b: Seq<TransferInstruction>)
    ensures
        instrs_total(a + b) == instrs_total(a) + instrs_total(b),
    decreases a.len(),
{
    if a.len() == 0 {
        assert(a + b =~= b);
    } else {
        lemma_instrs_total_split(a.skip(1), b);
        assert((a + b).skip(1) =~= a.skip(1) + b);
        assert((a + b)[0] == a[0]);
    }
}

proof fn lemma_member_map_total(
    members: Seq<UserInfo>,
    royalty: u128,
    price: Asset,
    token: Option<String>,
)
    requires
        forall|i: int|
            0 <= i < members.len() ==> (#[trigger] members[i]).portion <= DECIMAL_FRACTIONAL,
    ensures
        instrs_total(
            members.map_values(|u: UserInfo| member_pay_instr(u, royalty, price, token)),
        ) == sum_payments(members, royalty_base(price.amount, royalty)),
    decreases members.len(),
{
    let f = |u: UserInfo| member_pay_instr(u, royalty, price, token);
    let mapped = members.map_values(f);
    let base = royalty_base(price.amount, royalty);
    if members.len() == 0 {
        assert(mapped.len() == 0);
        assert(instrs_total(mapped) == 0);
    } else {
        assert(forall|i: int|
            0 <= i < members.skip(1).len() ==> (#[trigger] members.skip(1)[i]).portion
                <= DECIMAL_FRACTIONAL);
        lemma_member_map_total(members.skip(1), royalty, price, token);
        assert(mapped.skip(1) =~= members.skip(1).map_values(f));
        assert(mapped[0] == f(members[0]));
        crate::decimal::lemma_mul_floor_bounds(base, members[0].portion);
        assert(instr_amount(mapped[0]) == mul_floor(base, members[0].portion));
        assert(instrs_total(mapped) == instr_amount(mapped[0]) + instrs_total(mapped.skip(1)));
    }
}

/// Distribution is amount-conserving at the instruction level: the
/// instructions a settlement emits for one sale move exactly the sale's
/// amount, whatever the royalty portion and member shares.
pub proof fn law_distribution_instrs_conserve(
    members: Seq<UserInfo>,
    royalty: u128,
    seller: String,
    recipient: String,
    price: Asset,
    token: Option<String>,
    collection: String,
    token_id: String,
)
    requires
        royalty <= DECIMAL_FRACTIONAL,
        sum_portions(members) == DECIMAL_FRACTIONAL,
    ensures
        instrs_total(
            distribution_instrs(
                members,
                royalty,
                seller,
                recipient,
                price,
                token,
                collection,
                token_id,
            ),
        ) == price.amount,
{
    let mapped = members.map_values(
        |u: UserInfo| member_pay_instr(u, royalty, price, token),
    );
    let tail = seq![
        pay_instruction(
            seller,
            price.denom,
            seller_residual(members, price.amount, royalty),
            token,
        ),
        TransferInstruction::Nft { contract: collection, to: recipient, token_id },
    ];
    lemma_instrs_total_split(mapped, tail);
    assert(forall|i: int|
        0 <= i < members.len() ==> (#[trigger] members[i]).portion <= DECIMAL_FRACTIONAL) by {
        assert forall|i: int|
            0 <= i < members.len() implies (#[trigger] members[i]).portion
            <= DECIMAL_FRACTIONAL by {
            crate::decimal::lemma_portion_le_sum(members, i);
        }
    }
    lemma_member_map_total(members, royalty, price, token);
    assert(instrs_total(tail) == seller_residual(members, price.amount, royalty) as int) by {
        let t1 = tail.skip(1);
        assert(t1 =~= seq![
            TransferInstruction::Nft { contract: collection, to: recipient, token_id },
        ]);
        assert(t1.skip(1) =~= Seq::<TransferInstruction>::empty());
        assert(instrs_total(t1.skip(1)) == 0);
        assert(instr_amount(t1[0]) == 0);
        assert(instrs_total(t1) == 0);
        assert(instr_amount(tail[0]) == seller_residual(members, price.amount, royalty) as int);
        assert(instrs_total(tail) == instr_amount(tail[0]) + instrs_total(t1));
    }
    law_distribution_conserves(members, price.amount, royalty);
}

/// Accepting a bid removes the target ask and sweeps every bid on the item,
/// the accepted one included: afterwards the item carries no ask and no bid.
pub proof fn law_accept_bid_clears_item(
    pre: Marketplace,
    post: Marketplace,
    c: Seq<char>,
    t: Seq<char>,
)
    requires
        pre.wf(),
        post.asks@ == remove_key(pre.asks@, skey2(c, t)),
        post.bids@ == swept_bids(pre.bids@, c, t),
    ensures
        post.spec_ask(c, t) is None,
        bids_on_item(post.bids@, c, t).len() == 0,
{
    lemma_remove_key_self(pre.asks@, skey2(c, t));
    lemma_swept_clears_item(pre.bids@, c, t);
}

/// One settlement's effect on the aggregate it touches, as every
/// settlement ensures it: the stored amount grows by exactly the settled
/// amount, and no other aggregate moves.
pub proof fn law_settlement_grows_tvl(
    pre: Marketplace,
    post: Marketplace,
    rec: TvlInfo,
    amount: u128,
)
    requires
        pre.wf(),
        post.tvl@ == insert_sorted(pre.tvl@, rec),
        rec.amount == pre.spec_tvl_amount(rec.collection@, rec.denom@) + amount,
    ensures
        post.spec_tvl_amount(rec.collection@, rec.denom@) == pre.spec_tvl_amount(
            rec.collection@,
            rec.denom@,
        ) + amount,
        forall|c2: Seq<char>, d2: Seq<char>|
            skey2(c2, d2) != skey2(rec.collection@, rec.denom@) ==> post.spec_tvl_amount(c2, d2)
                == pre.spec_tvl_amount(c2, d2),
{
    lemma_insert_sorted_get_self(pre.tvl@, rec);
    assert forall|c2: Seq<char>, d2: Seq<char>|
        skey2(c2, d2) != skey2(rec.collection@, rec.denom@) implies post.spec_tvl_amount(c2, d2)
        == pre.spec_tvl_amount(c2, d2) by {
        lemma_insert_sorted_get_other(pre.tvl@, rec, skey2(c2, d2));
    }
}

/// The sum of a run of settled amounts.
pub open spec fn amounts_sum(amounts: Seq<u128>) -> int
    decreases amounts.len(),
{
    if amounts.len() == 0 {
        0
    } else {
        amounts_sum(amounts.drop_last()) + amounts.last()
    }
}

/// The locked-value aggregate is a monotone running total: over any run of
/// settlements on one (collection, denomination), each growing the
/// aggregate by its own amount, the final aggregate is the initial one
/// plus the sum of all the amounts — whatever the settlement order.
pub proof fn law_tvl_accumulates(
    states: Seq<Marketplace>,
    amounts: Seq<u128>,
    c: Seq<char>,
    d: Seq<char>,
)
    requires
        states.len() == amounts.len() + 1,
        forall|i: int|
            0 <= i < amounts.len() ==> states[i + 1].spec_tvl_amount(c, d) == states[i].spec_tvl_amount(
                c,
                d,
            ) + #[trigger] amounts[i],
    ensures
        states.last().spec_tvl_amount(c, d) == states[0].spec_tvl_amount(c, d) + amounts_sum(
            amounts,
        ),
    decreases amounts.len(),
{
    if amounts.len() > 0 {
        let n = amounts.len() as int;
        law_tvl_accumulates(states.drop_last(), amounts.drop_last(), c, d);
        assert(states.drop_last()[0] == states[0]);
        assert(states.drop_last().last() == states[n - 1]);
        assert(states[n] == states.last());
        assert(states[n].spec_tvl_amount(c, d) == states[n - 1].spec_tvl_amount(c, d) + amounts[n
            - 1]);
    }
}

} // verus!