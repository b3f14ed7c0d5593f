//! Fixed-point ratios with eighteen fractional digits, and the truncating
//! multiply the royalty split is built on.
//!
//! A ratio `r` stands for the rational `r / DECIMAL_FRACTIONAL`. Scaling an
//! amount by a ratio truncates toward zero; the lemmas below bound what the
//! members' truncated cuts can sum to, which is what lets the seller's
//! residual absorb the dropped remainders exactly.

use vstd::prelude::*;
use vstd::arithmetic::div_mod::{
    lemma_hoist_over_denominator, lemma_fundamental_div_mod, lemma_div_pos_is_pos,
    lemma_div_by_multiple, lemma_div_is_ordered,
};
use vstd::arithmetic::mul::{
    lemma_mul_is_distributive_add, lemma_mul_is_distributive_add_other_way,
    lemma_mul_is_commutative, lemma_mul_inequality,
    lemma_mul_is_associative, lemma_mul_upper_bound, lemma_mul_nonnegative,
};
use crate::state::UserInfo;

verus! {

/// One whole, in fixed-point atomics.
pub const DECIMAL_FRACTIONAL: u128 = 1_000_000_000_000_000_000;

/// `amount` scaled by the ratio `ratio / DECIMAL_FRACTIONAL`, truncated
/// toward zero.
pub open spec fn mul_floor(amount: u128, ratio: u128) -> int {
    (amount as int) * (ratio as int) / (DECIMAL_FRACTIONAL as int)
}

/// Floor division distributes over a sum up to the carried remainders:
/// `x/d + y/d <= (x+y)/d`.
proof fn lemma_div_subadditive(x: int, y: int, d: int)
    requires
        0 <= x,
        0 <= y,
        0 < d,
    ensures
        x / d + y / d <= (x + y) / d,
{
    lemma_fundamental_div_mod(x, d);
    lemma_fundamental_div_mod(y, d);
    assert(x + y == d * (x / d + y / d) + (x % d + y % d)) by {
        lemma_mul_is_distributive_add(d, x / d, y / d);
    }
    lemma_hoist_over_denominator(x % d + y % d, x / d + y / d, d as nat);
    assert((x % d + y % d) / d + (x / d + y / d) == ((x % d + y % d) + (x / d + y / d) * d) / d);
    assert((x % d + y % d) + (x / d + y / d) * d == x + y) by {
        lemma_mul_is_commutative(x / d + y / d, d);
    }
    lemma_div_pos_is_pos(x % d + y % d, d);
}

/// Computes `mul_floor` without overflow: the product is split at the
/// fixed-point unit so every intermediate fits in 128 bits.
pub fn decimal_mul_floor(amount: u128, ratio: u128) -> (r: u128)
    requires
        ratio <= DECIMAL_FRACTIONAL,
    ensures
        r == mul_floor(amount, ratio),
        r <= amount,
{
    let d = DECIMAL_FRACTIONAL;
    let hi = amount / d;
    let lo = amount % d;
    proof {
        lemma_fundamental_div_mod(amount as int, d as int);
        lemma_mul_upper_bound(lo as int, d as int - 1, ratio as int, d as int);
        lemma_mul_inequality(ratio as int, d as int, hi as int);
        lemma_mul_nonnegative(hi as int, ratio as int);
        assert(hi as int * d as int <= amount) by {
            lemma_mul_is_commutative(hi as int, d as int);
        }
        assert(hi as int * ratio as int <= hi as int * d as int) by {
            lemma_mul_is_commutative(hi as int, ratio as int);
            lemma_mul_is_commutative(hi as int, d as int);
        }
    }
    let part = (lo * ratio) / d;
    proof {
        lemma_div_pos_is_pos(lo as int * ratio as int, d as int);
        assert((lo as int * ratio as int) / d as int <= (lo as int * d as int) / d as int) by {
            lemma_mul_inequality(ratio as int, d as int, lo as int);
            lemma_mul_is_commutative(ratio as int, lo as int);
            lemma_mul_is_commutative(d as int, lo as int);
            lemma_div_is_ordered(lo as int * ratio as int, lo as int * d as int, d as int);
        }
        assert((lo as int * d as int) / d as int == lo as int) by {
            lemma_div_by_multiple(lo as int, d as int);
        }
        assert(part <= lo);
    }
    let r = hi * ratio + part;
    proof {
        assert(amount as int * ratio as int == (hi as int * ratio as int) * d as int + lo as int
            * ratio as int) by {
            assert((d as int * hi as int + lo as int) * ratio as int == (d as int * hi as int)
                * ratio as int + lo as int * ratio as int) by {
                lemma_mul_is_distributive_add_other_way(
                    ratio as int,
                    d as int * hi as int,
                    lo as int,
                );
            }
            assert((d as int * hi as int) * ratio as int == (hi as int * ratio as int)
                * d as int) by {
                lemma_mul_is_associative(d as int, hi as int, ratio as int);
                lemma_mul_is_commutative(d as int, hi as int * ratio as int);
            }
        }
        lemma_hoist_over_denominator(
            lo as int * ratio as int,
            hi as int * ratio as int,
            d as nat,
        );
    }
    r
}

/// A truncating scale by a ratio of at most one never grows the amount.
pub proof fn lemma_mul_floor_bounds(amount: u128, ratio: u128)
    requires
        ratio <= DECIMAL_FRACTIONAL,
    ensures
        0 <= mul_floor(amount, ratio) <= amount,
{
    let d = DECIMAL_FRACTIONAL as int;
    lemma_mul_nonnegative(amount as int, ratio as int);
    lemma_div_pos_is_pos(amount as int * ratio as int, d);
    assert((amount as int * ratio as int) / d <= (amount as int * d) / d) by {
        lemma_mul_inequality(ratio as int, d, amount as int);
        lemma_mul_is_commutative(ratio as int, amount as int);
        lemma_mul_is_commutative(d, amount as int);
        lemma_div_is_ordered(amount as int * ratio as int, amount as int * d, d);
    }
    assert((amount as int * d) / d == amount as int) by {
        lemma_div_by_multiple(amount as int, d);
    }
}

/// The sum of the members' shares, in fixed-point atomics.
pub open spec fn sum_portions(members: Seq<UserInfo>) -> int
    decreases members.len(),
{
    if members.len() == 0 {
        0
    } else {
        members[0].portion + sum_portions(members.skip(1))
    }
}

/// The total paid to the members when each receives `base` scaled by its
/// own share.
pub open spec fn sum_payments(members: Seq<UserInfo>, base: u128) -> int
    decreases members.len(),
{
    if members.len() == 0 {
        0
    } else {
        mul_floor(base, members[0].portion) + sum_payments(members.skip(1), base)
    }
}

/// Every member's payment is a truncated scale of a non-negative base, so
/// no partial sum is negative.
pub proof fn lemma_sum_payments_nonneg(members: Seq<UserInfo>, base: u128)
    ensures
        0 <= sum_payments(members, base),
    decreases members.len(),
{
    if members.len() > 0 {
        lemma_sum_payments_nonneg(members.skip(1), base);
        lemma_mul_nonnegative(base as int, members[0].portion as int);
        lemma_div_pos_is_pos(base as int * members[0].portion as int, DECIMAL_FRACTIONAL as int);
    }
}

/// The payment sum splits at any index.
pub proof fn lemma_sum_payments_split(members: Seq<UserInfo>, base: u128, i: int)
    requires
        0 <= i <= members.len(),
    ensures
        sum_payments(members, base) == sum_payments(members.take(i), base) + sum_payments(
            members.skip(i),
            base,
        ),
    decreases i,
{
    if i == 0 {
        assert(members.take(0) =~= Seq::<UserInfo>::empty());
        assert(members.skip(0) =~= members);
    } else {
        lemma_sum_payments_split(members.skip(1), base, i - 1);
        assert(members.skip(1).take(i - 1) =~= members.take(i).skip(1));
        assert(members.skip(1).skip(i - 1) =~= members.skip(i));
        assert(members.take(i)[0] == members[0]);
    }
}

/// Extending a prefix by one member adds that member's payment.
pub proof fn lemma_sum_payments_take(members: Seq<UserInfo>, base: u128, i: int)
    requires
        0 <= i < members.len(),
    ensures
        sum_payments(members.take(i + 1), base) == sum_payments(members.take(i), base) + mul_floor(
            base,
            members[i].portion,
        ),
{
    lemma_sum_payments_split(members, base, i);
    lemma_sum_payments_split(members, base, i + 1);
    assert(sum_payments(members.skip(i), base) == mul_floor(base, members.skip(i)[0].portion)
        + sum_payments(members.skip(i).skip(1), base));
    assert(members.skip(i)[0] == members[i]);
    assert(members.skip(i).skip(1) =~= members.skip(i + 1));
}

/// Whether every member's payment divides evenly, so that no remainder is
/// truncated away.
/// Splitting `base` among members whose shares sum to one pays out at
/// most `base`.
pub proof fn lemma_sum_payments_bound(members: Seq<UserInfo>, base: u128)
    requires
        sum_portions(members) == DECIMAL_FRACTIONAL,
    ensures
        0 <= sum_payments(members, base) <= base,
{
    let d = DECIMAL_FRACTIONAL as int;
    lemma_sum_payments_partial(members, base);
    assert(base as int * sum_portions(members) == base as int * d);
    lemma_div_by_multiple(base as int, d);
    assert(base as int * d == d * base as int) by {
        lemma_mul_is_commutative(base as int, d);
    }
    assert((d * (base as int)) / d == base as int) by {
        lemma_mul_is_commutative(d, base as int);
        lemma_div_by_multiple(base as int, d);
    }
}

/// The inductive heart of the conservation bound: over any member suffix,
/// the payments sum to at most the scaled portion sum.
proof fn lemma_sum_payments_partial(members: Seq<UserInfo>, base: u128)
    requires
        0 <= sum_portions(members),
    ensures
        0 <= sum_payments(members, base),
        sum_payments(members, base) <= (base as int * sum_portions(members)) / (
        DECIMAL_FRACTIONAL as int),
    decreases members.len(),
{
    let d = DECIMAL_FRACTIONAL as int;
    if members.len() == 0 {
        assert((base as int * 0) / d == 0) by {
            lemma_mul_is_commutative(base as int, 0);
        }
    } else {
        let rest = members.skip(1);
        assert(0 <= sum_portions(rest)) by {
            lemma_sum_portions_nonneg(rest);
        }
        lemma_sum_payments_partial(rest, base);
        let p0 = members[0].portion as int;
        let x = base as int * p0;
        let y = base as int * sum_portions(rest);
        assert(0 <= x) by {
            lemma_mul_nonnegative(base as int, p0);
        }
        assert(0 <= y) by {
            lemma_mul_nonnegative(base as int, sum_portions(rest));
        }
        lemma_div_subadditive(x, y, d);
        lemma_div_pos_is_pos(x, d);
        assert(x + y == base as int * sum_portions(members)) by {
            lemma_mul_is_distributive_add(base as int, p0, sum_portions(rest));
        }
    }
}

pub proof fn lemma_sum_portions_nonneg(members: Seq<UserInfo>)
    ensures
        0 <= sum_portions(members),
    decreases members.len(),
{
    if members.len() > 0 {
        lemma_sum_portions_nonneg(members.skip(1));
    }
}

/// The portion sum splits at any index.
pub proof fn lemma_sum_portions_split(members: Seq<UserInfo>, i: int)
    requires
        0 <= i <= members.len(),
    ensures
        sum_portions(members) == sum_portions(members.take(i)) + sum_portions(members.skip(i)),
    decreases i,
{
    if i == 0 {
        assert(members.take(0) =~= Seq::<UserInfo>::empty());
        assert(members.skip(0) =~= members);
    } else {
        lemma_sum_portions_split(members.skip(1), i - 1);
        assert(members.skip(1).take(i - 1) =~= members.take(i).skip(1));
        assert(members.skip(1).skip(i - 1) =~= members.skip(i));
        assert(members.take(i)[0] == members[0]);
    }
}

/// Extending a prefix by one member adds that member's portion.
pub proof fn lemma_sum_portions_take(members: Seq<UserInfo>, i: int)
    requires
        0 <= i < members.len(),
    ensures
        sum_portions(members.take(i + 1)) == sum_portions(members.take(i)) + members[i].portion,
{
    lemma_sum_portions_split(members, i);
    lemma_sum_portions_split(members, i + 1);
    lemma_sum_portions_nonneg(members.skip(i + 1));
    assert(sum_portions(members.skip(i)) == members[i].portion + sum_portions(
        members.skip(i).skip(1),
    ));
    assert(members.skip(i).skip(1) =~= members.skip(i + 1));
}

/// No member's share exceeds the whole sum.
pub proof fn lemma_portion_le_sum(members: Seq<UserInfo>, i: int)
    requires
        0 <= i < members.len(),
    ensures
        members[i].portion <= sum_portions(members),
    decreases i,
{
    if i == 0 {
        lemma_sum_portions_nonneg(members.skip(1));
    } else {
        lemma_portion_le_sum(members.skip(1), i - 1);
    }
}

} // verus!
