//! The pool record and the swap pricing rule.

use vstd::prelude::*;

verus! {

/// Reserves held by the pool and the number of swaps it has performed.
#[derive(Clone, Copy, Debug, PartialEq, Eq, Structural)]
pub struct LiquidityPool {
    pub token_a_reserve: i128,
    pub token_b_reserve: i128,
    pub total_swaps: u64,
}

/// Why a pool operation was refused. A refused operation changes nothing.
#[derive(Clone, Copy, Debug, PartialEq, Eq, Structural)]
pub enum PoolError {
    /// An amount that must be strictly positive was not.
    InvalidAmount,
    /// The pool record exists already.
    AlreadyInitialized,
    /// There is no record, or one of its reserves is not positive.
    PoolNotInitialized,
    /// The swap's intermediate product, a new reserve or the swap counter
    /// does not fit in its integer type.
    ArithmeticOverflow,
}

/// The record that stands for a pool that does not exist yet.
pub open spec fn empty_pool() -> LiquidityPool {
    LiquidityPool { token_a_reserve: 0, token_b_reserve: 0, total_swaps: 0 }
}

impl LiquidityPool {
    /// Both reserves are positive: the pool accepts swaps.
    pub open spec fn is_active(self) -> bool {
        self.token_a_reserve > 0 && self.token_b_reserve > 0
    }

    /// The constant-product invariant `reserve_a * reserve_b`.
    pub open spec fn product(self) -> int {
        self.token_a_reserve * self.token_b_reserve
    }

    /// The all-zero record returned when no pool exists.
    pub fn empty() -> (r: LiquidityPool)
        ensures
            r == empty_pool(),
    {
        LiquidityPool { token_a_reserve: 0, token_b_reserve: 0, total_swaps: 0 }
    }
}

/// What a swap of `amount_in` pays out against the reserves before the swap:
/// `floor(amount_in * reserve_out / (reserve_in + amount_in))`.
pub open spec fn quote(amount_in: int, reserve_in: int, reserve_out: int) -> int {
    amount_in * reserve_out / (reserve_in + amount_in)
}

/// The product `amount_in * reserve_out` and the new input reserve
/// `reserve_in + amount_in` both fit in `i128`.
pub open spec fn quote_fits(amount_in: int, reserve_in: int, reserve_out: int) -> bool {
    amount_in * reserve_out <= i128::MAX && reserve_in + amount_in <= i128::MAX
}

/// On positive inputs the quote is never negative and stays below the output
/// reserve, and paying it out never lowers the reserve product.
pub proof fn lemma_quote_bounds(amount_in: int, reserve_in: int, reserve_out: int)
    requires
        amount_in > 0,
        reserve_in > 0,
        reserve_out > 0,
    ensures
        0 <= quote(amount_in, reserve_in, reserve_out) < reserve_out,
        (reserve_in + amount_in) * (reserve_out - quote(amount_in, reserve_in, reserve_out))
            >= reserve_in * reserve_out,
        (reserve_out - quote(amount_in, reserve_in, reserve_out)) * (reserve_in + amount_in)
            >= reserve_out * reserve_in,
{
    let x = amount_in * reserve_out;
    let d = reserve_in + amount_in;
    let q = x / d;
    assert(x > 0) by (nonlinear_arith)
        requires
            amount_in > 0,
            reserve_out > 0,
            x == amount_in * reserve_out,
    ;
    vstd::arithmetic::div_mod::lemma_fundamental_div_mod(x, d);
    vstd::arithmetic::div_mod::lemma_mod_bound(x, d);
    vstd::arithmetic::div_mod::lemma_div_pos_is_pos(x, d);
    assert(d * q <= x);
    assert(q < reserve_out) by (nonlinear_arith)
        requires
            d > 0,
            d * q <= x,
            x == amount_in * reserve_out,
            d == reserve_in + amount_in,
            reserve_in > 0,
            reserve_out > 0,
    ;
    assert(d * (reserve_out - q) >= reserve_in * reserve_out && (reserve_out - q) * d
        >= reserve_out * reserve_in) by (nonlinear_arith)
        requires
            d * q <= x,
            x == amount_in * reserve_out,
            d == reserve_in + amount_in,
    ;
}

/// Prices a swap of `amount_in` against `reserve_in` and `reserve_out`;
/// `None` when the arithmetic would leave `i128`.
pub fn get_amount_out(amount_in: i128, reserve_in: i128, reserve_out: i128) -> (r: Option<i128>)
    requires
        amount_in > 0,
        reserve_in > 0,
        reserve_out > 0,
    ensures
        r is Some <==> quote_fits(amount_in as int, reserve_in as int, reserve_out as int),
        r matches Some(out) ==> out == quote(amount_in as int, reserve_in as int, reserve_out as int),
        r matches Some(out) ==> 0 <= out < reserve_out,
{
    proof {
        lemma_quote_bounds(amount_in as int, reserve_in as int, reserve_out as int);
    }
    let numerator = amount_in.checked_mul(reserve_out);
    let denominator = reserve_in.checked_add(amount_in);
    match (numerator, denominator) {
        (Some(x), Some(d)) => Some(x / d),
        _ => None,
    }
}

} // verus!
