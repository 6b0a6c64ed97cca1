//! The pool's state machine: one optional record, created once by
//! `initialize_pool` and changed only by the two swaps.

use vstd::prelude::*;
use crate::pool::{
    empty_pool, get_amount_out, lemma_quote_bounds, quote, quote_fits, LiquidityPool, PoolError,
};

verus! {

/// Ledger cycles for which every write asks the host to keep the record.
pub const RETENTION_HORIZON: u32 = 5000;

/// The record as `view_pool` reports it: the stored one, or all zeros.
pub open spec fn pool_view(record: Option<LiquidityPool>) -> LiquidityPool {
    match record {
        Some(p) => p,
        None => empty_pool(),
    }
}

/// The swap counter can take one more swap and the A-for-B quote fits.
pub open spec fn can_swap_a_for_b(p: LiquidityPool, amount_in: int) -> bool {
    p.total_swaps < u64::MAX && quote_fits(amount_in, p.token_a_reserve as int, p.token_b_reserve as int)
}

/// The swap counter can take one more swap and the B-for-A quote fits.
pub open spec fn can_swap_b_for_a(p: LiquidityPool, amount_in: int) -> bool {
    p.total_swaps < u64::MAX && quote_fits(amount_in, p.token_b_reserve as int, p.token_a_reserve as int)
}

/// Token B paid out for `amount_in` of token A.
pub open spec fn quote_a_for_b(p: LiquidityPool, amount_in: int) -> int {
    quote(amount_in, p.token_a_reserve as int, p.token_b_reserve as int)
}

/// Token A paid out for `amount_in` of token B.
pub open spec fn quote_b_for_a(p: LiquidityPool, amount_in: int) -> int {
    quote(amount_in, p.token_b_reserve as int, p.token_a_reserve as int)
}

/// The record after swapping `amount_in` of token A for token B.
pub open spec fn swapped_a_for_b(p: LiquidityPool, amount_in: int) -> LiquidityPool {
    LiquidityPool {
        token_a_reserve: (p.token_a_reserve + amount_in) as i128,
        token_b_reserve: (p.token_b_reserve - quote_a_for_b(p, amount_in)) as i128,
        total_swaps: (p.total_swaps + 1) as u64,
    }
}

/// The record after swapping `amount_in` of token B for token A.
pub open spec fn swapped_b_for_a(p: LiquidityPool, amount_in: int) -> LiquidityPool {
    LiquidityPool {
        token_a_reserve: (p.token_a_reserve - quote_b_for_a(p, amount_in)) as i128,
        token_b_reserve: (p.token_b_reserve + amount_in) as i128,
        total_swaps: (p.total_swaps + 1) as u64,
    }
}

/// Swapping `amount_in` of token A for token B and then swapping back every
/// unit of token B just received (when that is not zero) leaves reserve B
/// where it started and never lowers reserve A or the reserve product; the
/// second swap never overflows its arithmetic. Reserve A ends strictly above
/// its start exactly when the first quote was rounded down, so the round trip
/// does not restore the starting reserves unless that quote was exact.
pub proof fn lemma_round_trip(p: LiquidityPool, amount_in: int)
    requires
        p.is_active(),
        amount_in > 0,
        can_swap_a_for_b(p, amount_in),
        quote_a_for_b(p, amount_in) > 0,
    ensures
        ({
            let mid = swapped_a_for_b(p, amount_in);
            let received = quote_a_for_b(p, amount_in);
            let end = swapped_b_for_a(mid, received);
            &&& mid.is_active()
            &&& quote_fits(received, mid.token_b_reserve as int, mid.token_a_reserve as int)
            &&& p.total_swaps + 1 < u64::MAX ==> can_swap_b_for_a(mid, received)
            &&& end.token_b_reserve == p.token_b_reserve
            &&& end.token_a_reserve >= p.token_a_reserve
            &&& end.product() >= p.product()
            &&& (end.token_a_reserve > p.token_a_reserve <==> (amount_in * p.token_b_reserve) % (
            p.token_a_reserve + amount_in) != 0)
        }),
{
    let a = p.token_a_reserve as int;
    let b = p.token_b_reserve as int;
    let n = amount_in;
    let d = a + n;
    let x = n * b;
    let m = quote_a_for_b(p, n);
    lemma_quote_bounds(n, a, b);
    assert(m == x / d);
    vstd::arithmetic::div_mod::lemma_fundamental_div_mod(x, d);
    vstd::arithmetic::div_mod::lemma_mod_bound(x, d);
    let rem = x % d;
    assert(m * d == x - rem) by (nonlinear_arith)
        requires
            x == d * (x / d) + rem,
            m == x / d,
    ;
    let mid = swapped_a_for_b(p, n);
    assert(mid.token_a_reserve == d);
    assert(mid.token_b_reserve == b - m);
    let back = quote_b_for_a(mid, m);
    assert(back == (m * d) / b);
    assert(m * d <= i128::MAX);
    vstd::arithmetic::div_mod::lemma_fundamental_div_mod(m * d, b);
    vstd::arithmetic::div_mod::lemma_mod_bound(m * d, b);
    let r2 = (m * d) % b;
    assert(b * back == m * d - r2) by (nonlinear_arith)
        requires
            m * d == b * ((m * d) / b) + r2,
            back == (m * d) / b,
    ;
    assert(back <= n) by (nonlinear_arith)
        requires
            b * back == m * d - r2,
            m * d <= x,
            x == n * b,
            r2 >= 0,
            b > 0,
    ;
    assert(back < n <==> rem != 0) by (nonlinear_arith)
        requires
            b * back == m * d - r2,
            m * d == x - rem,
            x == n * b,
            0 <= r2 < b,
            0 <= rem,
            b > 0,
            back <= n,
    ;
    let end = swapped_b_for_a(mid, m);
    assert(end.token_a_reserve == d - back);
    assert(end.token_b_reserve == b);
    assert((d - back) * b >= a * b) by (nonlinear_arith)
        requires
            d - back >= a,
            b > 0,
    ;
}

/// The pool engine over its store: the persisted record, if any, and the
/// retention the host has been asked to give it since it was loaded.
pub struct TokenSwapContract {
    /// The single persisted pool record.
    pub record: Option<LiquidityPool>,
    /// Ledger cycles of retention requested for the record; zero until a
    /// write renews it.
    pub retention: u32,
}

impl TokenSwapContract {
    /// Every stored record has positive reserves, as `initialize_pool`
    /// writes it and the swaps keep it.
    pub open spec fn well_formed(self) -> bool {
        self.record matches Some(p) ==> p.is_active()
    }

    /// An engine over an empty store.
    pub fn new() -> (r: TokenSwapContract)
        ensures
            r.record is None,
            r.retention == 0,
            r.well_formed(),
    {
        TokenSwapContract { record: None, retention: 0 }
    }

    /// An engine over a store that holds `record`, as the host read it.
    pub fn from_record(record: Option<LiquidityPool>) -> (r: TokenSwapContract)
        ensures
            r.record == record,
            r.retention == 0,
    {
        TokenSwapContract { record, retention: 0 }
    }

    /// The stored record, or all zeros when there is none. Never fails.
    pub fn view_pool(&self) -> (r: LiquidityPool)
        ensures
            r == pool_view(self.record),
    {
        match self.record {
            Some(p) => p,
            None => LiquidityPool::empty(),
        }
    }

    /// Writes `p` as the record and renews its retention.
    fn store(&mut self, p: LiquidityPool)
        ensures
            final(self).record == Some(p),
            final(self).retention == RETENTION_HORIZON,
    {
        self.record = Some(p);
        self.retention = RETENTION_HORIZON;
    }

    /// Creates the pool with the two reserves given and no swaps.
    pub fn initialize_pool(&mut self, token_a_amount: i128, token_b_amount: i128) -> (r: Result<
        (),
        PoolError,
    >)
        ensures
            old(self).record is Some ==> r matches Err(PoolError::AlreadyInitialized),
            old(self).record is None && (token_a_amount <= 0 || token_b_amount <= 0) ==> r matches Err(
                PoolError::InvalidAmount,
            ),
            old(self).record is None && token_a_amount > 0 && token_b_amount > 0 ==> r is Ok,
            r is Err ==> *final(self) == *old(self),
            r is Ok ==> {
                &&& final(self).record is Some
                &&& pool_view(final(self).record) == (LiquidityPool {
                    token_a_reserve: token_a_amount,
                    token_b_reserve: token_b_amount,
                    total_swaps: 0,
                })
                &&& final(self).retention == RETENTION_HORIZON
            },
            old(self).well_formed() ==> final(self).well_formed(),
    {
        if self.record.is_some() {
            return Err(PoolError::AlreadyInitialized);
        }
        if token_a_amount <= 0 || token_b_amount <= 0 {
            return Err(PoolError::InvalidAmount);
        }
        self.store(
            LiquidityPool {
                token_a_reserve: token_a_amount,
                token_b_reserve: token_b_amount,
                total_swaps: 0,
            },
        );
        Ok(())
    }

    /// Swaps `amount_a_in` of token A into the pool for token B, and returns
    /// the amount of token B paid out.
    pub fn swap_a_for_b(&mut self, amount_a_in: i128) -> (r: Result<i128, PoolError>)
        ensures
            amount_a_in <= 0 ==> r matches Err(PoolError::InvalidAmount),
            ({
                let before = pool_view(old(self).record);
                let amount = amount_a_in as int;
                &&& amount > 0 && !before.is_active() ==> r == Err::<
                    i128,
                    PoolError,
                >(PoolError::PoolNotInitialized)
                &&& amount > 0 && before.is_active() && !can_swap_a_for_b(before, amount) ==> r == Err::<
                    i128,
                    PoolError,
                >(PoolError::ArithmeticOverflow)
                &&& amount > 0 && before.is_active() && can_swap_a_for_b(before, amount) ==> {
                    &&& r == Ok::<i128, PoolError>(quote_a_for_b(before, amount) as i128)
                    &&& final(self).record == Some(swapped_a_for_b(before, amount))
                    &&& final(self).retention == RETENTION_HORIZON
                }
            }),
            r is Err ==> *final(self) == *old(self),
            r matches Ok(out) ==> {
                let before = pool_view(old(self).record);
                let after = pool_view(final(self).record);
                &&& 0 <= out < before.token_b_reserve
                &&& after.token_a_reserve == before.token_a_reserve + amount_a_in
                &&& after.token_b_reserve == before.token_b_reserve - out
                &&& after.total_swaps == before.total_swaps + 1
                &&& after.product() >= before.product()
            },
            old(self).well_formed() ==> final(self).well_formed(),
    {
        if amount_a_in <= 0 {
            return Err(PoolError::InvalidAmount);
        }
        let pool = self.view_pool();
        if pool.token_a_reserve <= 0 || pool.token_b_reserve <= 0 {
            return Err(PoolError::PoolNotInitialized);
        }
        proof {
            lemma_quote_bounds(
                amount_a_in as int,
                pool.token_a_reserve as int,
                pool.token_b_reserve as int,
            );
        }
        if pool.total_swaps == u64::MAX {
            return Err(PoolError::ArithmeticOverflow);
        }
        let amount_b_out = match get_amount_out(amount_a_in, pool.token_a_reserve, pool.token_b_reserve) {
            Some(out) => out,
            None => return Err(PoolError::ArithmeticOverflow),
        };
        self.store(
            LiquidityPool {
                token_a_reserve: pool.token_a_reserve + amount_a_in,
                token_b_reserve: pool.token_b_reserve - amount_b_out,
                total_swaps: pool.total_swaps + 1,
            },
        );
        Ok(amount_b_out)
    }

    /// Swaps `amount_b_in` of token B into the pool for token A, and returns
    /// the amount of token A paid out.
    pub fn swap_b_for_a(&mut self, amount_b_in: i128) -> (r: Result<i128, PoolError>)
        ensures
            amount_b_in <= 0 ==> r matches Err(PoolError::InvalidAmount),
            ({
                let before = pool_view(old(self).record);
                let amount = amount_b_in as int;
                &&& amount > 0 && !before.is_active() ==> r == Err::<
                    i128,
                    PoolError,
                >(PoolError::PoolNotInitialized)
                &&& amount > 0 && before.is_active() && !can_swap_b_for_a(before, amount) ==> r == Err::<
                    i128,
                    PoolError,
                >(PoolError::ArithmeticOverflow)
                &&& amount > 0 && before.is_active() && can_swap_b_for_a(before, amount) ==> {
                    &&& r == Ok::<i128, PoolError>(quote_b_for_a(before, amount) as i128)
                    &&& final(self).record == Some(swapped_b_for_a(before, amount))
                    &&& final(self).retention == RETENTION_HORIZON
                }
            }),
            r is Err ==> *final(self) == *old(self),
            r matches Ok(out) ==> {
                let before = pool_view(old(self).record);
                let after = pool_view(final(self).record);
                &&& 0 <= out < before.token_a_reserve
                &&& after.token_b_reserve == before.token_b_reserve + amount_b_in
                &&& after.token_a_reserve == before.token_a_reserve - out
                &&& after.total_swaps == before.total_swaps + 1
                &&& after.product() >= before.product()
            },
            old(self).well_formed() ==> final(self).well_formed(),
    {
        if amount_b_in <= 0 {
            return Err(PoolError::InvalidAmount);
        }
        let pool = self.view_pool();
        if pool.token_a_reserve <= 0 || pool.token_b_reserve <= 0 {
            return Err(PoolError::PoolNotInitialized);
        }
        proof {
            lemma_quote_bounds(
                amount_b_in as int,
                pool.token_b_reserve as int,
                pool.token_a_reserve as int,
            );
        }
        if pool.total_swaps == u64::MAX {
            return Err(PoolError::ArithmeticOverflow);
        }
        let amount_a_out = match get_amount_out(amount_b_in, pool.token_b_reserve, pool.token_a_reserve) {
            Some(out) => out,
            None => return Err(PoolError::ArithmeticOverflow),
        };
        self.store(
            LiquidityPool {
                token_a_reserve: pool.token_a_reserve - amount_a_out,
                token_b_reserve: pool.token_b_reserve + amount_b_in,
                total_swaps: pool.total_swaps + 1,
            },
        );
        Ok(amount_a_out)
    }
}

} // verus!
