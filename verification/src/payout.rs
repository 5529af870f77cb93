//! The arithmetic of a payout, in whole numbers: fees in basis points
//! rounded down, and a share of the losing pool rounded down.

use vstd::prelude::*;
use vstd::arithmetic::div_mod::lemma_fundamental_div_mod_converse_div;
use crate::error::Error;

verus! {

/// One hundred percent, in basis points.
pub const BPS_DENOMINATOR: u32 = 10000;

/// The part of `amount` that a rate of `bps` basis points withholds, rounded down.
pub open spec fn fee_amount(amount: int, bps: int) -> int {
    (amount * bps) / 10000
}

/// What is left of a stake once both fees are withheld.
pub open spec fn net_stake(amount: int, fee_bps: int, developer_fee_bps: int) -> int {
    amount - fee_amount(amount, fee_bps) - fee_amount(amount, developer_fee_bps)
}

/// The share of the losing pool that a net stake earns, rounded down.
pub open spec fn bonus(net: int, winning_pool: int, losing_pool: int) -> int {
    (net * losing_pool) / winning_pool
}

/// What a stake on the winning side is paid: its net stake and its share of the
/// losing pool, and nothing while the winning pool is empty.
pub open spec fn winner_payout(
    amount: int,
    fee_bps: int,
    developer_fee_bps: int,
    winning_pool: int,
    losing_pool: int,
) -> int {
    if winning_pool == 0 {
        0
    } else {
        let net = net_stake(amount, fee_bps, developer_fee_bps);
        net + bonus(net, winning_pool, losing_pool)
    }
}

/// Two rates that together take no more than the whole leave a net stake
/// between zero and the stake.
pub proof fn lemma_net_stake_bounds(amount: int, fee_bps: int, developer_fee_bps: int)
    requires
        0 <= amount,
        0 <= fee_bps,
        0 <= developer_fee_bps,
        fee_bps + developer_fee_bps <= 10000,
    ensures
        0 <= fee_amount(amount, fee_bps),
        0 <= fee_amount(amount, developer_fee_bps),
        0 <= net_stake(amount, fee_bps, developer_fee_bps) <= amount,
{
    let f = fee_amount(amount, fee_bps);
    let d = fee_amount(amount, developer_fee_bps);
    assert(0 <= f && f * 10000 <= amount * fee_bps) by (nonlinear_arith)
        requires
            0 <= amount,
            0 <= fee_bps,
            f == (amount * fee_bps) / 10000,
    ;
    assert(0 <= d && d * 10000 <= amount * developer_fee_bps) by (nonlinear_arith)
        requires
            0 <= amount,
            0 <= developer_fee_bps,
            d == (amount * developer_fee_bps) / 10000,
    ;
    assert(f + d <= amount) by (nonlinear_arith)
        requires
            0 <= amount,
            fee_bps + developer_fee_bps <= 10000,
            f * 10000 <= amount * fee_bps,
            d * 10000 <= amount * developer_fee_bps,
    ;
}

/// Quotient and remainder of `a * b` by `m`, for `b` below `m`, without ever
/// forming the product: the quotient and remainder for half of `a` are doubled,
/// and `b` is added once more where `a` is odd.
fn mul_div_rem(a: u64, b: u128, m: u128) -> (res: (u64, u128))
    requires
        b < m,
    ensures
        res.0 * m + res.1 == a * b,
        res.1 < m,
    decreases a,
{
    if a == 0 {
        assert(0 * m + 0 == 0 * b) by (nonlinear_arith);
        return (0, 0);
    }
    let half: u64 = a / 2;
    let (q, r) = mul_div_rem(half, b, m);
    let ghost odd: int = if a % 2 == 1 { 1 } else { 0 };
    assert(a == 2 * half + odd);
    let mut q2: u128 = 2 * (q as u128);
    let r2: u128;
    if r >= m - r {
        q2 = q2 + 1;
        r2 = r - (m - r);
    } else {
        r2 = r + r;
    }
    assert(q2 * m + r2 == 2 * (half * b) && r2 < m) by (nonlinear_arith)
        requires
            q * m + r == half * b,
            r < m,
            (q2 == 2 * q + 1 && r2 == r - (m - r) && r >= m - r) || (q2 == 2 * q && r2 == r + r && r
                < m - r),
    ;
    let mut q3: u128 = q2;
    let r3: u128;
    if a % 2 == 1 {
        if r2 >= m - b {
            q3 = q3 + 1;
            r3 = r2 - (m - b);
        } else {
            r3 = r2 + b;
        }
    } else {
        r3 = r2;
    }
    assert(q3 * m + r3 == a * b && r3 < m) by (nonlinear_arith)
        requires
            q2 * m + r2 == 2 * (half * b),
            r2 < m,
            b < m,
            a == 2 * half + odd,
            (odd == 1 && q3 == q2 + 1 && r3 == r2 - (m - b) && r2 >= m - b) || (odd == 1 && q3 == q2
                && r3 == r2 + b && r2 < m - b) || (odd == 0 && q3 == q2 && r3 == r2),
    ;
    assert(q3 <= a) by (nonlinear_arith)
        requires
            q3 * m + r3 == a * b,
            0 <= r3,
            b < m,
            0 <= q3,
            0 <= a,
    ;
    (q3 as u64, r3)
}

/// `a * b / m` rounded down, where it fits in 64 bits; the product itself may
/// be wider than any machine integer.
pub fn mul_div_floor(a: u64, b: u128, m: u128) -> (res: Option<u64>)
    requires
        m > 0,
    ensures
        match res {
            Some(q) => q == (a * b) / (m as int),
            None => (a * b) / (m as int) > u64::MAX,
        },
{
    let whole: u128 = b / m;
    let rest: u128 = b % m;
    // a * b == (a * whole) * m + a * rest, and a * rest / m is at most a
    let low: u128 = match (a as u128).checked_mul(rest) {
        Some(p) => {
            let l: u128 = p / m;
            assert(l <= a) by (nonlinear_arith)
                requires
                    l == (a * rest) / (m as int),
                    rest < m,
                    0 <= a,
                    0 <= rest,
            ;
            l
        },
        None => {
            let (q, r) = mul_div_rem(a, rest, m);
            proof {
                lemma_fundamental_div_mod_converse_div(a * rest, m as int, q as int, r as int);
            }
            q as u128
        },
    };
    assert(low == (a * rest) / (m as int));
    proof {
        lemma_split_quotient(a as int, b as int, m as int);
    }
    assert((a * b) / (m as int) == a * whole + low);
    match (a as u128).checked_mul(whole) {
        Some(high) => {
            if high > u64::MAX as u128 - low {
                None
            } else {
                Some((high + low) as u64)
            }
        },
        None => None,
    }
}

/// Dividing `b` first: `a * b / m` is `a` times the quotient of `b`, and the
/// quotient of `a` times the remainder of `b`.
proof fn lemma_split_quotient(a: int, b: int, m: int)
    requires
        0 <= a,
        0 <= b,
        0 < m,
    ensures
        (a * b) / m == a * (b / m) + (a * (b % m)) / m,
{
    let whole = b / m;
    let rest = b % m;
    let low = (a * rest) / m;
    let low_rest = (a * rest) % m;
    assert(b == whole * m + rest && 0 <= rest < m) by (nonlinear_arith)
        requires
            0 < m,
            whole == b / m,
            rest == b % m,
    ;
    assert(a * rest == low * m + low_rest && 0 <= low_rest < m) by (nonlinear_arith)
        requires
            0 < m,
            low == (a * rest) / m,
            low_rest == (a * rest) % m,
    ;
    assert(a * b == (a * whole + low) * m + low_rest) by (nonlinear_arith)
        requires
            b == whole * m + rest,
            a * rest == low * m + low_rest,
    ;
    lemma_fundamental_div_mod_converse_div(a * b, m, a * whole + low, low_rest);
}

/// The payout of a stake on the winning side, or `OverflowError` where it does
/// not fit in 64 bits.
pub fn compute_payout(
    amount: u64,
    fee_bps: u32,
    developer_fee_bps: u32,
    winning_pool: u128,
    losing_pool: u128,
) -> (res: Result<u64, Error>)
    requires
        fee_bps + developer_fee_bps <= BPS_DENOMINATOR,
    ensures
        match res {
            Ok(payout) => payout == winner_payout(
                amount as int,
                fee_bps as int,
                developer_fee_bps as int,
                winning_pool as int,
                losing_pool as int,
            ),
            Err(e) => e == Error::OverflowError && winner_payout(
                amount as int,
                fee_bps as int,
                developer_fee_bps as int,
                winning_pool as int,
                losing_pool as int,
            ) > u64::MAX,
        },
{
    if winning_pool == 0 {
        return Ok(0);
    }
    proof {
        lemma_net_stake_bounds(amount as int, fee_bps as int, developer_fee_bps as int);
    }
    let bet_amount: u128 = amount as u128;
    assert(bet_amount * fee_bps <= u128::MAX && bet_amount * developer_fee_bps <= u128::MAX)
        by (nonlinear_arith)
        requires
            bet_amount <= u64::MAX,
            fee_bps <= 10000,
            developer_fee_bps <= 10000,
    ;
    let fee: u128 = (bet_amount * (fee_bps as u128)) / 10000;
    let developer_fee: u128 = (bet_amount * (developer_fee_bps as u128)) / 10000;
    let net: u64 = (bet_amount - fee - developer_fee) as u64;
    match mul_div_floor(net, losing_pool, winning_pool) {
        Some(share) => {
            if share > u64::MAX - net {
                Err(Error::OverflowError)
            } else {
                Ok(net + share)
            }
        },
        None => Err(Error::OverflowError),
    }
}

} // verus!
