//! The prices of execution and storage gas.
use vstd::arithmetic::div_mod::*;
use vstd::prelude::*;

use crate::types::{Gas, GasPrice};

verus! {

/// The weight of the previous average, out of
/// [`EXECUTION_MARKET_EMA_DENOMINATOR`].
pub const EXECUTION_MARKET_EMA_PREV_WEIGHT: u128 = 9;

/// The sum of the weights of the previous average and of the block.
pub const EXECUTION_MARKET_EMA_DENOMINATOR: u128 = 10;

/// Seven times the gas that a block should use.
pub const EXECUTION_MARKET_BASE_FEE_NUMERATOR: u128 = 11_177_110;

/// Eight times the gas that a block should use.
pub const EXECUTION_MARKET_BASE_FEE_DENOMINATOR: u128 = 12_773_840;

/// The number of epochs that the average of storage gas is taken over.
pub const STORAGE_MARKET_EMA_DENOMINATOR: u128 = 2;

/// The denominator of the bounds on the change of the price.
pub const STORAGE_MARKET_CLAMP_DENOMINATOR: u128 = 8;

/// The numerator of the bound on a falling price.
pub const STORAGE_MARKET_CLAMP_DOWN_NUMERATOR: u128 = 7;

/// The numerator of the bound on a rising price.
pub const STORAGE_MARKET_CLAMP_UP_NUMERATOR: u128 = 9;

/// The quotient of `a` and `b`, rounded up.
pub open spec fn ceil_div(a: int, b: int) -> int {
    (a + b - 1) / b
}

/// The smoothed use of execution gas after a block that used `gas`.
pub open spec fn execution_average(average: Gas, gas: Gas) -> int {
    (gas + 9 * average) / 10
}

/// The price of execution gas that follows `fee` at the given average, before it is
/// stored.
pub open spec fn execution_fee(fee: GasPrice, average: int) -> int {
    ceil_div(fee * (11_177_110 + average), 12_773_840)
}

/// The smoothed use of storage gas after an epoch that used `gas`.
pub open spec fn storage_average(ema: Gas, gas: Gas) -> int {
    (gas + ema) / 2
}

/// The price of storage gas that follows `price` after an epoch that used `gas`, when
/// `target` is the smoothed use, before it is stored. The price is held while the
/// target is zero, and changes by an eighth at most.
pub open spec fn storage_price(price: GasPrice, gas: Gas, target: int) -> int {
    if target == 0 {
        price as int
    } else if 8 * gas <= 7 * target {
        ceil_div(price * 7, 8)
    } else if 8 * gas >= 9 * target {
        ceil_div(price * 9, 8)
    } else {
        ceil_div(price * gas, target)
    }
}

/// Computes a quotient, rounded up.
fn div_up(a: u128, b: u128) -> (r: u128)
    requires
        b > 0,
    ensures
        r == ceil_div(a as int, b as int),
{
    let quotient: u128 = a / b;
    proof {
        let x = a as int;
        let d = b as int;
        lemma_fundamental_div_mod(x, d);
        let q = x / d;
        let m = x % d;
        lemma_mod_bound(x, d);
        if m == 0 {
            lemma_fundamental_div_mod_converse(x + d - 1, d, q, d - 1);
        } else {
            assert(d * (q + 1) == d * q + d) by (nonlinear_arith);
            lemma_fundamental_div_mod_converse(x + d - 1, d, q + 1, m - 1);
        }
    }
    if a % b == 0 {
        quotient
    } else {
        proof {
            assert(b > 1) by {
                if b == 1 {
                    assert(a % 1 == 0);
                }
            }
            assert(quotient <= a / 2) by (nonlinear_arith)
                requires
                    quotient == a / b,
                    b >= 2,
            ;
        }
        quotient + 1
    }
}

/// The smoothed use and the price of execution gas after a block that used `gas`.
///
/// The price is stored in sixty-four bits; the higher ones are dropped.
pub fn update_execution_prices(average: Gas, fee: GasPrice, gas: Gas) -> (r: (Gas, GasPrice))
    requires
        fee * (11_177_110 + execution_average(average, gas)) <= u128::MAX,
    ensures
        r.0 == execution_average(average, gas),
        r.1 == execution_fee(fee, execution_average(average, gas)) as u64,
{
    let avg_numerator: u128 = gas as u128 + EXECUTION_MARKET_EMA_PREV_WEIGHT * average as u128;
    let new_average: u64 = (avg_numerator / EXECUTION_MARKET_EMA_DENOMINATOR) as u64;
    let fee_numerator: u128 = fee as u128 * (EXECUTION_MARKET_BASE_FEE_NUMERATOR
        + new_average as u128);
    let new_fee: u64 = #[verifier::truncate]
    (div_up(fee_numerator, EXECUTION_MARKET_BASE_FEE_DENOMINATOR) as u64);
    (new_average, new_fee)
}

/// The price and the smoothed use of storage gas after an epoch that used
/// `storage_gas_consumed_in_epoch`.
///
/// The price is stored in sixty-four bits; the higher ones are dropped.
pub fn update_storage_market(
    storage_gas_price: GasPrice,
    storage_gas_consumed_in_epoch: Gas,
    storage_gas_ema: Gas,
) -> (r: (GasPrice, Gas))
    ensures
        r.1 == storage_average(storage_gas_ema, storage_gas_consumed_in_epoch),
        r.0 == storage_price(
            storage_gas_price,
            storage_gas_consumed_in_epoch,
            storage_average(storage_gas_ema, storage_gas_consumed_in_epoch),
        ) as u64,
{
    let previous_price: u128 = storage_gas_price as u128;
    let total_storage_gas: u128 = storage_gas_consumed_in_epoch as u128;
    let previous_ema: u128 = storage_gas_ema as u128;
    let new_ema: u128 = (total_storage_gas + previous_ema) / STORAGE_MARKET_EMA_DENOMINATOR;
    if new_ema == 0 {
        return (storage_gas_price, 0);
    }
    let comparator: u128 = STORAGE_MARKET_CLAMP_DENOMINATOR * total_storage_gas;
    let new_price: u128 = if comparator <= STORAGE_MARKET_CLAMP_DOWN_NUMERATOR * new_ema {
        div_up(
            previous_price * STORAGE_MARKET_CLAMP_DOWN_NUMERATOR,
            STORAGE_MARKET_CLAMP_DENOMINATOR,
        )
    } else if comparator >= STORAGE_MARKET_CLAMP_UP_NUMERATOR * new_ema {
        div_up(
            previous_price * STORAGE_MARKET_CLAMP_UP_NUMERATOR,
            STORAGE_MARKET_CLAMP_DENOMINATOR,
        )
    } else {
        proof {
            assert(previous_price * total_storage_gas <= u64::MAX * u64::MAX) by (nonlinear_arith)
                requires
                    previous_price <= u64::MAX,
                    total_storage_gas <= u64::MAX,
            ;
        }
        div_up(previous_price * total_storage_gas, new_ema)
    };
    let stored: u64 = #[verifier::truncate]
    (new_price as u64);
    (stored, new_ema as u64)
}

/// The price of storage gas is held while nothing is stored and nothing was stored
/// lately.
pub proof fn idle_storage_price_is_held(price: GasPrice, ema: Gas)
    requires
        ema <= 1,
    ensures
        storage_price(price, 0, storage_average(ema, 0)) == price,
{
}

/// The price of storage gas changes by an eighth at most, up to rounding.
pub proof fn storage_price_moves_by_an_eighth(price: GasPrice, gas: Gas, ema: Gas)
    ensures
        ({
            let next = storage_price(price, gas, storage_average(ema, gas));
            &&& 7 * price <= 8 * next
            &&& 8 * next < 9 * price + 8
        }),
{
    let target = storage_average(ema, gas);
    if target > 0 && 8 * gas > 7 * target && 8 * gas < 9 * target {
        let product = price * gas;
        let next = ceil_div(product, target);
        lemma_ceil_div(product, target);
        assert(8 * product >= 7 * (price * target)) by (nonlinear_arith)
            requires
                8 * gas > 7 * target,
                price >= 0,
                product == price * gas,
        ;
        assert(8 * product <= 9 * (price * target)) by (nonlinear_arith)
            requires
                8 * gas < 9 * target,
                price >= 0,
                product == price * gas,
        ;
        assert(7 * price <= 8 * next) by (nonlinear_arith)
            requires
                target > 0,
                next * target >= product,
                8 * product >= 7 * (price * target),
        ;
        assert(8 * next < 9 * price + 8) by (nonlinear_arith)
            requires
                target > 0,
                next * target < product + target,
                8 * product <= 9 * (price * target),
        ;
    }
}

/// A price of storage gas that is not zero does not become zero.
pub proof fn storage_price_stays_positive(price: GasPrice, gas: Gas, ema: Gas)
    requires
        price > 0,
    ensures
        storage_price(price, gas, storage_average(ema, gas)) > 0,
{
    storage_price_moves_by_an_eighth(price, gas, ema);
}

/// A price of execution gas that is not zero does not become zero.
pub proof fn execution_price_stays_positive(fee: GasPrice, average: Gas, gas: Gas)
    requires
        fee > 0,
    ensures
        execution_fee(fee, execution_average(average, gas)) > 0,
{
    let next = execution_average(average, gas);
    let product = fee * (11_177_110 + next);
    assert(product > 0) by (nonlinear_arith)
        requires
            fee > 0,
            next >= 0,
            product == fee * (11_177_110 + next),
    ;
    lemma_ceil_div(product, 12_773_840);
}

/// The price of execution gas rises when the smoothed use is above an eighth of the
/// denominator, that is above the target, and does not rise when it is not.
pub proof fn execution_price_follows_demand(fee: GasPrice, average: int)
    requires
        fee > 0,
        average >= 0,
    ensures
        average > 1_596_730 ==> execution_fee(fee, average) > fee,
        average <= 1_596_730 ==> execution_fee(fee, average) <= fee,
{
    let product = fee * (11_177_110 + average);
    let next = execution_fee(fee, average);
    lemma_ceil_div(product, 12_773_840);
    if average > 1_596_730 {
        assert(product > fee * 12_773_840) by (nonlinear_arith)
            requires
                fee > 0,
                average > 1_596_730,
                product == fee * (11_177_110 + average),
        ;
    } else {
        assert(product <= fee * 12_773_840) by (nonlinear_arith)
            requires
                fee > 0,
                average <= 1_596_730,
                product == fee * (11_177_110 + average),
        ;
    }
}

/// The smoothed use of execution gas moves a tenth of the way to what a block used, rounded down.
pub proof fn execution_average_moves_a_tenth(average: Gas, gas: Gas)
    ensures
        10 * execution_average(average, gas) <= 9 * average + gas < 10 * (execution_average(
            average,
            gas,
        ) + 1),
        gas <= average ==> gas <= execution_average(average, gas) <= average,
        gas >= average ==> average <= execution_average(average, gas) <= gas,
{
}

/// The price of execution gas is multiplied by seven eighths, and by an eighth for each time
/// that the smoothed use reaches its target of 1596730, rounded up.
pub proof fn execution_price_moves_with_demand(fee: GasPrice, average: int)
    requires
        average >= 0,
    ensures
        fee * (7 * 1_596_730 + average) <= 8 * 1_596_730 * execution_fee(fee, average) < fee * (7
            * 1_596_730 + average) + 8 * 1_596_730,
{
    let product = fee * (11_177_110 + average);
    assert(product >= 0) by (nonlinear_arith)
        requires
            product == fee * (11_177_110 + average),
            fee >= 0,
            average >= 0,
    ;
    lemma_ceil_div(product, 12_773_840);
    let next = execution_fee(fee, average);
    assert(8 * 1_596_730 * next == next * 12_773_840) by (nonlinear_arith);
    assert(fee * (7 * 1_596_730 + average) == product) by (nonlinear_arith)
        requires
            product == fee * (11_177_110 + average),
    ;
}

/// A greater price of execution gas, and a greater demand, lead to no less of a price.
pub proof fn execution_price_keeps_order(fee: GasPrice, more: GasPrice, average: int, higher: int)
    requires
        fee <= more,
        0 <= average <= higher,
    ensures
        execution_fee(fee, average) <= execution_fee(more, higher),
{
    execution_price_moves_with_demand(fee, average);
    execution_price_moves_with_demand(more, higher);
    assert(fee * (7 * 1_596_730 + average) <= more * (7 * 1_596_730 + higher)) by (nonlinear_arith)
        requires
            0 <= fee <= more,
            0 <= average <= higher,
    ;
}

/// The smoothed use of storage gas is the mean of the last one and of what an epoch used,
/// rounded down.
pub proof fn storage_average_is_a_mean(ema: Gas, gas: Gas)
    ensures
        2 * storage_average(ema, gas) <= ema + gas <= 2 * storage_average(ema, gas) + 1,
{
}

/// The price of storage gas is multiplied by what an epoch used over the smoothed use, rounded
/// up, but by no less than seven eighths and no more than nine. Here `eighths` is eight times
/// what was used, as far as it lies between those bounds.
pub proof fn storage_price_follows_demand(price: GasPrice, gas: Gas, target: int, eighths: int)
    requires
        target > 0,
        7 * target <= eighths <= 9 * target,
        eighths > 7 * target ==> eighths <= 8 * gas,
        eighths < 9 * target ==> eighths >= 8 * gas,
    ensures
        price * eighths <= 8 * target * storage_price(price, gas, target) < price * eighths + 8
            * target,
{
    let next = storage_price(price, gas, target);
    if 8 * gas <= 7 * target {
        assert(eighths == 7 * target);
        lemma_ceil_div(price * 7, 8);
        assert(price * eighths <= 8 * target * next < price * eighths + 8 * target)
            by (nonlinear_arith)
            requires
                eighths == 7 * target,
                target > 0,
                price * 7 <= next * 8 < price * 7 + 8,
        ;
    } else if 8 * gas >= 9 * target {
        assert(eighths == 9 * target);
        lemma_ceil_div(price * 9, 8);
        assert(price * eighths <= 8 * target * next < price * eighths + 8 * target)
            by (nonlinear_arith)
            requires
                eighths == 9 * target,
                target > 0,
                price * 9 <= next * 8 < price * 9 + 8,
        ;
    } else {
        assert(eighths == 8 * gas);
        let product = price * gas;
        assert(product >= 0) by (nonlinear_arith)
            requires
                product == price * gas,
                price >= 0,
                gas >= 0,
        ;
        lemma_ceil_div(product, target);
        assert(price * eighths <= 8 * target * next < price * eighths + 8 * target)
            by (nonlinear_arith)
            requires
                eighths == 8 * gas,
                product == price * gas,
                product <= next * target < product + target,
        ;
    }
}

/// A greater use of storage gas leads to no less of a price at the same smoothed use.
pub proof fn storage_price_keeps_order(price: GasPrice, gas: Gas, more: Gas, target: int)
    requires
        target > 0,
        gas <= more,
    ensures
        storage_price(price, gas, target) <= storage_price(price, more, target),
{
    let low = if 8 * gas <= 7 * target {
        7 * target
    } else if 8 * gas >= 9 * target {
        9 * target
    } else {
        8 * gas
    };
    let high = if 8 * more <= 7 * target {
        7 * target
    } else if 8 * more >= 9 * target {
        9 * target
    } else {
        8 * more
    };
    storage_price_follows_demand(price, gas, target, low);
    storage_price_follows_demand(price, more, target, high);
    let a = storage_price(price, gas, target);
    let b = storage_price(price, more, target);
    assert(a <= b) by (nonlinear_arith)
        requires
            target > 0,
            price >= 0,
            low <= high,
            8 * target * a < price * low + 8 * target,
            price * high <= 8 * target * b,
    ;
}

/// The rounded quotient is the least whose product is not below the dividend.
proof fn lemma_ceil_div(a: int, b: int)
    requires
        b > 0,
        a >= 0,
    ensures
        a <= ceil_div(a, b) * b < a + b,
{
    let q = ceil_div(a, b);
    lemma_fundamental_div_mod(a + b - 1, b);
    lemma_mod_bound(a + b - 1, b);
    vstd::arithmetic::mul::lemma_mul_is_commutative(b, q);
}

} // verus!
