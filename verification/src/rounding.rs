//! Numbers as binary floating point holds them, in whole numbers: a quotient is
//! held with so many significant bits, rounded to the nearest number that can be
//! held, and of two equally near ones to the even one.
use vstd::arithmetic::div_mod::{lemma_fundamental_div_mod, lemma_mod_bound};
use vstd::prelude::*;

verus! {

/// Significands in single precision are below this.
pub const SINGLE: u128 = 0x100_0000;

/// Significands in double precision are below this.
pub const DOUBLE: u128 = 0x20_0000_0000_0000;

/// `num / den`, rounded to the nearest whole number, halves to the even one.
pub open spec fn nearest(num: int, den: int) -> int {
    let q = num / den;
    let r = num % den;
    if 2 * r < den || (2 * r == den && q % 2 == 0) {
        q
    } else {
        q + 1
    }
}

/// The first of `unit`, `2 * unit`, `4 * unit` and so on of which fewer than
/// `limit` go into `num / den`.
pub open spec fn unit_from(num: int, den: int, limit: int, unit: int) -> int
    decreases
            if num >= unit {
                num - unit + 1
            } else {
                0
            },
    via unit_from_decreases
{
    if den <= 0 || limit <= 0 || unit <= 0 || num < (limit * den) * unit {
        unit
    } else {
        unit_from(num, den, limit, 2 * unit)
    }
}

#[via_fn]
proof fn unit_from_decreases(num: int, den: int, limit: int, unit: int) {
    if den > 0 && limit > 0 && unit > 0 {
        lemma_step(limit, den, unit);
    }
}

proof fn lemma_step(limit: int, den: int, unit: int)
    requires
        den > 0,
        limit > 0,
        unit > 0,
    ensures
        (limit * den) * unit >= unit,
{
    assert(limit * den >= 1) by (nonlinear_arith)
        requires
            limit > 0,
            den > 0,
    ;
    assert((limit * den) * unit >= unit) by (nonlinear_arith)
        requires
            limit * den >= 1,
            unit > 0,
    ;
}

/// `num / den` with a significand below `limit`, where numbers below one are
/// held as whole numbers.
pub open spec fn held(num: int, den: int, limit: int) -> int {
    let unit = unit_from(num, den, limit, 1);
    nearest(num, den * unit) * unit
}

proof fn lemma_unit(num: int, den: int, limit: int, unit: int)
    requires
        num >= 0,
        den > 0,
        limit > 0,
        unit > 0,
    ensures
        unit_from(num, den, limit, unit) >= unit,
        unit_from(num, den, limit, unit) != unit ==> (limit * den) * unit_from(
            num,
            den,
            limit,
            unit,
        ) <= 2 * num,
    decreases
            if num >= unit {
                num - unit + 1
            } else {
                0
            },
{
    if num >= (limit * den) * unit {
        lemma_step(limit, den, unit);
        lemma_unit(num, den, limit, 2 * unit);
        assert((limit * den) * (2 * unit) == 2 * ((limit * den) * unit)) by (nonlinear_arith);
    }
}

proof fn lemma_nearest(num: int, den: int)
    requires
        num >= 0,
        den > 0,
    ensures
        -den <= 2 * (nearest(num, den) * den - num) <= den,
        nearest(num, den) >= 0,
        den == 1 ==> nearest(num, den) == num,
{
    let q = num / den;
    let r = num % den;
    lemma_fundamental_div_mod(num, den);
    lemma_mod_bound(num, den);
    assert(q * den == den * q && (q + 1) * den == den * q + den) by (nonlinear_arith);
    assert(q >= 0) by (nonlinear_arith)
        requires
            num == den * q + r,
            0 <= r < den,
            num >= 0,
    ;
}

/// A number that is held differs from what it stands for by less than one part
/// in `limit`; a whole number below `limit` does not differ at all.
pub proof fn lemma_held(num: int, den: int, limit: int)
    requires
        num >= 0,
        den > 0,
        limit > 1,
        den == 1 || num == 0 || limit * den <= 2 * num,
    ensures
        held(num, den, limit) >= 0,
        -num <= (held(num, den, limit) * den - num) * limit <= num,
        den == 1 && num < limit ==> held(num, den, limit) == num,
{
    let unit = unit_from(num, den, limit, 1);
    lemma_unit(num, den, limit, 1);
    assert(den * unit > 0) by (nonlinear_arith)
        requires
            den > 0,
            unit > 0,
    ;
    lemma_nearest(num, den * unit);
    let n = nearest(num, den * unit);
    let error = n * (den * unit) - num;
    assert(held(num, den, limit) * den == n * (den * unit)) by (nonlinear_arith)
        requires
            held(num, den, limit) == n * unit,
    ;
    assert(n * unit >= 0) by (nonlinear_arith)
        requires
            n >= 0,
            unit > 0,
    ;
    assert((held(num, den, limit) * den - num) * limit == error * limit);
    lemma_step(limit, den, 1);
    if den == 1 {
        assert((limit * den) * 1 == limit) by (nonlinear_arith)
            requires
                den == 1,
        ;
    }
    if num == 0 {
        assert(n == 0) by (nonlinear_arith)
            requires
                2 * (n * (den * unit)) <= den * unit,
                n >= 0,
                den * unit > 0,
        ;
        assert(n * (den * unit) == 0) by (nonlinear_arith)
            requires
                n == 0,
        ;
        assert(error * limit == 0) by (nonlinear_arith)
            requires
                error == 0,
        ;
    } else if den == 1 && unit == 1 {
        assert(den * unit == 1);
        assert(error * limit == 0) by (nonlinear_arith)
            requires
                error == 0,
        ;
    } else {
        assert(unit == 1 ==> (limit * den) * unit <= 2 * num);
        assert((limit * den) * unit <= 2 * num);
        assert(limit * (den * unit) == (limit * den) * unit) by (nonlinear_arith);
        assert(-num <= error * limit <= num) by (nonlinear_arith)
            requires
                -(den * unit) <= 2 * error <= den * unit,
                limit * (den * unit) <= 2 * num,
                limit > 1,
        ;
    }
}

/// `num / den` with a significand below `limit`.
pub fn hold(num: u128, den: u128, limit: u128) -> (r: u128)
    requires
        num <= 0x8000_0000_0000_0000_0000_0000_0000_0000,
        0 < den,
        4 <= limit,
        limit * den <= 0x8000_0000_0000_0000_0000_0000_0000_0000,
    ensures
        r == held(num as int, den as int, limit as int),
{
    let step: u128 = limit * den;
    assert(step >= 4) by (nonlinear_arith)
        requires
            step == limit * den,
            limit >= 4,
            den > 0,
    ;
    let mut unit: u128 = 1;
    assert(step * 1 == step) by (nonlinear_arith);
    while num / step >= unit
        invariant
            step == limit * den,
            0 < den,
            4 <= limit,
            4 <= step,
            unit >= 1,
            num <= 0x8000_0000_0000_0000_0000_0000_0000_0000,
            unit != 1 ==> step * unit <= 2 * num,
            unit_from(num as int, den as int, limit as int, unit as int) == unit_from(
                num as int,
                den as int,
                limit as int,
                1,
            ),
        decreases num - unit,
    {
        proof {
            lemma_fundamental_div_mod(num as int, step as int);
            lemma_mod_bound(num as int, step as int);
            assert(step * unit <= num) by (nonlinear_arith)
                requires
                    num == step * (num as int / step as int) + (num as int % step as int),
                    (num as int % step as int) >= 0,
                    (num as int / step as int) >= unit,
                    step > 0,
            ;
            assert(2 * unit <= num) by (nonlinear_arith)
                requires
                    step * unit <= num,
                    step >= 4,
                    unit >= 1,
            ;
            assert(step * (2 * unit) == 2 * (step * unit)) by (nonlinear_arith);
            assert((limit * den) * unit == step * unit);
        }
        unit = 2 * unit;
    }
    proof {
        lemma_fundamental_div_mod(num as int, step as int);
        lemma_mod_bound(num as int, step as int);
        assert(num < step * unit) by (nonlinear_arith)
            requires
                num == step * (num as int / step as int) + (num as int % step as int),
                (num as int % step as int) < step,
                (num as int / step as int) + 1 <= unit,
                step > 0,
        ;
        assert((limit * den) * unit == step * unit);
        assert(unit == unit_from(num as int, den as int, limit as int, 1));
        assert(den * unit <= step * unit) by (nonlinear_arith)
            requires
                step == limit * den,
                limit >= 4,
                den > 0,
                unit > 0,
        ;
        assert(unit != 1 ==> 2 * (den * unit) <= num) by (nonlinear_arith)
            requires
                unit != 1 ==> step * unit <= 2 * num,
                step == limit * den,
                limit >= 4,
                den > 0,
                unit > 0,
        ;
        assert(unit == 1 ==> den * unit == den);
        assert(den <= step) by (nonlinear_arith)
            requires
                step == limit * den,
                limit >= 4,
                den > 0,
        ;
        assert(den * unit >= unit) by (nonlinear_arith)
            requires
                den > 0,
                unit > 0,
        ;
    }
    let width: u128 = den * unit;
    let q: u128 = num / width;
    let rest: u128 = num % width;
    proof {
        lemma_fundamental_div_mod(num as int, width as int);
        lemma_mod_bound(num as int, width as int);
        assert(q * unit <= q * width <= num) by (nonlinear_arith)
            requires
                num == width * q + rest,
                rest >= 0,
                width >= unit,
                q >= 0,
                unit > 0,
        ;
        assert((q + 1) * unit == q * unit + unit) by (nonlinear_arith);
        assert(unit != 1 ==> 2 * unit <= num);
        assert((q + 1) * unit <= num + unit);
        assert(unit == 1 || unit <= num);
    }
    let n: u128 = if rest < width - rest || (rest == width - rest && q % 2 == 0) {
        q
    } else {
        q + 1
    };
    assert(n == nearest(num as int, width as int));
    assert(n * unit <= 0xffff_ffff_ffff_ffff_ffff_ffff_ffff_ffff) by (nonlinear_arith)
        requires
            n <= q + 1,
            (q + 1) * unit <= num + unit,
            unit == 1 || 2 * unit <= num,
            num <= 0x8000_0000_0000_0000_0000_0000_0000_0000,
            unit > 0,
    ;
    n * unit
}

} // verus!
