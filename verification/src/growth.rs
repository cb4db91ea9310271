//! Exact growth of a whole number by a factor given in thousandths.
//!
//! A delay that grows by a factor of 1.5 from attempt to attempt is 1.5 to some power times
//! the first delay. To round that once, at the end, and not at every step, the value is kept
//! exactly while it grows: its whole part in a machine word, its fraction as digits in base
//! 1000, one more digit with every step.

use vstd::arithmetic::div_mod::{
    lemma_basic_div, lemma_div_by_multiple, lemma_div_is_ordered,
    lemma_div_multiples_vanish_quotient, lemma_fundamental_div_mod_converse,
    lemma_remainder_lower, lemma_remainder_upper,
};
use vstd::prelude::*;

verus! {

/// `base` to the power of `exponent`.
pub open spec fn power(base: nat, exponent: nat) -> nat
    decreases exponent,
{
    if exponent == 0 {
        1
    } else {
        base * power(base, (exponent - 1) as nat)
    }
}

/// `base` grown `steps` times by a factor of `factor_permille` thousandths, rounded down to
/// a whole number once, at the end: the whole part of `base * (factor / 1000)^steps`.
pub open spec fn grown(base: nat, factor_permille: nat, steps: nat) -> nat {
    ((base * power(factor_permille, steps)) as int / (power(1000, steps) as int)) as nat
}

/// A power of a positive number is positive.
pub proof fn lemma_power_positive(base: nat, exponent: nat)
    requires
        base >= 1,
    ensures
        power(base, exponent) >= 1,
    decreases exponent,
{
    if exponent > 0 {
        lemma_power_positive(base, (exponent - 1) as nat);
        let p = power(base, (exponent - 1) as nat);
        assert(base * p >= 1) by (nonlinear_arith)
            requires
                base >= 1,
                p >= 1,
        ;
    }
}

/// One more step multiplies by the factor once more.
pub proof fn lemma_power_step(base: nat, exponent: nat)
    ensures
        power(base, exponent + 1) == base * power(base, exponent),
{
    assert((exponent + 1 - 1) as nat == exponent);
}

/// The power of a product is the product of the powers.
pub proof fn lemma_power_of_product(a: nat, b: nat, exponent: nat)
    ensures
        power(a * b, exponent) == power(a, exponent) * power(b, exponent),
    decreases exponent,
{
    if exponent > 0 {
        let e = (exponent - 1) as nat;
        lemma_power_of_product(a, b, e);
        let pa = power(a, e);
        let pb = power(b, e);
        assert(power(a * b, exponent) == (a * b) * power(a * b, e));
        assert(power(a, exponent) == a * pa);
        assert(power(b, exponent) == b * pb);
        assert((a * b) * (pa * pb) == (a * pa) * (b * pb)) by (nonlinear_arith);
    } else {
        assert(1 * 1 == 1) by (nonlinear_arith);
    }
}

/// Growth rounds once and down: the grown value is the largest whole number that, scaled
/// back up, does not exceed the exact product. It is less than one below the exact value.
pub proof fn lemma_grown_rounds_once(base: nat, factor_permille: nat, steps: nat)
    ensures
        grown(base, factor_permille, steps) * power(1000, steps) <= base * power(
            factor_permille,
            steps,
        ),
        base * power(factor_permille, steps) < (grown(base, factor_permille, steps) + 1) * power(
            1000,
            steps,
        ),
{
    lemma_power_positive(1000, steps);
    let x = (base * power(factor_permille, steps)) as int;
    let d = power(1000, steps) as int;
    lemma_remainder_lower(x, d);
    lemma_remainder_upper(x, d);
    let q = x / d;
    assert(0 <= q) by {
        vstd::arithmetic::div_mod::lemma_div_pos_is_pos(x, d);
    }
    assert((q + 1) * d == q * d + d) by (nonlinear_arith);
}

/// A number that is so many whole units of a scale and a rest below the scale has that many
/// units as its whole part.
pub proof fn lemma_whole_part(exact: nat, scale: nat, whole: nat, rest: nat)
    requires
        exact == whole * scale + rest,
        rest < scale,
    ensures
        exact as int / (scale as int) == whole,
{
    lemma_fundamental_div_mod_converse(exact as int, scale as int, whole as int, rest as int);
}

/// With a factor of at least one a further step never shrinks the grown value.
pub proof fn lemma_grown_step_rises(base: nat, factor_permille: nat, steps: nat)
    requires
        factor_permille >= 1000,
    ensures
        grown(base, factor_permille, steps) <= grown(base, factor_permille, steps + 1),
{
    lemma_power_positive(1000, steps);
    lemma_power_step(1000, steps);
    lemma_power_step(factor_permille, steps);
    let n = (base * power(factor_permille, steps)) as int;
    let p = power(1000, steps) as int;
    let f = factor_permille as int;
    let next = (base * power(factor_permille, steps + 1)) as int;
    assert(next == n * f) by (nonlinear_arith)
        requires
            next == base * (f * power(factor_permille, steps)),
            n == base * power(factor_permille, steps),
    ;
    assert(1000 * n <= n * f) by (nonlinear_arith)
        requires
            f >= 1000,
            n >= 0,
    ;
    lemma_div_multiples_vanish_quotient(1000, n, p);
    lemma_div_is_ordered(1000 * n, n * f, 1000 * p);
    assert(power(1000, steps + 1) as int == 1000 * p);
}

/// With a factor of at least one the grown value never shrinks as the steps go on.
pub proof fn lemma_grown_rises(base: nat, factor_permille: nat, earlier: nat, later: nat)
    requires
        factor_permille >= 1000,
        earlier <= later,
    ensures
        grown(base, factor_permille, earlier) <= grown(base, factor_permille, later),
    decreases later - earlier,
{
    if earlier < later {
        lemma_grown_rises(base, factor_permille, earlier, (later - 1) as nat);
        lemma_grown_step_rises(base, factor_permille, (later - 1) as nat);
    }
}

/// With a factor below one a value that has shrunk to nothing stays nothing.
pub proof fn lemma_grown_stays_nothing(base: nat, factor_permille: nat, earlier: nat, later: nat)
    requires
        factor_permille < 1000,
        earlier <= later,
        grown(base, factor_permille, earlier) == 0,
    ensures
        grown(base, factor_permille, later) == 0,
    decreases later - earlier,
{
    if earlier < later {
        let steps = (later - 1) as nat;
        lemma_grown_stays_nothing(base, factor_permille, earlier, steps);
        lemma_power_positive(1000, steps);
        lemma_power_step(1000, steps);
        lemma_power_step(factor_permille, steps);
        let n = (base * power(factor_permille, steps)) as int;
        let p = power(1000, steps) as int;
        let f = factor_permille as int;
        lemma_remainder_upper(n, p);
        assert(n < p);
        let next = (base * power(factor_permille, steps + 1)) as int;
        assert(next == n * f) by (nonlinear_arith)
            requires
                next == base * (f * power(factor_permille, steps)),
                n == base * power(factor_permille, steps),
        ;
        assert(0 <= n * f < 1000 * p) by (nonlinear_arith)
            requires
                0 <= n < p,
                0 <= f < 1000,
        ;
        lemma_basic_div(n * f, 1000 * p);
    }
}

/// A factor of exactly one changes nothing.
pub proof fn lemma_grown_by_one(base: nat, steps: nat)
    ensures
        grown(base, 1000, steps) == base,
{
    lemma_power_positive(1000, steps);
    lemma_div_by_multiple(base as int, power(1000, steps) as int);
}

/// Nothing grows to nothing.
pub proof fn lemma_grown_from_nothing(factor_permille: nat, steps: nat)
    ensures
        grown(0, factor_permille, steps) == 0,
{
    lemma_power_positive(1000, steps);
    let q = power(factor_permille, steps);
    assert(0 * q == 0) by (nonlinear_arith);
    lemma_basic_div(0, power(1000, steps) as int);
}

/// No step is no growth.
pub proof fn lemma_grown_at_once(base: nat, factor_permille: nat)
    ensures
        grown(base, factor_permille, 0) == base,
{
    lemma_div_by_multiple(base as int, 1);
}

/// With a whole factor `m` the grown value is `base * m^steps`, and nothing is rounded.
pub proof fn lemma_grown_by_whole_factor(base: nat, m: nat, steps: nat)
    ensures
        grown(base, 1000 * m, steps) == base * power(m, steps),
{
    lemma_power_positive(1000, steps);
    lemma_power_of_product(1000, m, steps);
    let p = power(1000, steps);
    let q = power(m, steps);
    assert(base * (p * q) == (base * q) * p) by (nonlinear_arith);
    lemma_div_by_multiple((base * q) as int, p as int);
}

/// The number that digits in base 1000 write, lowest digit first.
pub open spec fn digits_value(digits: Seq<u32>) -> nat
    decreases digits.len(),
{
    if digits.len() == 0 {
        0
    } else {
        digits_value(digits.drop_last()) + digits.last() as nat * power(
            1000,
            (digits.len() - 1) as nat,
        )
    }
}

/// Whether every digit is a digit in base 1000.
pub open spec fn below_thousand(digits: Seq<u32>) -> bool {
    forall|i: int| 0 <= i < digits.len() ==> #[trigger] digits[i] < 1000
}

/// Digits in base 1000 write a number below 1000 to the power of their count.
pub proof fn lemma_digits_bounded(digits: Seq<u32>)
    requires
        below_thousand(digits),
    ensures
        digits_value(digits) < power(1000, digits.len()),
    decreases digits.len(),
{
    if digits.len() > 0 {
        let head = digits.drop_last();
        assert(below_thousand(head)) by {
            assert forall|i: int| 0 <= i < head.len() implies #[trigger] head[i] < 1000 by {
                assert(head[i] == digits[i]);
            }
        }
        lemma_digits_bounded(head);
        let n = (digits.len() - 1) as nat;
        lemma_power_step(1000, n);
        let p = power(1000, n);
        let last = digits.last();
        assert(last == digits[digits.len() - 1]);
        assert(last * p <= 999 * p) by (nonlinear_arith)
            requires
                last <= 999,
                p >= 0,
        ;
    }
}

/// One more digit on top adds the digit times the power of its place.
pub proof fn lemma_digits_with_one_more(digits: Seq<u32>, digit: u32)
    ensures
        digits_value(digits.push(digit)) == digits_value(digits) + digit * power(
            1000,
            digits.len(),
        ),
{
    assert(digits.push(digit).drop_last() =~= digits);
}

/// Multiplies a number written in digits of base 1000 by `factor`. The result has as many
/// digits; what does not fit them is carried out.
pub fn times(digits: &Vec<u32>, factor: u64) -> (product: (Vec<u32>, u64))
    requires
        below_thousand(digits@),
    ensures
        product.0@.len() == digits@.len(),
        below_thousand(product.0@),
        product.1 <= factor,
        digits_value(product.0@) + product.1 * power(1000, digits@.len()) == digits_value(
            digits@,
        ) * factor,
{
    let count = digits.len();
    let mut out: Vec<u32> = Vec::new();
    let mut carry: u64 = 0;
    let mut i: usize = 0;
    proof {
        assert(digits@.subrange(0, 0) =~= Seq::<u32>::empty());
        assert(0 * factor == 0) by (nonlinear_arith);
        assert(0 * power(1000, 0) == 0) by (nonlinear_arith);
    }
    while i < count
        invariant
            count == digits@.len(),
            i <= count,
            below_thousand(digits@),
            out@.len() == i,
            below_thousand(out@),
            carry <= factor,
            digits_value(out@) + carry * power(1000, i as nat) == digits_value(
                digits@.subrange(0, i as int),
            ) * factor,
        decreases count - i,
    {
        let digit = digits[i];
        assert(digit < 1000);
        assert(digit * factor + carry <= 999 * 0xffff_ffff_ffff_ffff + 0xffff_ffff_ffff_ffff)
            by (nonlinear_arith)
            requires
                digit <= 999,
                factor <= 0xffff_ffff_ffff_ffff,
                carry <= 0xffff_ffff_ffff_ffff,
        ;
        let wide: u128 = digit as u128 * factor as u128 + carry as u128;
        let low: u32 = (wide % 1000) as u32;
        let high: u128 = wide / 1000;
        assert(high <= factor) by (nonlinear_arith)
            requires
                high == wide / 1000,
                wide == digit * factor + carry,
                digit <= 999,
                carry <= factor,
        ;
        proof {
            let before = out@;
            let taken = digits@.subrange(0, i as int);
            let place = power(1000, i as nat);
            lemma_digits_with_one_more(before, low);
            assert(digits@.subrange(0, i + 1) =~= taken.push(digit));
            lemma_digits_with_one_more(taken, digit);
            lemma_power_step(1000, i as nat);
            let vb = digits_value(before) as int;
            let vt = digits_value(taken) as int;
            let c = carry as int;
            let f = factor as int;
            let d = digit as int;
            let w = wide as int;
            let l = low as int;
            let h = high as int;
            let pl = place as int;
            assert(w == 1000 * h + l);
            assert(vb + l * pl + h * (1000 * pl) == (vt + d * pl) * f) by (nonlinear_arith)
                requires
                    vb + c * pl == vt * f,
                    w == d * f + c,
                    w == 1000 * h + l,
            ;
        }
        out.push(low);
        carry = high as u64;
        i = i + 1;
    }
    assert(digits@.subrange(0, count as int) =~= digits@);
    (out, carry)
}

/// `base` grown `steps` times by a factor of `factor_permille` thousandths, rounded down
/// once at the end, and held at `cap` where it would pass it.
pub fn grown_capped(base: u64, factor_permille: u64, steps: u32, cap: u64) -> (value: u64)
    ensures
        value == (if grown(base as nat, factor_permille as nat, steps as nat) > cap {
            cap as nat
        } else {
            grown(base as nat, factor_permille as nat, steps as nat)
        }),
{
    let ghost b = base as nat;
    let ghost f = factor_permille as nat;
    if steps == 0 || factor_permille == 1000 {
        proof {
            lemma_grown_at_once(b, f);
            lemma_grown_by_one(b, steps as nat);
        }
        return if base > cap {
            cap
        } else {
            base
        };
    }
    if base == 0 {
        proof {
            lemma_grown_from_nothing(f, steps as nat);
        }
        return 0;
    }
    if factor_permille > 1000 && base >= cap {
        proof {
            lemma_grown_at_once(b, f);
            lemma_grown_rises(b, f, 0, steps as nat);
        }
        return cap;
    }
    let mut top: u64 = base;
    let mut rest: Vec<u32> = Vec::new();
    let mut done: u32 = 0;
    proof {
        assert(b * 1 == top * 1 + 0) by (nonlinear_arith)
            requires
                b == top,
        ;
    }
    while done < steps
        invariant
            b == base,
            f == factor_permille,
            factor_permille != 1000,
            done <= steps,
            rest@.len() == done,
            below_thousand(rest@),
            b * power(f, done as nat) == top * power(1000, done as nat) + digits_value(rest@),
            factor_permille > 1000 ==> top < cap,
        decreases steps - done,
    {
        let (scaled, carry) = times(&rest, factor_permille);
        assert(top * factor_permille + carry <= 0xffff_ffff_ffff_ffff * 0xffff_ffff_ffff_ffff
            + 0xffff_ffff_ffff_ffff) by (nonlinear_arith)
            requires
                top <= 0xffff_ffff_ffff_ffff,
                factor_permille <= 0xffff_ffff_ffff_ffff,
                carry <= 0xffff_ffff_ffff_ffff,
        ;
        let wide: u128 = top as u128 * factor_permille as u128 + carry as u128;
        let next: u128 = wide / 1000;
        let digit: u32 = (wide % 1000) as u32;
        let ghost before = scaled@;
        let mut grown_rest = scaled;
        grown_rest.push(digit);
        proof {
            let n = done as nat;
            lemma_power_step(1000, n);
            lemma_power_step(f, n);
            lemma_digits_with_one_more(before, digit);
            let p = power(1000, n) as int;
            let q = power(f, n) as int;
            let v = digits_value(rest@) as int;
            let vs = digits_value(before) as int;
            let c = carry as int;
            let t = top as int;
            let fi = f as int;
            let w = wide as int;
            let nx = next as int;
            let d = digit as int;
            let bi = b as int;
            assert(w == 1000 * nx + d);
            assert(bi * (fi * q) == nx * (1000 * p) + (vs + d * p)) by (nonlinear_arith)
                requires
                    bi * q == t * p + v,
                    vs + c * p == v * fi,
                    w == t * fi + c,
                    w == 1000 * nx + d,
            ;
            assert(below_thousand(grown_rest@)) by {
                assert forall|i: int| 0 <= i < grown_rest@.len() implies #[trigger] grown_rest@[i]
                    < 1000 by {
                    if i < before.len() {
                        assert(grown_rest@[i] == before[i]);
                    }
                }
            }
            lemma_digits_bounded(grown_rest@);
            lemma_whole_part(
                b * power(f, n + 1),
                power(1000, n + 1),
                next as nat,
                digits_value(grown_rest@),
            );
            assert(grown(b, f, n + 1) == next);
        }
        if factor_permille > 1000 {
            if next >= cap as u128 {
                proof {
                    lemma_grown_rises(b, f, (done + 1) as nat, steps as nat);
                }
                return cap;
            }
        } else {
            assert(next <= top) by (nonlinear_arith)
                requires
                    next == wide / 1000,
                    wide == top * factor_permille + carry,
                    factor_permille <= 999,
                    carry <= factor_permille,
            ;
            if next == 0 {
                proof {
                    lemma_grown_stays_nothing(b, f, (done + 1) as nat, steps as nat);
                }
                return 0;
            }
        }
        top = next as u64;
        rest = grown_rest;
        done = done + 1;
    }
    proof {
        lemma_digits_bounded(rest@);
        lemma_whole_part(
            b * power(f, steps as nat),
            power(1000, steps as nat),
            top as nat,
            digits_value(rest@),
        );
    }
    if top > cap {
        cap
    } else {
        top
    }
}

} // verus!
