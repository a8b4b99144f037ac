//! Floor and truncating division on machine integers, with their contracts.
use vstd::prelude::*;

verus! {

/// Division that rounds toward zero, as Rust's `/` does on signed integers.
pub open spec fn trunc_div(a: int, b: int) -> int {
    if a >= 0 {
        a / b
    } else {
        -((-a) / b)
    }
}

/// The remainder of `trunc_div`: it has the sign of `a`.
pub open spec fn trunc_rem(a: int, b: int) -> int {
    a - b * trunc_div(a, b)
}

/// `-((-a - 1) / b) - 1` is the floor of `a / b` for negative `a`.
proof fn lemma_floor_div_negative(a: int, b: int)
    requires
        a < 0,
        b > 0,
    ensures
        -((-a - 1) / b) - 1 == a / b,
{
    let n = -a - 1;
    let q = n / b;
    let r = n % b;
    vstd::arithmetic::div_mod::lemma_fundamental_div_mod(n, b);
    vstd::arithmetic::div_mod::lemma_mod_bound(n, b);
    // a == -(q * b + r) - 1 == (-q - 1) * b + (b - 1 - r), with 0 <= b - 1 - r < b
    assert(a == (-q - 1) * b + (b - 1 - r)) by (nonlinear_arith)
        requires
            n == b * q + r,
            a == -n - 1,
    ;
    vstd::arithmetic::div_mod::lemma_fundamental_div_mod_converse(a, b, -q - 1, b - 1 - r);
}

/// Floor division by a positive divisor, on machine integers.
pub fn div_floor(a: i64, b: i64) -> (q: i64)
    requires
        b > 0,
        a > i64::MIN,
    ensures
        q == a / b,
{
    if a >= 0 {
        a / b
    } else {
        proof {
            lemma_floor_div_negative(a as int, b as int);
        }
        let n = -a - 1;
        -(n / b) - 1
    }
}

/// The remainder of floor division by a positive divisor, on machine integers.
pub fn rem_floor(a: i64, b: i64) -> (r: i64)
    requires
        0 < b < 1_000_000,
        -1_000_000_000_000_000 < a < 1_000_000_000_000_000,
    ensures
        r == a % b,
        0 <= r < b,
{
    let q = div_floor(a, b);
    proof {
        vstd::arithmetic::div_mod::lemma_fundamental_div_mod(a as int, b as int);
        vstd::arithmetic::div_mod::lemma_mod_bound(a as int, b as int);
        vstd::arithmetic::mul::lemma_mul_is_commutative(b as int, q as int);
        assert(q * b == a - a % b);
    }
    a - q * b
}

/// Truncating division by a positive divisor, on machine integers.
pub fn div_trunc(a: i128, b: i128) -> (q: i128)
    requires
        b > 0,
        a > i128::MIN,
    ensures
        q == trunc_div(a as int, b as int),
{
    if a >= 0 {
        a / b
    } else {
        -((-a) / b)
    }
}

/// Facts about truncating division by a positive divisor.
pub proof fn lemma_trunc_div(a: int, b: int)
    requires
        b > 0,
    ensures
        a == b * trunc_div(a, b) + trunc_rem(a, b),
        a >= 0 ==> 0 <= trunc_rem(a, b) < b && trunc_div(a, b) >= 0,
        a < 0 ==> -b < trunc_rem(a, b) <= 0 && trunc_div(a, b) <= 0,
        -a >= 0 ==> trunc_div(-a, b) == -trunc_div(a, b),
        a >= 0 ==> trunc_div(-a, b) == -trunc_div(a, b),
{
    vstd::arithmetic::div_mod::lemma_fundamental_div_mod(a, b);
    vstd::arithmetic::div_mod::lemma_fundamental_div_mod(-a, b);
    vstd::arithmetic::div_mod::lemma_mod_bound(a, b);
    vstd::arithmetic::div_mod::lemma_mod_bound(-a, b);
    if a >= 0 {
        vstd::arithmetic::div_mod::lemma_div_pos_is_pos(a, b);
    } else {
        vstd::arithmetic::div_mod::lemma_div_pos_is_pos(-a, b);
    }
    vstd::arithmetic::mul::lemma_mul_unary_negation(b, (-a) / b);
}

/// `trunc_div` is the unique quotient whose remainder has the sign of the dividend.
pub proof fn lemma_trunc_div_unique(a: int, b: int, q: int, r: int)
    requires
        b > 0,
        a == b * q + r,
        a >= 0 ==> 0 <= r < b,
        a < 0 ==> -b < r <= 0,
    ensures
        q == trunc_div(a, b),
        r == trunc_rem(a, b),
{
    if a >= 0 {
        vstd::arithmetic::mul::lemma_mul_is_commutative(b, q);
        vstd::arithmetic::div_mod::lemma_fundamental_div_mod_converse(a, b, q, r);
    } else {
        vstd::arithmetic::mul::lemma_mul_is_commutative(b, -q);
        assert(-a == (-q) * b + (-r)) by (nonlinear_arith)
            requires
                a == b * q + r,
        ;
        vstd::arithmetic::div_mod::lemma_fundamental_div_mod_converse(-a, b, -q, -r);
    }
}

/// Floor division by a positive divisor, on 128-bit integers.
pub fn div_floor_i128(a: i128, b: i128) -> (q: i128)
    requires
        b > 0,
        a > i128::MIN,
    ensures
        q == a / b,
{
    if a >= 0 {
        a / b
    } else {
        proof {
            lemma_floor_div_negative(a as int, b as int);
        }
        let n = -a - 1;
        -(n / b) - 1
    }
}

} // verus!
