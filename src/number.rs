use num_cmp::NumCmp;
use vstd::arithmetic::mul::{lemma_mul_increases, lemma_mul_strict_upper_bound};
use vstd::arithmetic::power2::{
    lemma2_to64, lemma_pow2_pos, lemma_pow2_strictly_increases, lemma_pow2_unfold, pow2,
};
use vstd::prelude::*;

verus! {

/// A finite binary floating-point value, held exactly as
/// `(-1)^negative * mantissa * 2^exponent`.
#[derive(Clone, Copy, Debug, PartialEq, Eq, Structural)]
pub struct Float {
    pub negative: bool,
    pub mantissa: u64,
    pub exponent: i32,
}

/// A JSON number, tagged by the native form in which the parser produced it.
#[derive(Clone, Copy, Debug, PartialEq, Eq, Structural)]
pub enum Number {
    PosInt(u64),
    NegInt(i64),
    Float(Float),
}

/// The result of comparing two numbers.
#[derive(Clone, Copy, Debug, PartialEq, Eq, Structural)]
pub enum Cmp {
    Less,
    Equal,
    Greater,
}

/// Magnitude of a number's value, scaled by `2^-exponent(n)`.
pub open spec fn magnitude(n: Number) -> nat {
    match n {
        Number::PosInt(u) => u as nat,
        Number::NegInt(i) => if i < 0 { (-i) as nat } else { i as nat },
        Number::Float(f) => f.mantissa as nat,
    }
}

pub open spec fn exponent(n: Number) -> int {
    match n {
        Number::Float(f) => f.exponent as int,
        _ => 0,
    }
}

/// The value is strictly below zero.
pub open spec fn is_negative(n: Number) -> bool {
    match n {
        Number::PosInt(_) => false,
        Number::NegInt(i) => i < 0,
        Number::Float(f) => f.negative && f.mantissa != 0,
    }
}

/// `m1 * 2^e1 <= m2 * 2^e2`, both sides scaled to the smaller exponent.
pub open spec fn scaled_le(m1: nat, e1: int, m2: nat, e2: int) -> bool {
    if e1 >= e2 {
        m1 * pow2((e1 - e2) as nat) <= m2
    } else {
        m1 <= m2 * pow2((e2 - e1) as nat)
    }
}

/// `|a| <= |b|` as exact values.
pub open spec fn abs_le(a: Number, b: Number) -> bool {
    scaled_le(magnitude(a), exponent(a), magnitude(b), exponent(b))
}

/// The exact mathematical order on numbers, whatever their native forms.
pub open spec fn num_lt(a: Number, b: Number) -> bool {
    if is_negative(a) != is_negative(b) {
        is_negative(a)
    } else if is_negative(a) {
        !abs_le(a, b)
    } else {
        !abs_le(b, a)
    }
}

pub open spec fn num_eq(a: Number, b: Number) -> bool {
    !num_lt(a, b) && !num_lt(b, a)
}

pub open spec fn cmp_spec(a: Number, b: Number) -> Cmp {
    if num_lt(a, b) {
        Cmp::Less
    } else if num_lt(b, a) {
        Cmp::Greater
    } else {
        Cmp::Equal
    }
}

/// The number is an integer in native form.
pub open spec fn is_int(n: Number) -> bool {
    !(n is Float)
}

pub open spec fn int_value(n: Number) -> int {
    match n {
        Number::PosInt(u) => u as int,
        Number::NegInt(i) => i as int,
        Number::Float(_) => 0,
    }
}

/// On two integers the order is the order of `int`.
pub proof fn lemma_int_order(a: Number, b: Number)
    requires
        is_int(a),
        is_int(b),
    ensures
        num_lt(a, b) == (int_value(a) < int_value(b)),
        num_eq(a, b) == (int_value(a) == int_value(b)),
{
    lemma_scaled_same_exponent(magnitude(a), magnitude(b), 0);
    lemma_scaled_same_exponent(magnitude(b), magnitude(a), 0);
}

/// At one exponent the order of magnitudes is the order of mantissas.
pub proof fn lemma_scaled_same_exponent(m1: nat, m2: nat, e: int)
    ensures
        scaled_le(m1, e, m2, e) == (m1 <= m2),
{
    lemma2_to64();
    assert((e - e) as nat == 0);
    assert(m1 * pow2(0) == m1);
}

/// Of two exact magnitudes, one is at most the other.
pub proof fn lemma_scaled_total(m1: nat, e1: int, m2: nat, e2: int)
    ensures
        scaled_le(m1, e1, m2, e2) || scaled_le(m2, e2, m1, e1),
{
    if e1 == e2 {
        lemma_scaled_same_exponent(m1, m2, e1);
        lemma_scaled_same_exponent(m2, m1, e1);
    }
}

/// The order is strict: no two numbers are each below the other.
pub proof fn lemma_lt_asymmetric(a: Number, b: Number)
    ensures
        !(num_lt(a, b) && num_lt(b, a)),
{
    lemma_scaled_total(magnitude(a), exponent(a), magnitude(b), exponent(b));
}

/// Relies on num_cmp's `NumCmp<i64> for u64`: `a > b` on the exact values.
#[verifier::external_body]
fn u64_gt_i64(a: u64, b: i64) -> (r: bool)
    ensures
        r == (a as int > b as int),
{
    NumCmp::num_gt(a, b)
}

/// Relies on num_cmp's `NumCmp<u64> for i64`: `a > b` on the exact values.
#[verifier::external_body]
fn i64_gt_u64(a: i64, b: u64) -> (r: bool)
    ensures
        r == (a as int > b as int),
{
    NumCmp::num_gt(a, b)
}

fn pow2_u64(d: u32) -> (r: u64)
    requires
        d < 64,
    ensures
        r as nat == pow2(d as nat),
{
    let mut p: u64 = 1;
    let mut i: u32 = 0;
    proof {
        lemma2_to64();
    }
    while i < d
        invariant
            i <= d < 64,
            p as nat == pow2(i as nat),
        decreases d - i,
    {
        proof {
            lemma_pow2_unfold((i + 1) as nat);
            lemma_pow2_strictly_increases((i + 1) as nat, 64);
            lemma2_to64();
        }
        p = p * 2;
        i = i + 1;
    }
    p
}

/// Decides `m1 * 2^d <= m2` exactly.
fn shifted_le(m1: u64, d: u64, m2: u64) -> (r: bool)
    ensures
        r == (m1 * pow2(d as nat) <= m2),
{
    if m1 == 0 {
        return true;
    }
    if d >= 64 {
        proof {
            lemma2_to64();
            if d > 64 {
                lemma_pow2_strictly_increases(64, d as nat);
            }
            lemma_mul_increases(m1 as int, pow2(d as nat) as int);
        }
        return false;
    }
    let p = pow2_u64(d as u32);
    proof {
        lemma2_to64();
        lemma_pow2_pos(d as nat);
        lemma_pow2_strictly_increases(d as nat, 64);
        lemma_mul_strict_upper_bound(m1 as int, 0x1_0000_0000_0000_0000, p as int, 0x1_0000_0000_0000_0000);
    }
    (m1 as u128) * (p as u128) <= m2 as u128
}

/// Decides `m1 <= m2 * 2^d` exactly.
fn le_shifted(m1: u64, m2: u64, d: u64) -> (r: bool)
    ensures
        r == (m1 <= m2 * pow2(d as nat)),
{
    if m2 == 0 {
        return m1 == 0;
    }
    if d >= 64 {
        proof {
            lemma2_to64();
            if d > 64 {
                lemma_pow2_strictly_increases(64, d as nat);
            }
            lemma_mul_increases(m2 as int, pow2(d as nat) as int);
        }
        return true;
    }
    let p = pow2_u64(d as u32);
    proof {
        lemma2_to64();
        lemma_pow2_pos(d as nat);
        lemma_pow2_strictly_increases(d as nat, 64);
        lemma_mul_strict_upper_bound(m2 as int, 0x1_0000_0000_0000_0000, p as int, 0x1_0000_0000_0000_0000);
    }
    (m1 as u128) <= (m2 as u128) * (p as u128)
}

fn parts(n: &Number) -> (r: (bool, u64, i32))
    ensures
        r.0 == is_negative(*n),
        r.1 as nat == magnitude(*n),
        r.2 as int == exponent(*n),
{
    match n {
        Number::PosInt(u) => (false, *u, 0),
        Number::NegInt(i) => {
            let m: u64 = if *i < 0 {
                if *i == i64::MIN {
                    0x8000_0000_0000_0000
                } else {
                    (-*i) as u64
                }
            } else {
                *i as u64
            };
            (*i < 0, m, 0)
        },
        Number::Float(f) => (f.negative && f.mantissa != 0, f.mantissa, f.exponent),
    }
}

/// Decides `m1 * 2^e1 <= m2 * 2^e2` exactly.
fn scaled_le_exec(m1: u64, e1: i32, m2: u64, e2: i32) -> (r: bool)
    ensures
        r == scaled_le(m1 as nat, e1 as int, m2 as nat, e2 as int),
{
    if e1 >= e2 {
        shifted_le(m1, (e1 as i64 - e2 as i64) as u64, m2)
    } else {
        le_shifted(m1, m2, (e2 as i64 - e1 as i64) as u64)
    }
}

/// Compares two numbers through their exact values: pairs of integers of
/// different signedness through `num_cmp`, pairs with a float through the
/// exact binary expansion, never through a lossy cast.
pub fn compare(a: &Number, b: &Number) -> (r: Cmp)
    ensures
        r == cmp_spec(*a, *b),
{
    match (a, b) {
        (Number::PosInt(x), Number::PosInt(y)) => {
            proof {
                lemma_int_order(*a, *b);
            }
            if *x < *y {
                Cmp::Less
            } else if *x > *y {
                Cmp::Greater
            } else {
                Cmp::Equal
            }
        },
        (Number::NegInt(x), Number::NegInt(y)) => {
            proof {
                lemma_int_order(*a, *b);
            }
            if *x < *y {
                Cmp::Less
            } else if *x > *y {
                Cmp::Greater
            } else {
                Cmp::Equal
            }
        },
        (Number::PosInt(x), Number::NegInt(y)) => {
            proof {
                lemma_int_order(*a, *b);
            }
            if u64_gt_i64(*x, *y) {
                Cmp::Greater
            } else if i64_gt_u64(*y, *x) {
                Cmp::Less
            } else {
                Cmp::Equal
            }
        },
        (Number::NegInt(x), Number::PosInt(y)) => {
            proof {
                lemma_int_order(*a, *b);
            }
            if i64_gt_u64(*x, *y) {
                Cmp::Greater
            } else if u64_gt_i64(*y, *x) {
                Cmp::Less
            } else {
                Cmp::Equal
            }
        },
        _ => {
            let (na, ma, ea) = parts(a);
            let (nb, mb, eb) = parts(b);
            let lt = if na != nb {
                na
            } else if na {
                !scaled_le_exec(ma, ea, mb, eb)
            } else {
                !scaled_le_exec(mb, eb, ma, ea)
            };
            let gt = if na != nb {
                nb
            } else if nb {
                !scaled_le_exec(mb, eb, ma, ea)
            } else {
                !scaled_le_exec(ma, ea, mb, eb)
            };
            if lt {
                Cmp::Less
            } else if gt {
                Cmp::Greater
            } else {
                Cmp::Equal
            }
        },
    }
}

/// `a > b` on the exact values.
pub fn num_gt(a: &Number, b: &Number) -> (r: bool)
    ensures
        r == num_lt(*b, *a),
{
    proof {
        lemma_lt_asymmetric(*a, *b);
    }
    match compare(a, b) {
        Cmp::Greater => true,
        _ => false,
    }
}

/// `a == b` on the exact values, whatever their native forms.
pub fn num_equal(a: &Number, b: &Number) -> (r: bool)
    ensures
        r == num_eq(*a, *b),
{
    match compare(a, b) {
        Cmp::Equal => true,
        _ => false,
    }
}

} // verus!
