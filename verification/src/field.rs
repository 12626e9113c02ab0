//! The Goldilocks base field.
//!
//! Wire values, constants and constraint values are elements of the prime
//! field of order 2^64 - 2^32 + 1, carried as canonical `u64` representatives.
//! Each operation is specified as plain integer arithmetic modulo the order
//! and proved against that statement.

use vstd::prelude::*;

verus! {

/// Order of the Goldilocks field, 2^64 - 2^32 + 1.
pub const FIELD_ORDER: u64 = 0xFFFF_FFFF_0000_0001;

/// A canonical representative of a field element.
pub open spec fn valid_elem(x: u64) -> bool {
    x < FIELD_ORDER
}

/// Every entry of the sequence is a canonical field element.
pub open spec fn valid_row(s: Seq<u64>) -> bool {
    forall|i: int| 0 <= i < s.len() ==> valid_elem(#[trigger] s[i])
}

/// Field addition on canonical representatives.
pub open spec fn fadd(a: int, b: int) -> int {
    (a + b) % (FIELD_ORDER as int)
}

/// Field subtraction on canonical representatives.
pub open spec fn fsub(a: int, b: int) -> int {
    (a - b) % (FIELD_ORDER as int)
}

/// Field multiplication on canonical representatives.
pub open spec fn fmul(a: int, b: int) -> int {
    (a * b) % (FIELD_ORDER as int)
}

/// The e-th power of b in the field, folded from the left exactly as the
/// witness generators compute it: one multiplication per step.
pub open spec fn pow_f(b: int, e: nat) -> int
    decreases e,
{
    if e == 0 {
        1
    } else {
        fmul(pow_f(b, (e - 1) as nat), b)
    }
}

/// Field addition of two canonical representatives.
pub fn f_add(a: u64, b: u64) -> (r: u64)
    requires
        valid_elem(a),
        valid_elem(b),
    ensures
        valid_elem(r),
        r as int == fadd(a as int, b as int),
{
    let s: u128 = a as u128 + b as u128;
    let m: u128 = s % (FIELD_ORDER as u128);
    m as u64
}

/// Field subtraction of two canonical representatives.
pub fn f_sub(a: u64, b: u64) -> (r: u64)
    requires
        valid_elem(a),
        valid_elem(b),
    ensures
        valid_elem(r),
        r as int == fsub(a as int, b as int),
{
    let s: u128 = a as u128 + FIELD_ORDER as u128 - b as u128;
    let m: u128 = s % (FIELD_ORDER as u128);
    proof {
        vstd::arithmetic::div_mod::lemma_mod_add_multiples_vanish(
            a - b,
            FIELD_ORDER as int,
        );
    }
    m as u64
}

/// Field multiplication of two canonical representatives.
pub fn f_mul(a: u64, b: u64) -> (r: u64)
    requires
        valid_elem(a),
        valid_elem(b),
    ensures
        valid_elem(r),
        r as int == fmul(a as int, b as int),
{
    proof {
        vstd::arithmetic::mul::lemma_mul_upper_bound(
            a as int,
            u64::MAX as int,
            b as int,
            u64::MAX as int,
        );
    }
    let p: u128 = (a as u128) * (b as u128);
    let m: u128 = p % (FIELD_ORDER as u128);
    m as u64
}

/// A field element is unchanged by reduction.
pub proof fn lemma_elem_mod_noop(a: u64)
    requires
        valid_elem(a),
    ensures
        a as int % (FIELD_ORDER as int) == a as int,
{
    vstd::arithmetic::div_mod::lemma_small_mod(a as nat, FIELD_ORDER as nat);
}

/// Subtracting an element from itself gives zero.
pub proof fn lemma_fsub_self(a: int)
    ensures
        fsub(a, a) == 0,
{
    assert((a - a) % (FIELD_ORDER as int) == 0);
}

/// `fsub` is injective in its first argument on canonical representatives:
/// two different minuends leave different residues.
pub proof fn lemma_fsub_left_injective(a: int, b: int, m: int)
    requires
        0 <= a < FIELD_ORDER as int,
        0 <= b < FIELD_ORDER as int,
        a != b,
    ensures
        fsub(a, m) != fsub(b, m),
{
    let p = FIELD_ORDER as int;
    if fsub(a, m) == fsub(b, m) {
        vstd::arithmetic::div_mod::lemma_mod_equivalence(a - m, b - m, p);
        assert(((a - m) - (b - m)) % p == 0);
        assert((a - b) % p == 0);
        if a < b {
            assert((a - b + p) % p == 0) by {
                vstd::arithmetic::div_mod::lemma_mod_add_multiples_vanish(
                    a - b,
                    p,
                );
            }
            vstd::arithmetic::div_mod::lemma_small_mod(
                (a - b + p) as nat,
                p as nat,
            );
        } else {
            vstd::arithmetic::div_mod::lemma_small_mod((a - b) as nat, p as nat);
        }
    }
}

/// `fsub` is injective in its second argument on canonical representatives.
pub proof fn lemma_fsub_right_injective(m: int, a: int, b: int)
    requires
        0 <= a < FIELD_ORDER as int,
        0 <= b < FIELD_ORDER as int,
        a != b,
    ensures
        fsub(m, a) != fsub(m, b),
{
    let p = FIELD_ORDER as int;
    if fsub(m, a) == fsub(m, b) {
        vstd::arithmetic::div_mod::lemma_mod_equivalence(m - a, m - b, p);
        assert((b - a) % p == 0);
        if b < a {
            assert((b - a + p) % p == 0) by {
                vstd::arithmetic::div_mod::lemma_mod_add_multiples_vanish(
                    b - a,
                    p,
                );
            }
            vstd::arithmetic::div_mod::lemma_small_mod(
                (b - a + p) as nat,
                p as nat,
            );
        } else {
            vstd::arithmetic::div_mod::lemma_small_mod((b - a) as nat, p as nat);
        }
    }
}

/// `fadd` is injective in its first argument on canonical representatives.
pub proof fn lemma_fadd_left_injective(a: int, b: int, m: int)
    requires
        0 <= a < FIELD_ORDER as int,
        0 <= b < FIELD_ORDER as int,
        a != b,
    ensures
        fadd(a, m) != fadd(b, m),
{
    lemma_fadd_right_injective(m, a, b);
    assert(fadd(a, m) == fadd(m, a));
    assert(fadd(b, m) == fadd(m, b));
}

/// `fadd` is injective in its second argument on canonical representatives.
pub proof fn lemma_fadd_right_injective(m: int, a: int, b: int)
    requires
        0 <= a < FIELD_ORDER as int,
        0 <= b < FIELD_ORDER as int,
        a != b,
    ensures
        fadd(m, a) != fadd(m, b),
{
    let p = FIELD_ORDER as int;
    if fadd(m, a) == fadd(m, b) {
        vstd::arithmetic::div_mod::lemma_mod_equivalence(m + a, m + b, p);
        assert((a - b) % p == 0);
        if a < b {
            assert((a - b + p) % p == 0) by {
                vstd::arithmetic::div_mod::lemma_mod_add_multiples_vanish(
                    a - b,
                    p,
                );
            }
            vstd::arithmetic::div_mod::lemma_small_mod(
                (a - b + p) as nat,
                p as nat,
            );
        } else {
            vstd::arithmetic::div_mod::lemma_small_mod((a - b) as nat, p as nat);
        }
    }
}

} // verus!
