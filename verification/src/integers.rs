//! The machine integers `i32` and `i64` as coefficient rings.
//!
//! Arithmetic wraps around, which makes each type the ring of integers
//! modulo two to the power of its width. The inverse on offer is that of the
//! integers themselves: only `1` and `-1` have one.
use crate::traits::RingType;
use vstd::prelude::*;
use vstd::wrapping::{i32_specs, i64_specs};

verus! {

/// `num_traits::Zero::zero` for `i64`, which that crate defines as the
/// literal `0`.
#[verifier::external_body]
fn zero_i64() -> (r: i64)
    ensures
        r == 0,
{
    num_traits::Zero::zero()
}

/// `num_traits::One::one` for `i64`, which that crate defines as the
/// literal `1`.
#[verifier::external_body]
fn one_i64() -> (r: i64)
    ensures
        r == 1,
{
    num_traits::One::one()
}

/// A wrapping sum is the exact sum brought back into range.
proof fn lemma_wrapping_add_i64(a: i64, b: i64)
    ensures
        i64_specs::wrapping_add(a, b) == i64_specs::signed_crop(a + b),
{
}

/// Bringing into range is the identity on values in range, and otherwise
/// depends on the residue modulo 2^64 alone.
proof fn lemma_crop_i64(x: int, y: int)
    ensures
        i64::MIN <= x <= i64::MAX ==> i64_specs::signed_crop(x) == x,
        x % 0x1_0000_0000_0000_0000 == y % 0x1_0000_0000_0000_0000 ==> i64_specs::signed_crop(x)
            == i64_specs::signed_crop(y),
        i64_specs::signed_crop(x) as int % 0x1_0000_0000_0000_0000 == x
            % 0x1_0000_0000_0000_0000,
{
}

/// Products of operands that agree modulo 2^64 agree modulo 2^64.
proof fn lemma_mul_congruent_i64(a: int, b: int, c: int, d: int)
    requires
        a % 0x1_0000_0000_0000_0000 == c % 0x1_0000_0000_0000_0000,
        b % 0x1_0000_0000_0000_0000 == d % 0x1_0000_0000_0000_0000,
    ensures
        (a * b) % 0x1_0000_0000_0000_0000 == (c * d) % 0x1_0000_0000_0000_0000,
{
    vstd::arithmetic::div_mod::lemma_mul_mod_noop_general(a, b, 0x1_0000_0000_0000_0000);
    vstd::arithmetic::div_mod::lemma_mul_mod_noop_general(c, d, 0x1_0000_0000_0000_0000);
}

/// Sums of operands that agree modulo 2^64 agree modulo 2^64.
proof fn lemma_add_congruent_i64(a: int, b: int, c: int, d: int)
    requires
        a % 0x1_0000_0000_0000_0000 == c % 0x1_0000_0000_0000_0000,
        b % 0x1_0000_0000_0000_0000 == d % 0x1_0000_0000_0000_0000,
    ensures
        (a + b) % 0x1_0000_0000_0000_0000 == (c + d) % 0x1_0000_0000_0000_0000,
{
}

/// Distributivity carries over to representatives modulo 2^64.
proof fn lemma_distributes_mod_i64(a: int, b: int, c: int, bc: int, p: int, q: int)
    requires
        bc % 0x1_0000_0000_0000_0000 == (b + c) % 0x1_0000_0000_0000_0000,
        p % 0x1_0000_0000_0000_0000 == (a * b) % 0x1_0000_0000_0000_0000,
        q % 0x1_0000_0000_0000_0000 == (a * c) % 0x1_0000_0000_0000_0000,
    ensures
        (a * bc) % 0x1_0000_0000_0000_0000 == (p + q) % 0x1_0000_0000_0000_0000,
{
    lemma_mul_congruent_i64(a, bc, a, b + c);
    assert(a * (b + c) == a * b + a * c) by (nonlinear_arith);
    lemma_add_congruent_i64(p, q, a * b, a * c);
}

impl RingType for i64 {
    type V = i64;

    open spec fn val(&self) -> i64 {
        *self
    }

    open spec fn in_ring(v: i64) -> bool {
        true
    }

    open spec fn zero_v() -> i64 {
        0
    }

    open spec fn one_v() -> i64 {
        1
    }

    open spec fn add_v(a: i64, b: i64) -> i64 {
        i64_specs::wrapping_add(a, b)
    }

    open spec fn neg_v(a: i64) -> i64 {
        i64_specs::wrapping_sub(0, a)
    }

    open spec fn mul_v(a: i64, b: i64) -> i64 {
        i64_specs::wrapping_mul(a, b)
    }

    open spec fn inv_v(a: i64) -> Option<i64> {
        if a == 1 || a == -1 {
            Some(a)
        } else {
            None
        }
    }

    fn zero() -> (r: Self) {
        zero_i64()
    }

    fn one() -> (r: Self) {
        one_i64()
    }

    fn ring_eq(&self, rhs: &Self) -> (r: bool) {
        *self == *rhs
    }

    fn ring_add(&self, rhs: &Self) -> (r: Self) {
        self.wrapping_add(*rhs)
    }

    fn ring_neg(&self) -> (r: Self) {
        0i64.wrapping_sub(*self)
    }

    fn ring_sub(&self, rhs: &Self) -> (r: Self) {
        self.wrapping_sub(*rhs)
    }

    fn ring_mul(&self, rhs: &Self) -> (r: Self) {
        self.wrapping_mul(*rhs)
    }

    fn ring_inv(&self) -> (r: Option<Self>) {
        if *self == 1 || *self == -1 {
            Some(*self)
        } else {
            None
        }
    }

    proof fn lemma_val_in_ring(x: &Self) {
    }

    proof fn lemma_closed(a: i64, b: i64) {
    }

    proof fn lemma_add_commutes(a: i64, b: i64) {
    }

    proof fn lemma_add_associates(a: i64, b: i64, c: i64) {
    }

    proof fn lemma_add_zero(a: i64) {
    }

    proof fn lemma_add_neg(a: i64) {
    }

    proof fn lemma_mul_one(a: i64) {
        assert(a * 1 == a && 1 * a == a);
    }

    proof fn lemma_mul_zero(a: i64) {
        assert(a * 0 == 0 && 0 * a == 0);
    }

    proof fn lemma_mul_distributes(a: i64, b: i64, c: i64) {
        let bc = i64_specs::wrapping_add(b, c);
        let ab = i64_specs::wrapping_add(a, b);
        let p = i64_specs::wrapping_mul(a, b);
        let q = i64_specs::wrapping_mul(a, c);
        let s = i64_specs::wrapping_mul(b, c);
        lemma_wrapping_add_i64(b, c);
        lemma_wrapping_add_i64(a, b);
        lemma_wrapping_add_i64(p, q);
        lemma_wrapping_add_i64(q, s);
        lemma_crop_i64(b + c, b + c);
        lemma_crop_i64(a + b, a + b);
        lemma_crop_i64(a * b, a * b);
        lemma_crop_i64(a * c, a * c);
        lemma_crop_i64(b * c, b * c);
        lemma_distributes_mod_i64(a as int, b as int, c as int, bc as int, p as int, q as int);
        lemma_crop_i64(a * bc, p + q);
        assert(c * a == a * c) by (nonlinear_arith);
        assert(c * b == b * c) by (nonlinear_arith);
        assert(c * ab == ab * c) by (nonlinear_arith);
        lemma_distributes_mod_i64(c as int, a as int, b as int, ab as int, q as int, s as int);
        lemma_crop_i64(ab * c, q + s);
    }

    proof fn lemma_inverse_cancels(a: i64, b: i64) {
        assert(a * 1 == a);
        assert(a * (-1) == -a);
        let t = i64_specs::wrapping_mul(a, b);
        assert(t * 1 == t);
        assert(t * (-1) == -t);
    }
}

/// `num_traits::Zero::zero` for `i32`, which that crate defines as the
/// literal `0`.
#[verifier::external_body]
fn zero_i32() -> (r: i32)
    ensures
        r == 0,
{
    num_traits::Zero::zero()
}

/// `num_traits::One::one` for `i32`, which that crate defines as the
/// literal `1`.
#[verifier::external_body]
fn one_i32() -> (r: i32)
    ensures
        r == 1,
{
    num_traits::One::one()
}

/// A wrapping sum is the exact sum brought back into range.
proof fn lemma_wrapping_add_i32(a: i32, b: i32)
    ensures
        i32_specs::wrapping_add(a, b) == i32_specs::signed_crop(a + b),
{
}

/// Bringing into range is the identity on values in range, and otherwise
/// depends on the residue modulo 2^32 alone.
proof fn lemma_crop_i32(x: int, y: int)
    ensures
        i32::MIN <= x <= i32::MAX ==> i32_specs::signed_crop(x) == x,
        x % 0x1_0000_0000 == y % 0x1_0000_0000 ==> i32_specs::signed_crop(x)
            == i32_specs::signed_crop(y),
        i32_specs::signed_crop(x) as int % 0x1_0000_0000 == x
            % 0x1_0000_0000,
{
}

/// Products of operands that agree modulo 2^32 agree modulo 2^32.
proof fn lemma_mul_congruent_i32(a: int, b: int, c: int, d: int)
    requires
        a % 0x1_0000_0000 == c % 0x1_0000_0000,
        b % 0x1_0000_0000 == d % 0x1_0000_0000,
    ensures
        (a * b) % 0x1_0000_0000 == (c * d) % 0x1_0000_0000,
{
    vstd::arithmetic::div_mod::lemma_mul_mod_noop_general(a, b, 0x1_0000_0000);
    vstd::arithmetic::div_mod::lemma_mul_mod_noop_general(c, d, 0x1_0000_0000);
}

/// Sums of operands that agree modulo 2^32 agree modulo 2^32.
proof fn lemma_add_congruent_i32(a: int, b: int, c: int, d: int)
    requires
        a % 0x1_0000_0000 == c % 0x1_0000_0000,
        b % 0x1_0000_0000 == d % 0x1_0000_0000,
    ensures
        (a + b) % 0x1_0000_0000 == (c + d) % 0x1_0000_0000,
{
}

/// Distributivity carries over to representatives modulo 2^32.
proof fn lemma_distributes_mod_i32(a: int, b: int, c: int, bc: int, p: int, q: int)
    requires
        bc % 0x1_0000_0000 == (b + c) % 0x1_0000_0000,
        p % 0x1_0000_0000 == (a * b) % 0x1_0000_0000,
        q % 0x1_0000_0000 == (a * c) % 0x1_0000_0000,
    ensures
        (a * bc) % 0x1_0000_0000 == (p + q) % 0x1_0000_0000,
{
    lemma_mul_congruent_i32(a, bc, a, b + c);
    assert(a * (b + c) == a * b + a * c) by (nonlinear_arith);
    lemma_add_congruent_i32(p, q, a * b, a * c);
}

impl RingType for i32 {
    type V = i32;

    open spec fn val(&self) -> i32 {
        *self
    }

    open spec fn in_ring(v: i32) -> bool {
        true
    }

    open spec fn zero_v() -> i32 {
        0
    }

    open spec fn one_v() -> i32 {
        1
    }

    open spec fn add_v(a: i32, b: i32) -> i32 {
        i32_specs::wrapping_add(a, b)
    }

    open spec fn neg_v(a: i32) -> i32 {
        i32_specs::wrapping_sub(0, a)
    }

    open spec fn mul_v(a: i32, b: i32) -> i32 {
        i32_specs::wrapping_mul(a, b)
    }

    open spec fn inv_v(a: i32) -> Option<i32> {
        if a == 1 || a == -1 {
            Some(a)
        } else {
            None
        }
    }

    fn zero() -> (r: Self) {
        zero_i32()
    }

    fn one() -> (r: Self) {
        one_i32()
    }

    fn ring_eq(&self, rhs: &Self) -> (r: bool) {
        *self == *rhs
    }

    fn ring_add(&self, rhs: &Self) -> (r: Self) {
        self.wrapping_add(*rhs)
    }

    fn ring_neg(&self) -> (r: Self) {
        0i32.wrapping_sub(*self)
    }

    fn ring_sub(&self, rhs: &Self) -> (r: Self) {
        self.wrapping_sub(*rhs)
    }

    fn ring_mul(&self, rhs: &Self) -> (r: Self) {
        self.wrapping_mul(*rhs)
    }

    fn ring_inv(&self) -> (r: Option<Self>) {
        if *self == 1 || *self == -1 {
            Some(*self)
        } else {
            None
        }
    }

    proof fn lemma_val_in_ring(x: &Self) {
    }

    proof fn lemma_closed(a: i32, b: i32) {
    }

    proof fn lemma_add_commutes(a: i32, b: i32) {
    }

    proof fn lemma_add_associates(a: i32, b: i32, c: i32) {
    }

    proof fn lemma_add_zero(a: i32) {
    }

    proof fn lemma_add_neg(a: i32) {
    }

    proof fn lemma_mul_one(a: i32) {
        assert(a * 1 == a && 1 * a == a);
    }

    proof fn lemma_mul_zero(a: i32) {
        assert(a * 0 == 0 && 0 * a == 0);
    }

    proof fn lemma_mul_distributes(a: i32, b: i32, c: i32) {
        let bc = i32_specs::wrapping_add(b, c);
        let ab = i32_specs::wrapping_add(a, b);
        let p = i32_specs::wrapping_mul(a, b);
        let q = i32_specs::wrapping_mul(a, c);
        let s = i32_specs::wrapping_mul(b, c);
        lemma_wrapping_add_i32(b, c);
        lemma_wrapping_add_i32(a, b);
        lemma_wrapping_add_i32(p, q);
        lemma_wrapping_add_i32(q, s);
        lemma_crop_i32(b + c, b + c);
        lemma_crop_i32(a + b, a + b);
        lemma_crop_i32(a * b, a * b);
        lemma_crop_i32(a * c, a * c);
        lemma_crop_i32(b * c, b * c);
        lemma_distributes_mod_i32(a as int, b as int, c as int, bc as int, p as int, q as int);
        lemma_crop_i32(a * bc, p + q);
        assert(c * a == a * c) by (nonlinear_arith);
        assert(c * b == b * c) by (nonlinear_arith);
        assert(c * ab == ab * c) by (nonlinear_arith);
        lemma_distributes_mod_i32(c as int, a as int, b as int, ab as int, q as int, s as int);
        lemma_crop_i32(ab * c, q + s);
    }

    proof fn lemma_inverse_cancels(a: i32, b: i32) {
        assert(a * 1 == a);
        assert(a * (-1) == -a);
        let t = i32_specs::wrapping_mul(a, b);
        assert(t * 1 == t);
        assert(t * (-1) == -t);
    }
}

} // verus!
