//! Polynomials as coefficients: a polynomial ring is itself a coefficient
//! ring, so polynomials in several indeterminates are polynomials whose
//! coefficients are polynomials.
use crate::lemmas::additive::{
    lemma_add_canonical, lemma_coeff_in_ring, lemma_neg_canonical, lemma_poly_add_associates,
    lemma_poly_add_commutes, lemma_poly_add_neg, lemma_poly_add_zero,
};
use crate::lemmas::division::{lemma_monomial_coeff, lemma_mul_monomial_coeff};
use crate::lemmas::multiplicative::{
    lemma_mul_canonical, lemma_one_coeff, lemma_poly_mul_distributes_left,
    lemma_poly_mul_distributes_right, lemma_poly_mul_one, lemma_poly_mul_zero,
};
use crate::lemmas::seqs::{lemma_canonical_ext, lemma_trim_shape, lemma_values_in_ring};
use crate::model::{
    canonical, coeff, monomial, poly_add, poly_mul, poly_neg, poly_one, poly_zero, values,
};
use crate::poly::Polynomial;
use crate::traits::RingType;
use std::ops::Neg;
use vstd::prelude::*;

verus! {

/// A constant polynomial times its inverse, times the constant, changes
/// nothing: `(a * c⁻¹) * c == a`.
proof fn lemma_constant_inverse_cancels<T: RingType>(a: Seq<T::V>, b: Seq<T::V>)
    requires
        canonical::<T>(a),
        canonical::<T>(b),
        b.len() == 1,
        T::inv_v(b[0]).is_some(),
    ensures
        poly_mul::<T>(poly_mul::<T>(a, monomial::<T>(T::inv_v(b[0]).unwrap(), 0)), b) == a,
{
    let i = T::inv_v(b[0]).unwrap();
    let ip = monomial::<T>(i, 0);
    T::lemma_closed(b[0], b[0]);
    lemma_monomial_coeff::<T>(i, 0, 0);
    lemma_monomial_coeff::<T>(b[0], 0, 0);
    assert forall|k: int| 0 <= k implies coeff::<T>(b, k) == coeff::<T>(
        monomial::<T>(b[0], 0),
        k,
    ) by {
        lemma_monomial_coeff::<T>(b[0], 0, k);
    }
    lemma_canonical_ext::<T>(b, monomial::<T>(b[0], 0));
    let ai = poly_mul::<T>(a, ip);
    lemma_mul_canonical::<T>(a, ip);
    lemma_mul_canonical::<T>(ai, b);
    assert forall|k: int| 0 <= k implies coeff::<T>(poly_mul::<T>(ai, b), k) == coeff::<T>(
        a,
        k,
    ) by {
        lemma_mul_monomial_coeff::<T>(ai, b[0], 0, k);
        lemma_mul_monomial_coeff::<T>(a, i, 0, k);
        lemma_coeff_in_ring::<T>(a, k);
        T::lemma_inverse_cancels(coeff::<T>(a, k), b[0]);
    }
    lemma_canonical_ext::<T>(poly_mul::<T>(ai, b), a);
}

impl<T: RingType> RingType for Polynomial<T> {
    type V = Seq<T::V>;

    open spec fn val(&self) -> Seq<T::V> {
        self@
    }

    open spec fn in_ring(v: Seq<T::V>) -> bool {
        canonical::<T>(v)
    }

    open spec fn zero_v() -> Seq<T::V> {
        poly_zero::<T>()
    }

    open spec fn one_v() -> Seq<T::V> {
        poly_one::<T>()
    }

    open spec fn add_v(a: Seq<T::V>, b: Seq<T::V>) -> Seq<T::V> {
        poly_add::<T>(a, b)
    }

    open spec fn neg_v(a: Seq<T::V>) -> Seq<T::V> {
        poly_neg::<T>(a)
    }

    open spec fn mul_v(a: Seq<T::V>, b: Seq<T::V>) -> Seq<T::V> {
        poly_mul::<T>(a, b)
    }

    /// The inverse on offer is that of a constant polynomial whose constant
    /// offers one.
    open spec fn inv_v(a: Seq<T::V>) -> Option<Seq<T::V>> {
        if a.len() == 1 && T::inv_v(a[0]).is_some() {
            Some(monomial::<T>(T::inv_v(a[0]).unwrap(), 0))
        } else {
            None
        }
    }

    fn zero() -> (r: Self)
        ensures
            values::<T>(r.backing()) == seq![T::zero_v()],
    {
        Polynomial::zero()
    }

    fn one() -> (r: Self) {
        Polynomial::one()
    }

    fn ring_eq(&self, rhs: &Self) -> (r: bool) {
        *self == *rhs
    }

    fn ring_add(&self, rhs: &Self) -> (r: Self) {
        self.clone() + rhs.clone()
    }

    fn ring_neg(&self) -> (r: Self) {
        self.clone().neg()
    }

    fn ring_sub(&self, rhs: &Self) -> (r: Self) {
        self.clone() - rhs.clone()
    }

    fn ring_mul(&self, rhs: &Self) -> (r: Self) {
        self.clone() * rhs.clone()
    }

    fn ring_inv(&self) -> (r: Option<Self>) {
        proof {
            lemma_trim_shape::<T>(values::<T>(self.backing()));
        }
        if self.is_zero() || self.deg() != 0 {
            return None;
        }
        let stored = self.stored();
        match stored[0].ring_inv() {
            None => None,
            Some(i) => Some(Polynomial::monomial(i, 0)),
        }
    }

    proof fn lemma_val_in_ring(x: &Self) {
        lemma_values_in_ring::<T>(x.backing());
    }

    proof fn lemma_closed(a: Seq<T::V>, b: Seq<T::V>) {
        lemma_one_coeff::<T>(0);
        lemma_add_canonical::<T>(a, b);
        lemma_neg_canonical::<T>(a);
        lemma_mul_canonical::<T>(a, b);
        if a.len() == 1 && T::inv_v(a[0]).is_some() {
            T::lemma_closed(a[0], a[0]);
            lemma_monomial_coeff::<T>(T::inv_v(a[0]).unwrap(), 0, 0);
        }
    }

    proof fn lemma_add_commutes(a: Seq<T::V>, b: Seq<T::V>) {
        lemma_poly_add_commutes::<T>(a, b);
    }

    proof fn lemma_add_associates(a: Seq<T::V>, b: Seq<T::V>, c: Seq<T::V>) {
        lemma_poly_add_associates::<T>(a, b, c);
    }

    proof fn lemma_add_zero(a: Seq<T::V>) {
        lemma_poly_add_zero::<T>(a);
    }

    proof fn lemma_add_neg(a: Seq<T::V>) {
        lemma_poly_add_neg::<T>(a);
    }

    proof fn lemma_mul_one(a: Seq<T::V>) {
        lemma_poly_mul_one::<T>(a);
    }

    proof fn lemma_mul_zero(a: Seq<T::V>) {
        lemma_poly_mul_zero::<T>(a);
    }

    proof fn lemma_mul_distributes(a: Seq<T::V>, b: Seq<T::V>, c: Seq<T::V>) {
        lemma_poly_mul_distributes_left::<T>(a, b, c);
        lemma_poly_mul_distributes_right::<T>(a, b, c);
    }

    proof fn lemma_inverse_cancels(a: Seq<T::V>, b: Seq<T::V>) {
        lemma_constant_inverse_cancels::<T>(a, b);
    }
}

} // verus!
