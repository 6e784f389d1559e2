//! What holds of the polynomial operations, for every coefficient ring.
//!
//! Each statement is over the values of polynomials (`p@`) and the model
//! functions in which the operations' own contracts are written, so it
//! applies to whatever the executable operations return.
use crate::lemmas::additive::{
    lemma_poly_add_associates, lemma_poly_add_commutes, lemma_poly_add_neg, lemma_poly_add_zero,
};
use crate::lemmas::division::{lemma_division_start, lemma_long_division};
use crate::lemmas::multiplicative::{lemma_poly_mul_distributes_left, lemma_poly_mul_one};
use crate::lemmas::ring::lemma_neg_nonzero;
use crate::lemmas::seqs::{
    lemma_canonical_ext, lemma_trim_appended_zeros, lemma_trim_at, lemma_trim_coeff,
    lemma_trim_fixed, lemma_trim_idempotent, lemma_trim_shape, lemma_values_in_ring,
};
use crate::error::DivError;
use crate::model::{
    coeff, degree, leading, poly_add, poly_div_rem, poly_mul, poly_neg, poly_one, poly_sub,
    poly_zero, raw_add, raw_mul, raw_neg, trim, values,
};
use vstd::std_specs::cmp::PartialEqSpec;
use crate::poly::Polynomial;
use crate::traits::RingType;
use vstd::prelude::*;

verus! {

/// Normalization is idempotent: a polynomial built from the coefficient
/// storage of a polynomial is equal to it. With `p` built from `s` and `q`
/// built from the storage of `p`, this is `from(s) == from(coeffs(from(s)))`.
pub proof fn lemma_normalization_idempotent<T: RingType>(
    s: Seq<T>,
    p: Polynomial<T>,
    q: Polynomial<T>,
)
    requires
        p.backing() == s,
        q.backing() == p.backing(),
    ensures
        p@ == q@,
        trim::<T>(p@) == p@,
{
    lemma_trim_idempotent::<T>(values::<T>(s));
}

/// Trailing zeros do not count: a polynomial built from `s` and one built
/// from `s` with any number of zeros appended are equal.
pub proof fn lemma_trailing_zeros_ignored<T: RingType>(
    s: Seq<T>,
    zeros: Seq<T>,
    p: Polynomial<T>,
    q: Polynomial<T>,
)
    requires
        forall|i: int| 0 <= i < zeros.len() ==> (#[trigger] zeros[i]).val() == T::zero_v(),
        p.backing() == s,
        q.backing() == s + zeros,
    ensures
        p@ == q@,
{
    assert(values::<T>(s + zeros) =~= values::<T>(s) + values::<T>(zeros));
    lemma_trim_appended_zeros::<T>(values::<T>(s), values::<T>(zeros));
}

/// Polynomials are equal exactly when their degrees are equal and their
/// coefficients agree up to the degree.
pub proof fn lemma_equal_by_coefficients<T: RingType>(p: Polynomial<T>, q: Polynomial<T>)
    ensures
        p@ == q@ <==> (degree(p@) == degree(q@) && forall|i: int|
            0 <= i <= degree(p@) ==> coeff::<T>(p@, i) == coeff::<T>(q@, i)),
{
    lemma_values_in_ring::<T>(p.backing());
    lemma_values_in_ring::<T>(q.backing());
    if degree(p@) == degree(q@) && (forall|i: int|
        0 <= i <= degree(p@) ==> coeff::<T>(p@, i) == coeff::<T>(q@, i)) {
        lemma_canonical_ext::<T>(p@, q@);
    }
}

/// Equality of polynomials is an equivalence relation.
pub proof fn lemma_equality_is_equivalence<T: RingType>(
    p: Polynomial<T>,
    q: Polynomial<T>,
    r: Polynomial<T>,
)
    ensures
        p.eq_spec(&p),
        p.eq_spec(&q) ==> q.eq_spec(&p),
        p.eq_spec(&q) && q.eq_spec(&r) ==> p.eq_spec(&r),
{
}

/// A polynomial is zero exactly when its degree is 0 and its constant
/// coefficient is zero, and it is one exactly when its degree is 0 and its
/// constant coefficient is one; how many coefficients are stored does not
/// matter.
pub proof fn lemma_identities_by_coefficient<T: RingType>(p: Polynomial<T>)
    ensures
        p@ == poly_zero::<T>() <==> degree(p@) == 0 && coeff::<T>(p@, 0) == T::zero_v(),
        p@ == poly_one::<T>() <==> degree(p@) == 0 && coeff::<T>(p@, 0) == T::one_v(),
{
    lemma_values_in_ring::<T>(p.backing());
    let one = seq![T::one_v()];
    lemma_trim_coeff::<T>(one, 0);
    if p@.len() == 0 {
        assert(p@ =~= poly_zero::<T>());
    }
    if degree(p@) == 0 && coeff::<T>(p@, 0) == T::one_v() {
        if T::one_v() == T::zero_v() {
            lemma_trim_at::<T>(one, 0);
            assert(p@ =~= poly_one::<T>());
        } else {
            lemma_trim_fixed::<T>(one);
            assert(p@ =~= one);
        }
    }
    if p@ == poly_one::<T>() {
        assert(trim::<T>(one).len() <= 1) by {
            lemma_trim_shape::<T>(one);
        }
    }
}

/// Zero is the additive identity: `p + 0 == p`.
pub proof fn lemma_additive_identity<T: RingType>(p: Polynomial<T>)
    ensures
        poly_add::<T>(p@, poly_zero::<T>()) == p@,
        poly_add::<T>(poly_zero::<T>(), p@) == p@,
        poly_sub::<T>(p@, poly_zero::<T>()) == p@,
{
    lemma_values_in_ring::<T>(p.backing());
    lemma_poly_add_zero::<T>(p@);
    lemma_poly_add_commutes::<T>(p@, poly_zero::<T>());
    assert(poly_neg::<T>(poly_zero::<T>()) =~= poly_zero::<T>());
}

/// The negative is the additive inverse: `p + (-p) == 0`, so `p - p == 0`.
pub proof fn lemma_additive_inverse<T: RingType>(p: Polynomial<T>)
    ensures
        poly_add::<T>(p@, poly_neg::<T>(p@)) == poly_zero::<T>(),
        poly_sub::<T>(p@, p@) == poly_zero::<T>(),
{
    lemma_values_in_ring::<T>(p.backing());
    lemma_poly_add_neg::<T>(p@);
}

/// Negation keeps the degree.
pub proof fn lemma_negation_keeps_degree<T: RingType>(p: Polynomial<T>)
    ensures
        degree(poly_neg::<T>(p@)) == degree(p@),
{
    lemma_values_in_ring::<T>(p.backing());
    if p@.len() > 0 {
        lemma_neg_nonzero::<T>(p@.last());
    }
    lemma_trim_fixed::<T>(raw_neg::<T>(p@));
}

/// Addition is commutative: `a + b == b + a`.
pub proof fn lemma_addition_commutes<T: RingType>(a: Polynomial<T>, b: Polynomial<T>)
    ensures
        poly_add::<T>(a@, b@) == poly_add::<T>(b@, a@),
{
    lemma_values_in_ring::<T>(a.backing());
    lemma_values_in_ring::<T>(b.backing());
    lemma_poly_add_commutes::<T>(a@, b@);
}

/// Addition is associative: `(a + b) + c == a + (b + c)`.
pub proof fn lemma_addition_associates<T: RingType>(
    a: Polynomial<T>,
    b: Polynomial<T>,
    c: Polynomial<T>,
)
    ensures
        poly_add::<T>(poly_add::<T>(a@, b@), c@) == poly_add::<T>(a@, poly_add::<T>(b@, c@)),
{
    lemma_values_in_ring::<T>(a.backing());
    lemma_values_in_ring::<T>(b.backing());
    lemma_values_in_ring::<T>(c.backing());
    lemma_poly_add_associates::<T>(a@, b@, c@);
}

/// The degree of a sum is at most the larger of the operands' degrees, and
/// the degree of a product at most the sum of them. Either can be lower,
/// where leading terms cancel.
pub proof fn lemma_degree_bounds<T: RingType>(a: Polynomial<T>, b: Polynomial<T>)
    ensures
        degree(poly_add::<T>(a@, b@)) <= degree(a@) || degree(poly_add::<T>(a@, b@)) <= degree(
            b@,
        ),
        degree(poly_mul::<T>(a@, b@)) <= degree(a@) + degree(b@),
{
    lemma_trim_shape::<T>(raw_add::<T>(a@, b@));
    lemma_trim_shape::<T>(raw_mul::<T>(a@, b@));
}

/// One is the multiplicative identity: `p * 1 == p` and `1 * p == p`.
pub proof fn lemma_multiplicative_identity<T: RingType>(p: Polynomial<T>)
    ensures
        poly_mul::<T>(p@, poly_one::<T>()) == p@,
        poly_mul::<T>(poly_one::<T>(), p@) == p@,
{
    lemma_values_in_ring::<T>(p.backing());
    lemma_poly_mul_one::<T>(p@);
}

/// Multiplication distributes over addition: `a * (b + c) == a*b + a*c`.
pub proof fn lemma_distributivity<T: RingType>(
    a: Polynomial<T>,
    b: Polynomial<T>,
    c: Polynomial<T>,
)
    ensures
        poly_mul::<T>(a@, poly_add::<T>(b@, c@)) == poly_add::<T>(
            poly_mul::<T>(a@, b@),
            poly_mul::<T>(a@, c@),
        ),
{
    lemma_values_in_ring::<T>(a.backing());
    lemma_values_in_ring::<T>(b.backing());
    lemma_values_in_ring::<T>(c.backing());
    lemma_poly_mul_distributes_left::<T>(a@, b@, c@);
}

/// Division is correct: for a divisor `b` that is not zero and whose
/// leading coefficient offers an inverse, quotient and remainder exist,
/// `a == (a / b) * b + (a % b)`, and the remainder is zero or of lower
/// degree than `b`.
pub proof fn lemma_division_correct<T: RingType>(a: Polynomial<T>, b: Polynomial<T>)
    requires
        b@ != poly_zero::<T>(),
        T::inv_v(leading::<T>(b@)).is_some(),
    ensures
        poly_div_rem::<T>(a@, b@).is_ok(),
        a@ == poly_add::<T>(
            poly_mul::<T>(poly_div_rem::<T>(a@, b@).unwrap().0, b@),
            poly_div_rem::<T>(a@, b@).unwrap().1,
        ),
        poly_div_rem::<T>(a@, b@).unwrap().1 == poly_zero::<T>() || degree(
            poly_div_rem::<T>(a@, b@).unwrap().1,
        ) < degree(b@),
{
    lemma_values_in_ring::<T>(a.backing());
    lemma_values_in_ring::<T>(b.backing());
    lemma_division_start::<T>(a@, b@);
    assert(b@.len() > 0) by {
        if b@.len() == 0 {
            assert(b@ =~= poly_zero::<T>());
        }
    }
    let r = poly_div_rem::<T>(a@, b@).unwrap().1;
    if a@.len() >= b@.len() {
        let inv = T::inv_v(leading::<T>(b@)).unwrap();
        lemma_long_division::<T>(a@, poly_zero::<T>(), a@, b@, inv);
    }
    if r.len() == 0 {
        assert(r =~= poly_zero::<T>());
    }
}

/// Division by the zero polynomial gives no value, whatever the dividend.
pub proof fn lemma_division_by_zero_refused<T: RingType>(a: Polynomial<T>, b: Polynomial<T>)
    ensures
        b@ == poly_zero::<T>() <==> poly_div_rem::<T>(a@, b@) == Err::<
            (Seq<T::V>, Seq<T::V>),
            _,
        >(DivError::DivisionByZero),
{
    if b@.len() == 0 {
        assert(b@ =~= poly_zero::<T>());
    }
}

} // verus!
