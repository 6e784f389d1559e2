//! Addition and negation of polynomial values.
use crate::lemmas::ring::{lemma_neg_zero, lemma_zero_add, lemma_zero_in_ring};
use crate::lemmas::seqs::{lemma_trim_canonical, lemma_trim_coeff, lemma_trim_ext, lemma_trim_fixed};
use crate::model::{
    all_in_ring, canonical, coeff, poly_add, poly_neg, poly_zero, raw_add, raw_neg, trim,
};
use crate::traits::RingType;
use vstd::prelude::*;

verus! {

/// Every coefficient of a sequence of ring elements is a ring element, the
/// zeros outside it included.
pub proof fn lemma_coeff_in_ring<T: RingType>(a: Seq<T::V>, i: int)
    requires
        all_in_ring::<T>(a),
    ensures
        T::in_ring(coeff::<T>(a, i)),
{
    lemma_zero_in_ring::<T>();
}

/// The coefficients of a sum are the sums of the coefficients.
pub proof fn lemma_add_coeff<T: RingType>(a: Seq<T::V>, b: Seq<T::V>, i: int)
    requires
        0 <= i,
    ensures
        coeff::<T>(raw_add::<T>(a, b), i) == T::add_v(coeff::<T>(a, i), coeff::<T>(b, i)),
        coeff::<T>(poly_add::<T>(a, b), i) == T::add_v(coeff::<T>(a, i), coeff::<T>(b, i)),
{
    lemma_trim_coeff::<T>(raw_add::<T>(a, b), i);
    lemma_zero_in_ring::<T>();
    lemma_zero_add::<T>(T::zero_v());
}

/// A sum of polynomial values is a polynomial value.
pub proof fn lemma_add_canonical<T: RingType>(a: Seq<T::V>, b: Seq<T::V>)
    requires
        all_in_ring::<T>(a),
        all_in_ring::<T>(b),
    ensures
        all_in_ring::<T>(raw_add::<T>(a, b)),
        canonical::<T>(poly_add::<T>(a, b)),
{
    let s = raw_add::<T>(a, b);
    assert forall|i: int| 0 <= i < s.len() implies T::in_ring(#[trigger] s[i]) by {
        lemma_coeff_in_ring::<T>(a, i);
        lemma_coeff_in_ring::<T>(b, i);
        T::lemma_closed(coeff::<T>(a, i), coeff::<T>(b, i));
    }
    lemma_trim_canonical::<T>(s);
}

/// The coefficients of a negative are the negatives of the coefficients.
pub proof fn lemma_neg_coeff<T: RingType>(a: Seq<T::V>, i: int)
    requires
        0 <= i,
    ensures
        coeff::<T>(raw_neg::<T>(a), i) == T::neg_v(coeff::<T>(a, i)),
        coeff::<T>(poly_neg::<T>(a), i) == T::neg_v(coeff::<T>(a, i)),
{
    lemma_trim_coeff::<T>(raw_neg::<T>(a), i);
    lemma_neg_zero::<T>();
}

/// The negative of a polynomial value is a polynomial value.
pub proof fn lemma_neg_canonical<T: RingType>(a: Seq<T::V>)
    requires
        all_in_ring::<T>(a),
    ensures
        all_in_ring::<T>(raw_neg::<T>(a)),
        canonical::<T>(poly_neg::<T>(a)),
{
    let s = raw_neg::<T>(a);
    assert forall|i: int| 0 <= i < s.len() implies T::in_ring(#[trigger] s[i]) by {
        T::lemma_closed(a[i], a[i]);
    }
    lemma_trim_canonical::<T>(s);
}

/// Negating before or after trailing zeros are dropped gives the same
/// polynomial.
pub proof fn lemma_neg_of_trim<T: RingType>(s: Seq<T::V>)
    ensures
        poly_neg::<T>(trim::<T>(s)) == poly_neg::<T>(s),
{
    assert forall|i: int| 0 <= i implies coeff::<T>(raw_neg::<T>(trim::<T>(s)), i) == coeff::<T>(
        raw_neg::<T>(s),
        i,
    ) by {
        lemma_neg_coeff::<T>(trim::<T>(s), i);
        lemma_neg_coeff::<T>(s, i);
        lemma_trim_coeff::<T>(s, i);
    }
    lemma_trim_ext::<T>(raw_neg::<T>(trim::<T>(s)), raw_neg::<T>(s));
}

/// `a + b == b + a`, also before trailing zeros are dropped.
pub proof fn lemma_poly_add_commutes<T: RingType>(a: Seq<T::V>, b: Seq<T::V>)
    requires
        all_in_ring::<T>(a),
        all_in_ring::<T>(b),
    ensures
        raw_add::<T>(a, b) == raw_add::<T>(b, a),
        poly_add::<T>(a, b) == poly_add::<T>(b, a),
{
    let s = raw_add::<T>(a, b);
    let t = raw_add::<T>(b, a);
    assert forall|i: int| 0 <= i < s.len() implies s[i] == t[i] by {
        lemma_coeff_in_ring::<T>(a, i);
        lemma_coeff_in_ring::<T>(b, i);
        T::lemma_add_commutes(coeff::<T>(a, i), coeff::<T>(b, i));
    }
    assert(s =~= t);
}

/// `(a + b) + c == a + (b + c)`.
pub proof fn lemma_poly_add_associates<T: RingType>(a: Seq<T::V>, b: Seq<T::V>, c: Seq<T::V>)
    requires
        all_in_ring::<T>(a),
        all_in_ring::<T>(b),
        all_in_ring::<T>(c),
    ensures
        poly_add::<T>(poly_add::<T>(a, b), c) == poly_add::<T>(a, poly_add::<T>(b, c)),
{
    let ab = poly_add::<T>(a, b);
    let bc = poly_add::<T>(b, c);
    assert forall|i: int| 0 <= i implies coeff::<T>(raw_add::<T>(ab, c), i) == coeff::<T>(
        raw_add::<T>(a, bc),
        i,
    ) by {
        lemma_add_coeff::<T>(ab, c, i);
        lemma_add_coeff::<T>(a, b, i);
        lemma_add_coeff::<T>(a, bc, i);
        lemma_add_coeff::<T>(b, c, i);
        lemma_coeff_in_ring::<T>(a, i);
        lemma_coeff_in_ring::<T>(b, i);
        lemma_coeff_in_ring::<T>(c, i);
        T::lemma_add_associates(coeff::<T>(a, i), coeff::<T>(b, i), coeff::<T>(c, i));
    }
    lemma_trim_ext::<T>(raw_add::<T>(ab, c), raw_add::<T>(a, bc));
}

/// `a + 0 == a`.
pub proof fn lemma_poly_add_zero<T: RingType>(a: Seq<T::V>)
    requires
        canonical::<T>(a),
    ensures
        poly_add::<T>(a, poly_zero::<T>()) == a,
{
    let z = poly_zero::<T>();
    assert forall|i: int| 0 <= i implies coeff::<T>(raw_add::<T>(a, z), i) == coeff::<T>(a, i) by {
        lemma_add_coeff::<T>(a, z, i);
        lemma_coeff_in_ring::<T>(a, i);
        T::lemma_add_zero(coeff::<T>(a, i));
    }
    lemma_trim_ext::<T>(raw_add::<T>(a, z), a);
    lemma_trim_fixed::<T>(a);
}

/// `a + (-a) == 0`.
pub proof fn lemma_poly_add_neg<T: RingType>(a: Seq<T::V>)
    requires
        all_in_ring::<T>(a),
    ensures
        poly_add::<T>(a, poly_neg::<T>(a)) == poly_zero::<T>(),
{
    let n = poly_neg::<T>(a);
    let z = poly_zero::<T>();
    assert forall|i: int| 0 <= i implies coeff::<T>(raw_add::<T>(a, n), i) == coeff::<T>(z, i) by {
        lemma_add_coeff::<T>(a, n, i);
        lemma_neg_coeff::<T>(a, i);
        lemma_coeff_in_ring::<T>(a, i);
        T::lemma_add_neg(coeff::<T>(a, i));
    }
    lemma_trim_ext::<T>(raw_add::<T>(a, n), z);
}

} // verus!
