//! Long division of polynomial values.
use crate::lemmas::additive::{
    lemma_add_canonical, lemma_add_coeff, lemma_coeff_in_ring, lemma_neg_canonical,
    lemma_neg_coeff, lemma_poly_add_associates, lemma_poly_add_commutes, lemma_poly_add_neg,
    lemma_poly_add_zero,
};
use crate::lemmas::multiplicative::{
    lemma_mul_canonical, lemma_mul_coeff, lemma_poly_mul_distributes_right, lemma_poly_mul_zero,
};
use crate::lemmas::ring::{lemma_neg_zero, lemma_zero_add, lemma_zero_in_ring};
use crate::lemmas::seqs::{lemma_trim_canonical, lemma_trim_coeff};
use crate::lemmas::sums::{lemma_sum_single, lemma_sum_zero, terms};
use crate::model::{
    all_in_ring, canonical, coeff, degree, division_step, leading, long_division, monomial,
    poly_add, poly_mul, poly_neg, poly_sub, poly_zero, raw_monomial,
};
use crate::traits::RingType;
use vstd::prelude::*;

verus! {

/// `c * x^d` has the coefficient `c` at `x^d` and zero elsewhere.
pub proof fn lemma_monomial_coeff<T: RingType>(c: T::V, d: nat, i: int)
    requires
        T::in_ring(c),
    ensures
        canonical::<T>(monomial::<T>(c, d)),
        coeff::<T>(monomial::<T>(c, d), i) == if i == d {
            c
        } else {
            T::zero_v()
        },
{
    let s = raw_monomial::<T>(c, d);
    lemma_zero_in_ring::<T>();
    assert(all_in_ring::<T>(s));
    lemma_trim_canonical::<T>(s);
    lemma_trim_coeff::<T>(s, i);
}

/// Multiplying by `c * x^d` from the left shifts the coefficients up by `d`
/// and multiplies each by `c` from the left.
pub proof fn lemma_monomial_mul_coeff<T: RingType>(c: T::V, d: nat, b: Seq<T::V>, k: int)
    requires
        T::in_ring(c),
        all_in_ring::<T>(b),
        0 <= k,
    ensures
        coeff::<T>(poly_mul::<T>(monomial::<T>(c, d), b), k) == if k >= d {
            T::mul_v(c, coeff::<T>(b, k - d))
        } else {
            T::zero_v()
        },
{
    let t = monomial::<T>(c, d);
    let f = terms::<T>(t, b, k);
    lemma_monomial_coeff::<T>(c, d, 0);
    lemma_mul_coeff::<T>(t, b, k);
    assert forall|i: int| 0 <= i < k + 1 && i != d implies #[trigger] f(i) == T::zero_v() by {
        lemma_monomial_coeff::<T>(c, d, i);
        lemma_coeff_in_ring::<T>(b, k - i);
        T::lemma_mul_zero(coeff::<T>(b, k - i));
    }
    if k >= d {
        lemma_monomial_coeff::<T>(c, d, d as int);
        lemma_coeff_in_ring::<T>(b, k - d);
        T::lemma_closed(c, coeff::<T>(b, k - d));
        assert(f(d as int) == T::mul_v(c, coeff::<T>(b, k - d)));
        lemma_sum_single::<T>(f, (k + 1) as nat, d as int);
    } else {
        lemma_sum_zero::<T>(f, (k + 1) as nat);
    }
}

/// Multiplying by `c * x^d` from the right shifts the coefficients up by
/// `d` and multiplies each by `c` from the right.
pub proof fn lemma_mul_monomial_coeff<T: RingType>(a: Seq<T::V>, c: T::V, d: nat, k: int)
    requires
        T::in_ring(c),
        all_in_ring::<T>(a),
        0 <= k,
    ensures
        coeff::<T>(poly_mul::<T>(a, monomial::<T>(c, d)), k) == if k >= d {
            T::mul_v(coeff::<T>(a, k - d), c)
        } else {
            T::zero_v()
        },
{
    let t = monomial::<T>(c, d);
    let f = terms::<T>(a, t, k);
    lemma_monomial_coeff::<T>(c, d, 0);
    lemma_mul_coeff::<T>(a, t, k);
    assert forall|i: int| 0 <= i < k + 1 && i != k - d implies #[trigger] f(i) == T::zero_v() by {
        lemma_monomial_coeff::<T>(c, d, k - i);
        lemma_coeff_in_ring::<T>(a, i);
        T::lemma_mul_zero(coeff::<T>(a, i));
    }
    if k >= d {
        lemma_monomial_coeff::<T>(c, d, d as int);
        lemma_coeff_in_ring::<T>(a, k - d);
        T::lemma_closed(coeff::<T>(a, k - d), c);
        assert(f(k - d) == T::mul_v(coeff::<T>(a, k - d), c));
        lemma_sum_single::<T>(f, (k + 1) as nat, k - d);
    } else {
        lemma_sum_zero::<T>(f, (k + 1) as nat);
    }
}

/// One step of long division shortens the remainder.
pub proof fn lemma_division_step_shortens<T: RingType>(r: Seq<T::V>, b: Seq<T::V>, inv: T::V)
    requires
        canonical::<T>(r),
        canonical::<T>(b),
        1 <= b.len() <= r.len(),
        T::inv_v(leading::<T>(b)) == Some(inv),
    ensures
        canonical::<T>(division_step::<T>(r, b, inv)),
        canonical::<T>(poly_sub::<T>(r, poly_mul::<T>(division_step::<T>(r, b, inv), b))),
        poly_sub::<T>(r, poly_mul::<T>(division_step::<T>(r, b, inv), b)).len() < r.len(),
{
    let n = degree(r);
    let d = (degree(r) - degree(b)) as nat;
    let c = T::mul_v(leading::<T>(r), inv);
    let t = division_step::<T>(r, b, inv);
    let tb = poly_mul::<T>(t, b);
    let rest = poly_sub::<T>(r, tb);
    T::lemma_closed(leading::<T>(b), leading::<T>(b));
    T::lemma_closed(leading::<T>(r), inv);
    lemma_monomial_coeff::<T>(c, d, 0);
    lemma_mul_canonical::<T>(t, b);
    lemma_neg_canonical::<T>(tb);
    lemma_add_canonical::<T>(r, poly_neg::<T>(tb));
    lemma_zero_in_ring::<T>();
    assert forall|k: int| n <= k implies coeff::<T>(rest, k) == T::zero_v() by {
        lemma_add_coeff::<T>(r, poly_neg::<T>(tb), k);
        lemma_neg_coeff::<T>(tb, k);
        lemma_monomial_mul_coeff::<T>(c, d, b, k);
        if k == n {
            T::lemma_inverse_cancels(leading::<T>(r), leading::<T>(b));
            T::lemma_add_neg(leading::<T>(r));
        } else {
            T::lemma_mul_zero(c);
            lemma_neg_zero::<T>();
            lemma_zero_add::<T>(T::zero_v());
        }
    }
    if rest.len() >= r.len() {
        assert(coeff::<T>(rest, rest.len() - 1) == T::zero_v());
    }
}

/// One step of long division keeps `a == q * b + r`.
pub proof fn lemma_division_step_keeps<T: RingType>(
    a: Seq<T::V>,
    q: Seq<T::V>,
    r: Seq<T::V>,
    b: Seq<T::V>,
    t: Seq<T::V>,
)
    requires
        canonical::<T>(q),
        canonical::<T>(r),
        canonical::<T>(b),
        canonical::<T>(t),
        a == poly_add::<T>(poly_mul::<T>(q, b), r),
    ensures
        a == poly_add::<T>(
            poly_mul::<T>(poly_add::<T>(q, t), b),
            poly_sub::<T>(r, poly_mul::<T>(t, b)),
        ),
{
    let x = poly_mul::<T>(q, b);
    let y = poly_mul::<T>(t, b);
    let ny = poly_neg::<T>(y);
    lemma_mul_canonical::<T>(q, b);
    lemma_mul_canonical::<T>(t, b);
    lemma_neg_canonical::<T>(y);
    lemma_poly_mul_distributes_right::<T>(q, t, b);
    // (x + y) + (r + -y) == x + (y + (r + -y))
    lemma_add_canonical::<T>(r, ny);
    lemma_poly_add_associates::<T>(x, y, poly_add::<T>(r, ny));
    // y + (r + -y) == (y + r) + -y == (r + y) + -y == r + (y + -y) == r
    lemma_poly_add_associates::<T>(y, r, ny);
    lemma_poly_add_commutes::<T>(y, r);
    lemma_poly_add_associates::<T>(r, y, ny);
    lemma_poly_add_neg::<T>(y);
    lemma_poly_add_zero::<T>(r);
}

/// Long division ends with `a == q * b + r` and a remainder shorter than
/// the divisor, if it starts from a state with `a == q * b + r`.
pub proof fn lemma_long_division<T: RingType>(
    a: Seq<T::V>,
    q: Seq<T::V>,
    r: Seq<T::V>,
    b: Seq<T::V>,
    inv: T::V,
)
    requires
        canonical::<T>(q),
        canonical::<T>(r),
        canonical::<T>(b),
        b.len() >= 1,
        T::inv_v(leading::<T>(b)) == Some(inv),
        a == poly_add::<T>(poly_mul::<T>(q, b), r),
    ensures
        canonical::<T>(long_division::<T>(q, r, b, inv).0),
        canonical::<T>(long_division::<T>(q, r, b, inv).1),
        a == poly_add::<T>(
            poly_mul::<T>(long_division::<T>(q, r, b, inv).0, b),
            long_division::<T>(q, r, b, inv).1,
        ),
        long_division::<T>(q, r, b, inv).1.len() < b.len(),
    decreases r.len(),
{
    if r.len() >= b.len() {
        let t = division_step::<T>(r, b, inv);
        let rest = poly_sub::<T>(r, poly_mul::<T>(t, b));
        lemma_division_step_shortens::<T>(r, b, inv);
        lemma_division_step_keeps::<T>(a, q, r, b, t);
        lemma_add_canonical::<T>(q, t);
        lemma_long_division::<T>(a, poly_add::<T>(q, t), rest, b, inv);
    }
}

/// Long division may start from the zero quotient: `a == 0 * b + a`.
pub proof fn lemma_division_start<T: RingType>(a: Seq<T::V>, b: Seq<T::V>)
    requires
        canonical::<T>(a),
        canonical::<T>(b),
    ensures
        canonical::<T>(poly_zero::<T>()),
        a == poly_add::<T>(poly_mul::<T>(poly_zero::<T>(), b), a),
{
    lemma_poly_mul_zero::<T>(b);
    lemma_poly_add_commutes::<T>(poly_zero::<T>(), a);
    lemma_poly_add_zero::<T>(a);
}

} // verus!
