//! Multiplication of polynomial values.
use crate::lemmas::additive::{lemma_add_canonical, lemma_add_coeff, lemma_coeff_in_ring};
use crate::lemmas::ring::lemma_zero_in_ring;
use crate::lemmas::seqs::{lemma_canonical_ext, lemma_trim_canonical, lemma_trim_coeff};
use crate::lemmas::sums::{
    lemma_conv_is_sum, lemma_sum_add, lemma_sum_single, lemma_sum_zero, lemma_terms_in_ring, sum,
    terms,
};
use crate::model::{
    all_in_ring, canonical, coeff, conv, degree, poly_add, poly_mul, poly_one, poly_zero, raw_mul,
};
use crate::traits::RingType;
use vstd::prelude::*;

verus! {

/// Every coefficient of a product is the sum of all terms `a_i * b_(k-i)`.
pub proof fn lemma_mul_coeff<T: RingType>(a: Seq<T::V>, b: Seq<T::V>, k: int)
    requires
        all_in_ring::<T>(a),
        all_in_ring::<T>(b),
        0 <= k,
    ensures
        coeff::<T>(raw_mul::<T>(a, b), k) == sum::<T>(terms::<T>(a, b, k), (k + 1) as nat),
        coeff::<T>(poly_mul::<T>(a, b), k) == sum::<T>(terms::<T>(a, b, k), (k + 1) as nat),
{
    lemma_trim_coeff::<T>(raw_mul::<T>(a, b), k);
    lemma_conv_is_sum::<T>(a, b, k, (k + 1) as nat);
    if k > degree(a) + degree(b) {
        let f = terms::<T>(a, b, k);
        assert forall|i: int| 0 <= i < k + 1 implies #[trigger] f(i) == T::zero_v() by {
            lemma_coeff_in_ring::<T>(a, i);
            lemma_coeff_in_ring::<T>(b, k - i);
            T::lemma_mul_zero(coeff::<T>(a, i));
            T::lemma_mul_zero(coeff::<T>(b, k - i));
        }
        lemma_sum_zero::<T>(f, (k + 1) as nat);
    }
}

/// A product of polynomial values is a polynomial value.
pub proof fn lemma_mul_canonical<T: RingType>(a: Seq<T::V>, b: Seq<T::V>)
    requires
        all_in_ring::<T>(a),
        all_in_ring::<T>(b),
    ensures
        all_in_ring::<T>(raw_mul::<T>(a, b)),
        canonical::<T>(poly_mul::<T>(a, b)),
{
    let s = raw_mul::<T>(a, b);
    assert forall|k: int| 0 <= k < s.len() implies T::in_ring(#[trigger] s[k]) by {
        lemma_conv_is_sum::<T>(a, b, k, (k + 1) as nat);
    }
    lemma_trim_canonical::<T>(s);
}

/// The convolution sum has no term above the degree of `a`.
pub proof fn lemma_conv_stops<T: RingType>(a: Seq<T::V>, b: Seq<T::V>, k: int, n: nat)
    requires
        n > degree(a),
    ensures
        conv::<T>(a, b, k, n) == conv::<T>(a, b, k, degree(a) + 1),
    decreases n,
{
    if n > degree(a) + 1 {
        lemma_conv_stops::<T>(a, b, k, (n - 1) as nat);
    }
}

/// The convolution sum has no term below `k` minus the degree of `b`.
pub proof fn lemma_conv_starts<T: RingType>(a: Seq<T::V>, b: Seq<T::V>, k: int, n: nat)
    requires
        n <= k - degree(b),
    ensures
        conv::<T>(a, b, k, n) == T::zero_v(),
    decreases n,
{
    if n > 0 {
        lemma_conv_starts::<T>(a, b, k, (n - 1) as nat);
    }
}

/// The constant polynomial 1 has the coefficient one at `x^0` and zero
/// elsewhere.
pub proof fn lemma_one_coeff<T: RingType>(i: int)
    ensures
        canonical::<T>(poly_one::<T>()),
        coeff::<T>(poly_one::<T>(), i) == if i == 0 {
            T::one_v()
        } else {
            T::zero_v()
        },
{
    let s = seq![T::one_v()];
    lemma_zero_in_ring::<T>();
    assert(all_in_ring::<T>(s));
    lemma_trim_canonical::<T>(s);
    lemma_trim_coeff::<T>(s, i);
}

/// `a * 1 == a` and `1 * a == a`.
pub proof fn lemma_poly_mul_one<T: RingType>(a: Seq<T::V>)
    requires
        canonical::<T>(a),
    ensures
        poly_mul::<T>(a, poly_one::<T>()) == a,
        poly_mul::<T>(poly_one::<T>(), a) == a,
{
    let one = poly_one::<T>();
    lemma_one_coeff::<T>(0);
    lemma_mul_canonical::<T>(a, one);
    lemma_mul_canonical::<T>(one, a);
    assert forall|k: int| 0 <= k implies coeff::<T>(poly_mul::<T>(a, one), k) == coeff::<T>(
        a,
        k,
    ) by {
        let f = terms::<T>(a, one, k);
        lemma_mul_coeff::<T>(a, one, k);
        lemma_coeff_in_ring::<T>(a, k);
        T::lemma_mul_one(coeff::<T>(a, k));
        assert forall|i: int| 0 <= i < k + 1 && i != k implies #[trigger] f(i) == T::zero_v() by {
            lemma_one_coeff::<T>(k - i);
            lemma_coeff_in_ring::<T>(a, i);
            T::lemma_mul_zero(coeff::<T>(a, i));
        }
        assert(f(k) == coeff::<T>(a, k));
        lemma_sum_single::<T>(f, (k + 1) as nat, k);
    }
    lemma_canonical_ext::<T>(poly_mul::<T>(a, one), a);
    assert forall|k: int| 0 <= k implies coeff::<T>(poly_mul::<T>(one, a), k) == coeff::<T>(
        a,
        k,
    ) by {
        let f = terms::<T>(one, a, k);
        lemma_mul_coeff::<T>(one, a, k);
        lemma_coeff_in_ring::<T>(a, k);
        T::lemma_mul_one(coeff::<T>(a, k));
        assert forall|i: int| 0 <= i < k + 1 && i != 0 implies #[trigger] f(i) == T::zero_v() by {
            lemma_one_coeff::<T>(i);
            lemma_coeff_in_ring::<T>(a, k - i);
            T::lemma_mul_zero(coeff::<T>(a, k - i));
        }
        assert(f(0) == coeff::<T>(a, k));
        lemma_sum_single::<T>(f, (k + 1) as nat, 0);
    }
    lemma_canonical_ext::<T>(poly_mul::<T>(one, a), a);
}

/// `a * 0 == 0` and `0 * a == 0`.
pub proof fn lemma_poly_mul_zero<T: RingType>(a: Seq<T::V>)
    requires
        all_in_ring::<T>(a),
    ensures
        poly_mul::<T>(a, poly_zero::<T>()) == poly_zero::<T>(),
        poly_mul::<T>(poly_zero::<T>(), a) == poly_zero::<T>(),
{
    let z = poly_zero::<T>();
    lemma_mul_canonical::<T>(a, z);
    lemma_mul_canonical::<T>(z, a);
    assert forall|k: int| 0 <= k implies coeff::<T>(poly_mul::<T>(a, z), k) == coeff::<T>(
        z,
        k,
    ) by {
        let f = terms::<T>(a, z, k);
        lemma_mul_coeff::<T>(a, z, k);
        assert forall|i: int| 0 <= i < k + 1 implies #[trigger] f(i) == T::zero_v() by {
            lemma_coeff_in_ring::<T>(a, i);
            T::lemma_mul_zero(coeff::<T>(a, i));
        }
        lemma_sum_zero::<T>(f, (k + 1) as nat);
    }
    lemma_canonical_ext::<T>(poly_mul::<T>(a, z), z);
    assert forall|k: int| 0 <= k implies coeff::<T>(poly_mul::<T>(z, a), k) == coeff::<T>(
        z,
        k,
    ) by {
        let f = terms::<T>(z, a, k);
        lemma_mul_coeff::<T>(z, a, k);
        assert forall|i: int| 0 <= i < k + 1 implies #[trigger] f(i) == T::zero_v() by {
            lemma_coeff_in_ring::<T>(a, k - i);
            T::lemma_mul_zero(coeff::<T>(a, k - i));
        }
        lemma_sum_zero::<T>(f, (k + 1) as nat);
    }
    lemma_canonical_ext::<T>(poly_mul::<T>(z, a), z);
}

/// `a * (b + c) == a*b + a*c`.
pub proof fn lemma_poly_mul_distributes_left<T: RingType>(
    a: Seq<T::V>,
    b: Seq<T::V>,
    c: Seq<T::V>,
)
    requires
        all_in_ring::<T>(a),
        all_in_ring::<T>(b),
        all_in_ring::<T>(c),
    ensures
        poly_mul::<T>(a, poly_add::<T>(b, c)) == poly_add::<T>(
            poly_mul::<T>(a, b),
            poly_mul::<T>(a, c),
        ),
{
    let bc = poly_add::<T>(b, c);
    let ab = poly_mul::<T>(a, b);
    let ac = poly_mul::<T>(a, c);
    lemma_add_canonical::<T>(b, c);
    lemma_mul_canonical::<T>(a, b);
    lemma_mul_canonical::<T>(a, c);
    lemma_mul_canonical::<T>(a, bc);
    lemma_add_canonical::<T>(ab, ac);
    assert forall|k: int| 0 <= k implies coeff::<T>(poly_mul::<T>(a, bc), k) == coeff::<T>(
        poly_add::<T>(ab, ac),
        k,
    ) by {
        let f = terms::<T>(a, b, k);
        let g = terms::<T>(a, c, k);
        let h = terms::<T>(a, bc, k);
        let n = (k + 1) as nat;
        lemma_mul_coeff::<T>(a, bc, k);
        lemma_mul_coeff::<T>(a, b, k);
        lemma_mul_coeff::<T>(a, c, k);
        lemma_add_coeff::<T>(ab, ac, k);
        lemma_terms_in_ring::<T>(a, b, k, n);
        lemma_terms_in_ring::<T>(a, c, k, n);
        assert forall|i: int| 0 <= i < n implies #[trigger] h(i) == T::add_v(f(i), g(i)) by {
            lemma_add_coeff::<T>(b, c, k - i);
            lemma_coeff_in_ring::<T>(a, i);
            lemma_coeff_in_ring::<T>(b, k - i);
            lemma_coeff_in_ring::<T>(c, k - i);
            T::lemma_mul_distributes(coeff::<T>(a, i), coeff::<T>(b, k - i), coeff::<T>(c, k - i));
        }
        lemma_sum_add::<T>(f, g, h, n);
    }
    lemma_canonical_ext::<T>(poly_mul::<T>(a, bc), poly_add::<T>(ab, ac));
}

/// `(a + b) * c == a*c + b*c`.
pub proof fn lemma_poly_mul_distributes_right<T: RingType>(
    a: Seq<T::V>,
    b: Seq<T::V>,
    c: Seq<T::V>,
)
    requires
        all_in_ring::<T>(a),
        all_in_ring::<T>(b),
        all_in_ring::<T>(c),
    ensures
        poly_mul::<T>(poly_add::<T>(a, b), c) == poly_add::<T>(
            poly_mul::<T>(a, c),
            poly_mul::<T>(b, c),
        ),
{
    let ab = poly_add::<T>(a, b);
    let ac = poly_mul::<T>(a, c);
    let bc = poly_mul::<T>(b, c);
    lemma_add_canonical::<T>(a, b);
    lemma_mul_canonical::<T>(a, c);
    lemma_mul_canonical::<T>(b, c);
    lemma_mul_canonical::<T>(ab, c);
    lemma_add_canonical::<T>(ac, bc);
    assert forall|k: int| 0 <= k implies coeff::<T>(poly_mul::<T>(ab, c), k) == coeff::<T>(
        poly_add::<T>(ac, bc),
        k,
    ) by {
        let f = terms::<T>(a, c, k);
        let g = terms::<T>(b, c, k);
        let h = terms::<T>(ab, c, k);
        let n = (k + 1) as nat;
        lemma_mul_coeff::<T>(ab, c, k);
        lemma_mul_coeff::<T>(a, c, k);
        lemma_mul_coeff::<T>(b, c, k);
        lemma_add_coeff::<T>(ac, bc, k);
        lemma_terms_in_ring::<T>(a, c, k, n);
        lemma_terms_in_ring::<T>(b, c, k, n);
        assert forall|i: int| 0 <= i < n implies #[trigger] h(i) == T::add_v(f(i), g(i)) by {
            lemma_add_coeff::<T>(a, b, i);
            lemma_coeff_in_ring::<T>(a, i);
            lemma_coeff_in_ring::<T>(b, i);
            lemma_coeff_in_ring::<T>(c, k - i);
            T::lemma_mul_distributes(coeff::<T>(a, i), coeff::<T>(b, i), coeff::<T>(c, k - i));
        }
        lemma_sum_add::<T>(f, g, h, n);
    }
    lemma_canonical_ext::<T>(poly_mul::<T>(ab, c), poly_add::<T>(ac, bc));
}

} // verus!
