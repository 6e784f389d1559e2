//! Finite sums of ring elements, and the convolution sum as one of them.
use crate::lemmas::additive::lemma_coeff_in_ring;
use crate::lemmas::ring::{lemma_zero_add, lemma_zero_in_ring};
use crate::model::{all_in_ring, coeff, conv, degree};
use crate::traits::RingType;
use vstd::prelude::*;

verus! {

/// `f(0) + f(1) + ... + f(n - 1)`, added up from zero in this order.
pub open spec fn sum<T: RingType>(f: spec_fn(int) -> T::V, n: nat) -> T::V
    decreases n,
{
    if n == 0 {
        T::zero_v()
    } else {
        T::add_v(sum::<T>(f, (n - 1) as nat), f(n - 1))
    }
}

/// The terms of the convolution sum for `x^k`, with no term left out:
/// `i` goes to `a_i * b_(k-i)`.
pub open spec fn terms<T: RingType>(a: Seq<T::V>, b: Seq<T::V>, k: int) -> spec_fn(int) -> T::V {
    |i: int| T::mul_v(coeff::<T>(a, i), coeff::<T>(b, k - i))
}

/// The terms of a sum being ring elements below `n`.
pub open spec fn terms_in_ring<T: RingType>(f: spec_fn(int) -> T::V, n: nat) -> bool {
    forall|i: int| 0 <= i < n ==> T::in_ring(#[trigger] f(i))
}

/// A sum of ring elements is a ring element.
pub proof fn lemma_sum_in_ring<T: RingType>(f: spec_fn(int) -> T::V, n: nat)
    requires
        terms_in_ring::<T>(f, n),
    ensures
        T::in_ring(sum::<T>(f, n)),
    decreases n,
{
    lemma_zero_in_ring::<T>();
    if n > 0 {
        lemma_sum_in_ring::<T>(f, (n - 1) as nat);
        assert(T::in_ring(f(n - 1)));
        T::lemma_closed(sum::<T>(f, (n - 1) as nat), f(n - 1));
    }
}

/// Sums of equal terms are equal.
pub proof fn lemma_sum_ext<T: RingType>(f: spec_fn(int) -> T::V, g: spec_fn(int) -> T::V, n: nat)
    requires
        forall|i: int| 0 <= i < n ==> #[trigger] f(i) == g(i),
    ensures
        sum::<T>(f, n) == sum::<T>(g, n),
    decreases n,
{
    if n > 0 {
        lemma_sum_ext::<T>(f, g, (n - 1) as nat);
    }
}

/// Zero terms at the end of a sum may be left out.
pub proof fn lemma_sum_tail_zero<T: RingType>(f: spec_fn(int) -> T::V, n: nat, m: nat)
    requires
        n <= m,
        terms_in_ring::<T>(f, n),
        forall|i: int| n <= i < m ==> #[trigger] f(i) == T::zero_v(),
    ensures
        sum::<T>(f, m) == sum::<T>(f, n),
    decreases m - n,
{
    if n < m {
        lemma_sum_tail_zero::<T>(f, n, (m - 1) as nat);
        lemma_sum_in_ring::<T>(f, n);
        T::lemma_add_zero(sum::<T>(f, n));
    }
}

/// A sum of zeros is zero.
pub proof fn lemma_sum_zero<T: RingType>(f: spec_fn(int) -> T::V, n: nat)
    requires
        forall|i: int| 0 <= i < n ==> #[trigger] f(i) == T::zero_v(),
    ensures
        sum::<T>(f, n) == T::zero_v(),
{
    assert(terms_in_ring::<T>(f, 0));
    lemma_sum_tail_zero::<T>(f, 0, n);
}

/// A sum with a single term that is not zero is that term.
pub proof fn lemma_sum_single<T: RingType>(f: spec_fn(int) -> T::V, n: nat, j: int)
    requires
        0 <= j < n,
        T::in_ring(f(j)),
        forall|i: int| 0 <= i < n && i != j ==> #[trigger] f(i) == T::zero_v(),
    ensures
        sum::<T>(f, n) == f(j),
{
    lemma_zero_in_ring::<T>();
    lemma_sum_zero::<T>(f, j as nat);
    lemma_zero_add::<T>(f(j));
    assert(sum::<T>(f, (j + 1) as nat) == f(j));
    assert(terms_in_ring::<T>(f, (j + 1) as nat));
    lemma_sum_tail_zero::<T>(f, (j + 1) as nat, n);
}

/// The sum of termwise sums is the sum of the two sums.
pub proof fn lemma_sum_add<T: RingType>(
    f: spec_fn(int) -> T::V,
    g: spec_fn(int) -> T::V,
    h: spec_fn(int) -> T::V,
    n: nat,
)
    requires
        terms_in_ring::<T>(f, n),
        terms_in_ring::<T>(g, n),
        forall|i: int| 0 <= i < n ==> #[trigger] h(i) == T::add_v(f(i), g(i)),
    ensures
        sum::<T>(h, n) == T::add_v(sum::<T>(f, n), sum::<T>(g, n)),
    decreases n,
{
    lemma_zero_in_ring::<T>();
    if n == 0 {
        lemma_zero_add::<T>(T::zero_v());
    } else {
        let m = (n - 1) as nat;
        lemma_sum_add::<T>(f, g, h, m);
        lemma_sum_in_ring::<T>(f, m);
        lemma_sum_in_ring::<T>(g, m);
        let sf = sum::<T>(f, m);
        let sg = sum::<T>(g, m);
        let x = f(n - 1);
        let y = g(n - 1);
        assert(T::in_ring(x) && T::in_ring(y));
        // (sf + sg) + (x + y) == (sf + x) + (sg + y)
        T::lemma_closed(x, y);
        T::lemma_closed(sg, x);
        T::lemma_closed(sf, x);
        T::lemma_add_associates(sf, sg, T::add_v(x, y));
        T::lemma_add_associates(sg, x, y);
        T::lemma_add_commutes(sg, x);
        T::lemma_add_associates(x, sg, y);
        T::lemma_closed(sg, y);
        T::lemma_add_associates(sf, x, T::add_v(sg, y));
    }
}

/// The terms of a convolution sum over ring elements are ring elements.
pub proof fn lemma_terms_in_ring<T: RingType>(a: Seq<T::V>, b: Seq<T::V>, k: int, n: nat)
    requires
        all_in_ring::<T>(a),
        all_in_ring::<T>(b),
    ensures
        terms_in_ring::<T>(terms::<T>(a, b, k), n),
{
    let f = terms::<T>(a, b, k);
    assert forall|i: int| 0 <= i < n implies T::in_ring(#[trigger] f(i)) by {
        lemma_coeff_in_ring::<T>(a, i);
        lemma_coeff_in_ring::<T>(b, k - i);
        T::lemma_closed(coeff::<T>(a, i), coeff::<T>(b, k - i));
    }
}

/// The terms that the convolution sum leaves out are zero, so it is the
/// sum of all terms.
pub proof fn lemma_conv_is_sum<T: RingType>(a: Seq<T::V>, b: Seq<T::V>, k: int, n: nat)
    requires
        all_in_ring::<T>(a),
        all_in_ring::<T>(b),
    ensures
        conv::<T>(a, b, k, n) == sum::<T>(terms::<T>(a, b, k), n),
        T::in_ring(conv::<T>(a, b, k, n)),
    decreases n,
{
    let f = terms::<T>(a, b, k);
    lemma_terms_in_ring::<T>(a, b, k, n);
    lemma_sum_in_ring::<T>(f, n);
    if n > 0 {
        let i = n - 1;
        lemma_conv_is_sum::<T>(a, b, k, (n - 1) as nat);
        if !(i <= degree(a) && 0 <= k - i <= degree(b)) {
            lemma_coeff_in_ring::<T>(a, i);
            lemma_coeff_in_ring::<T>(b, k - i);
            T::lemma_mul_zero(coeff::<T>(a, i));
            T::lemma_mul_zero(coeff::<T>(b, k - i));
            assert(f(i) == T::zero_v());
            T::lemma_add_zero(sum::<T>(f, (n - 1) as nat));
        }
    }
}

} // verus!
