//! Trailing zeros, coefficients and canonical sequences.
use crate::model::{all_in_ring, canonical, coeff, degree, trim, values};
use crate::traits::RingType;
use vstd::prelude::*;

verus! {

/// What `trim` keeps and what it drops: the result is a prefix of `s`, it
/// does not end in zero, and everything after it in `s` is zero.
pub proof fn lemma_trim_shape<T: RingType>(s: Seq<T::V>)
    ensures
        trim::<T>(s).len() <= s.len(),
        trim::<T>(s) == s.take(trim::<T>(s).len() as int),
        trim::<T>(s).len() > 0 ==> trim::<T>(s).last() != T::zero_v(),
        forall|i: int| trim::<T>(s).len() <= i < s.len() ==> s[i] == T::zero_v(),
    decreases s.len(),
{
    if s.len() > 0 && s.last() == T::zero_v() {
        let t = s.drop_last();
        lemma_trim_shape::<T>(t);
        assert(trim::<T>(s) == trim::<T>(t));
        assert(t.take(trim::<T>(t).len() as int) == s.take(trim::<T>(t).len() as int));
        assert forall|i: int| trim::<T>(s).len() <= i < s.len() implies s[i] == T::zero_v() by {
            if i < t.len() {
                assert(t[i] == T::zero_v());
            }
        }
    } else {
        assert(s.take(s.len() as int) == s);
    }
}

/// Dropping trailing zeros changes no coefficient.
pub proof fn lemma_trim_coeff<T: RingType>(s: Seq<T::V>, i: int)
    ensures
        coeff::<T>(trim::<T>(s), i) == coeff::<T>(s, i),
{
    lemma_trim_shape::<T>(s);
}

/// A sequence of ring elements trims to the value of a polynomial.
pub proof fn lemma_trim_canonical<T: RingType>(s: Seq<T::V>)
    requires
        all_in_ring::<T>(s),
    ensures
        canonical::<T>(trim::<T>(s)),
{
    lemma_trim_shape::<T>(s);
    let t = trim::<T>(s);
    assert forall|i: int| 0 <= i < t.len() implies T::in_ring(#[trigger] t[i]) by {
        assert(t[i] == s[i]);
    }
}

/// A sequence that does not end in zero is left as it is.
pub proof fn lemma_trim_fixed<T: RingType>(s: Seq<T::V>)
    requires
        s.len() > 0 ==> s.last() != T::zero_v(),
    ensures
        trim::<T>(s) == s,
{
}

/// Sequences that agree in every coefficient trim to the same value.
pub proof fn lemma_trim_ext<T: RingType>(s: Seq<T::V>, t: Seq<T::V>)
    requires
        forall|i: int| 0 <= i ==> coeff::<T>(s, i) == coeff::<T>(t, i),
    ensures
        trim::<T>(s) == trim::<T>(t),
{
    let p = trim::<T>(s);
    let q = trim::<T>(t);
    lemma_trim_shape::<T>(s);
    lemma_trim_shape::<T>(t);
    assert forall|i: int| 0 <= i implies coeff::<T>(p, i) == coeff::<T>(q, i) by {
        lemma_trim_coeff::<T>(s, i);
        lemma_trim_coeff::<T>(t, i);
    }
    if p.len() < q.len() {
        assert(coeff::<T>(p, q.len() - 1) == coeff::<T>(q, q.len() - 1));
    } else if q.len() < p.len() {
        assert(coeff::<T>(p, p.len() - 1) == coeff::<T>(q, p.len() - 1));
    } else {
        assert forall|i: int| 0 <= i < p.len() implies p[i] == q[i] by {
            assert(coeff::<T>(p, i) == coeff::<T>(q, i));
        }
        assert(p =~= q);
    }
}

/// Two polynomial values with the same coefficients are the same value.
pub proof fn lemma_canonical_ext<T: RingType>(p: Seq<T::V>, q: Seq<T::V>)
    requires
        canonical::<T>(p),
        canonical::<T>(q),
        forall|i: int| 0 <= i ==> coeff::<T>(p, i) == coeff::<T>(q, i),
    ensures
        p == q,
{
    lemma_trim_ext::<T>(p, q);
    lemma_trim_fixed::<T>(p);
    lemma_trim_fixed::<T>(q);
}

/// Trimming twice is trimming once.
pub proof fn lemma_trim_idempotent<T: RingType>(s: Seq<T::V>)
    ensures
        trim::<T>(trim::<T>(s)) == trim::<T>(s),
{
    lemma_trim_shape::<T>(s);
    lemma_trim_fixed::<T>(trim::<T>(s));
}

/// Zeros appended to a sequence are trimmed away again.
pub proof fn lemma_trim_appended_zeros<T: RingType>(s: Seq<T::V>, zeros: Seq<T::V>)
    requires
        forall|i: int| 0 <= i < zeros.len() ==> zeros[i] == T::zero_v(),
    ensures
        trim::<T>(s + zeros) == trim::<T>(s),
{
    lemma_trim_ext::<T>(s + zeros, s);
}

/// The values of a sequence of coefficients are ring elements.
pub proof fn lemma_values_in_ring<T: RingType>(s: Seq<T>)
    ensures
        all_in_ring::<T>(values::<T>(s)),
        canonical::<T>(trim::<T>(values::<T>(s))),
{
    let v = values::<T>(s);
    assert forall|i: int| 0 <= i < v.len() implies T::in_ring(#[trigger] v[i]) by {
        T::lemma_val_in_ring(&s[i]);
    }
    lemma_trim_canonical::<T>(v);
}

/// Where the scan for the highest nonzero coefficient stops, there the
/// trimmed sequence ends: if everything above index `d` is zero and index
/// `d` is not, the value has degree `d`; if everything is zero, the value is
/// the zero polynomial.
pub proof fn lemma_trim_at<T: RingType>(s: Seq<T::V>, d: int)
    requires
        0 <= d <= s.len(),
        forall|i: int| d <= i < s.len() ==> s[i] == T::zero_v(),
        d > 0 ==> s[d - 1] != T::zero_v(),
    ensures
        trim::<T>(s) == s.take(d),
{
    lemma_trim_ext::<T>(s, s.take(d));
    lemma_trim_fixed::<T>(s.take(d));
}

} // verus!
