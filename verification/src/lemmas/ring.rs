//! Facts that follow from the ring laws a coefficient type states.
use crate::traits::RingType;
use vstd::prelude::*;

verus! {

/// Zero and one are elements of the ring.
pub proof fn lemma_zero_in_ring<T: RingType>()
    ensures
        T::in_ring(T::zero_v()),
        T::in_ring(T::one_v()),
{
    // Any value of the type stands for an element, and closure does the rest.
    let w: T = arbitrary();
    T::lemma_val_in_ring(&w);
    T::lemma_closed(w.val(), w.val());
}

/// `0 + a == a`.
pub proof fn lemma_zero_add<T: RingType>(a: T::V)
    requires
        T::in_ring(a),
    ensures
        T::add_v(T::zero_v(), a) == a,
{
    lemma_zero_in_ring::<T>();
    T::lemma_add_commutes(T::zero_v(), a);
    T::lemma_add_zero(a);
}

/// `-0 == 0`.
pub proof fn lemma_neg_zero<T: RingType>()
    ensures
        T::neg_v(T::zero_v()) == T::zero_v(),
{
    lemma_zero_in_ring::<T>();
    let z = T::zero_v();
    T::lemma_closed(z, z);
    T::lemma_add_neg(z);
    lemma_zero_add::<T>(T::neg_v(z));
}

/// The negative of a nonzero element is not zero.
pub proof fn lemma_neg_nonzero<T: RingType>(a: T::V)
    requires
        T::in_ring(a),
        a != T::zero_v(),
    ensures
        T::neg_v(a) != T::zero_v(),
{
    T::lemma_add_neg(a);
    T::lemma_add_zero(a);
}

} // verus!
