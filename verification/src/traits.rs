//! The capability set a coefficient type has to offer.
//!
//! A coefficient type is described twice: by executable operations on its
//! values, and by a mathematical model `V` on which the same operations are
//! spec functions. Every executable operation is tied to its model
//! counterpart, and the model obeys the ring laws listed at the end of the
//! trait. Equality of coefficients is equality of their model values, so a
//! type is free to keep several representations of one ring element.
use vstd::prelude::*;

verus! {

/// A ring-like coefficient type: addition, negation, subtraction,
/// multiplication, the two identities, equality, and a partial inverse.
///
/// Multiplication is not asked to be commutative or associative; the laws
/// below are all that the polynomial code relies on.
pub trait RingType: Sized {
    /// The mathematical value that an element stands for.
    type V;

    /// The ring element that `self` represents.
    spec fn val(&self) -> Self::V;

    /// Which model values are elements of the ring.
    spec fn in_ring(v: Self::V) -> bool;

    /// The additive identity.
    spec fn zero_v() -> Self::V;

    /// The multiplicative identity.
    spec fn one_v() -> Self::V;

    /// The sum of two elements.
    spec fn add_v(a: Self::V, b: Self::V) -> Self::V;

    /// The additive inverse of an element.
    spec fn neg_v(a: Self::V) -> Self::V;

    /// The product of two elements, in this order.
    spec fn mul_v(a: Self::V, b: Self::V) -> Self::V;

    /// The inverse that the type offers for `a`, if it offers one.
    ///
    /// `None` says only that the type knows no inverse; see
    /// [`RingType::lemma_inverse_cancels`] for what `Some` promises.
    spec fn inv_v(a: Self::V) -> Option<Self::V>;

    /// The additive identity.
    fn zero() -> (r: Self)
        ensures
            r.val() == Self::zero_v(),
    ;

    /// The multiplicative identity.
    fn one() -> (r: Self)
        ensures
            r.val() == Self::one_v(),
    ;

    /// Whether two values stand for the same ring element.
    fn ring_eq(&self, rhs: &Self) -> (r: bool)
        ensures
            r == (self.val() == rhs.val()),
    ;

    /// `self + rhs`.
    fn ring_add(&self, rhs: &Self) -> (r: Self)
        ensures
            r.val() == Self::add_v(self.val(), rhs.val()),
    ;

    /// `-self`.
    fn ring_neg(&self) -> (r: Self)
        ensures
            r.val() == Self::neg_v(self.val()),
    ;

    /// `self - rhs`, which is `self + (-rhs)`.
    fn ring_sub(&self, rhs: &Self) -> (r: Self)
        ensures
            r.val() == Self::add_v(self.val(), Self::neg_v(rhs.val())),
    ;

    /// `self * rhs`.
    fn ring_mul(&self, rhs: &Self) -> (r: Self)
        ensures
            r.val() == Self::mul_v(self.val(), rhs.val()),
    ;

    /// The inverse of `self`, where the type offers one.
    fn ring_inv(&self) -> (r: Option<Self>)
        ensures
            match r {
                Some(i) => Self::inv_v(self.val()) == Some(i.val()),
                None => Self::inv_v(self.val()).is_none(),
            },
    ;

    /// Every value stands for an element of the ring.
    proof fn lemma_val_in_ring(x: &Self)
        ensures
            Self::in_ring(x.val()),
    ;

    /// The ring contains its identities and is closed under its operations.
    proof fn lemma_closed(a: Self::V, b: Self::V)
        requires
            Self::in_ring(a),
            Self::in_ring(b),
        ensures
            Self::in_ring(Self::zero_v()),
            Self::in_ring(Self::one_v()),
            Self::in_ring(Self::add_v(a, b)),
            Self::in_ring(Self::neg_v(a)),
            Self::in_ring(Self::mul_v(a, b)),
            Self::inv_v(a).is_some() ==> Self::in_ring(Self::inv_v(a).unwrap()),
    ;

    /// `a + b == b + a`.
    proof fn lemma_add_commutes(a: Self::V, b: Self::V)
        requires
            Self::in_ring(a),
            Self::in_ring(b),
        ensures
            Self::add_v(a, b) == Self::add_v(b, a),
    ;

    /// `(a + b) + c == a + (b + c)`.
    proof fn lemma_add_associates(a: Self::V, b: Self::V, c: Self::V)
        requires
            Self::in_ring(a),
            Self::in_ring(b),
            Self::in_ring(c),
        ensures
            Self::add_v(Self::add_v(a, b), c) == Self::add_v(a, Self::add_v(b, c)),
    ;

    /// `a + 0 == a`.
    proof fn lemma_add_zero(a: Self::V)
        requires
            Self::in_ring(a),
        ensures
            Self::add_v(a, Self::zero_v()) == a,
    ;

    /// `a + (-a) == 0`.
    proof fn lemma_add_neg(a: Self::V)
        requires
            Self::in_ring(a),
        ensures
            Self::add_v(a, Self::neg_v(a)) == Self::zero_v(),
    ;

    /// `a * 1 == a` and `1 * a == a`.
    proof fn lemma_mul_one(a: Self::V)
        requires
            Self::in_ring(a),
        ensures
            Self::mul_v(a, Self::one_v()) == a,
            Self::mul_v(Self::one_v(), a) == a,
    ;

    /// `a * 0 == 0` and `0 * a == 0`.
    proof fn lemma_mul_zero(a: Self::V)
        requires
            Self::in_ring(a),
        ensures
            Self::mul_v(a, Self::zero_v()) == Self::zero_v(),
            Self::mul_v(Self::zero_v(), a) == Self::zero_v(),
    ;

    /// `a * (b + c) == a*b + a*c` and `(a + b) * c == a*c + b*c`.
    proof fn lemma_mul_distributes(a: Self::V, b: Self::V, c: Self::V)
        requires
            Self::in_ring(a),
            Self::in_ring(b),
            Self::in_ring(c),
        ensures
            Self::mul_v(a, Self::add_v(b, c)) == Self::add_v(
                Self::mul_v(a, b),
                Self::mul_v(a, c),
            ),
            Self::mul_v(Self::add_v(a, b), c) == Self::add_v(
                Self::mul_v(a, c),
                Self::mul_v(b, c),
            ),
    ;

    /// An offered inverse undoes a multiplication from the right:
    /// `(a * b⁻¹) * b == a`. With `a == 1` this makes `b⁻¹` a left inverse
    /// of `b`.
    proof fn lemma_inverse_cancels(a: Self::V, b: Self::V)
        requires
            Self::in_ring(a),
            Self::in_ring(b),
            Self::inv_v(b).is_some(),
        ensures
            Self::mul_v(Self::mul_v(a, Self::inv_v(b).unwrap()), b) == a,
    ;
}

} // verus!
