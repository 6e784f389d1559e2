//! Polynomials in one indeterminate, stored densely.
use crate::lemmas::seqs::{
    lemma_canonical_ext, lemma_trim_at, lemma_trim_coeff, lemma_trim_shape, lemma_values_in_ring,
};
use crate::model::{coeff, degree, poly_one, poly_zero, trim, values};
use crate::traits::RingType;
use std::rc::Rc;
use vstd::prelude::*;

verus! {

/// A polynomial with coefficients in `T`.
///
/// The coefficients are kept in a shared, immutable vector, index `i`
/// holding the coefficient of `x^i`, together with the degree. Zeros above
/// the degree may be present in the vector; they have no bearing on the
/// polynomial's value, which is `self@`.
#[derive(Debug)]
pub struct Polynomial<T: RingType> {
    coeffs: Rc<Vec<T>>,
    deg: u64,
}

/// `Rc::clone` on the coefficient storage: a second handle to the same
/// allocation, so what it points to is what the first handle points to.
#[verifier::external_body]
fn share<T>(handle: &Rc<Vec<T>>) -> (r: Rc<Vec<T>>)
    ensures
        r == *handle,
{
    Rc::clone(handle)
}

impl<T: RingType> View for Polynomial<T> {
    type V = Seq<T::V>;

    /// The polynomial's value: the stored coefficients as ring elements,
    /// without trailing zeros.
    open spec fn view(&self) -> Seq<T::V> {
        trim::<T>(values::<T>(self.backing()))
    }
}

impl<T: RingType> Polynomial<T> {
    /// The stored coefficients, trailing zeros included.
    pub closed spec fn backing(&self) -> Seq<T> {
        self.coeffs@
    }

    #[verifier::type_invariant]
    spec fn well_formed(&self) -> bool {
        self.deg == degree(self@)
    }

    /// The degree: the highest exponent with a nonzero coefficient, and 0
    /// for the zero polynomial.
    pub fn deg(&self) -> (r: u64)
        ensures
            r == degree(self@),
    {
        proof {
            use_type_invariant(self);
        }
        self.deg
    }

    /// A handle to the coefficient storage, shared with `self`.
    pub fn coeffs(&self) -> (r: Rc<Vec<T>>)
        ensures
            r@ == self.backing(),
    {
        share(&self.coeffs)
    }

    /// The coefficient storage itself.
    pub(crate) fn stored(&self) -> (r: &Vec<T>)
        ensures
            r@ == self.backing(),
    {
        &self.coeffs
    }

    /// The zero polynomial, with no coefficient stored.
    pub fn new() -> (r: Self)
        ensures
            r@ == poly_zero::<T>(),
            r.backing() == Seq::<T>::empty(),
    {
        Polynomial { coeffs: Rc::new(Vec::new()), deg: 0 }
    }

    /// Whether the degree of `self` is at least that of `other`.
    pub fn compare_deg(&self, other: &Self) -> (r: bool)
        ensures
            r == (degree(self@) >= degree(other@)),
    {
        let self_deg = self.deg();
        let other_deg = other.deg();
        self_deg >= other_deg
    }

    /// Whether the coefficients of `x^i` in `self` and in `other` are equal,
    /// a coefficient that is not stored being zero.
    fn same_coeff(&self, other: &Self, i: usize) -> (r: bool)
        ensures
            r == (coeff::<T>(self@, i as int) == coeff::<T>(other@, i as int)),
    {
        proof {
            lemma_trim_coeff::<T>(values::<T>(self.backing()), i as int);
            lemma_trim_coeff::<T>(values::<T>(other.backing()), i as int);
        }
        let n = self.coeffs.len();
        let m = other.coeffs.len();
        if i < n && i < m {
            self.coeffs[i].ring_eq(&other.coeffs[i])
        } else if i < n {
            self.coeffs[i].ring_eq(&T::zero())
        } else if i < m {
            other.coeffs[i].ring_eq(&T::zero())
        } else {
            true
        }
    }
}

impl<T: RingType> Default for Polynomial<T> {
    /// The zero polynomial, with no coefficient stored.
    fn default() -> (r: Self)
        ensures
            r@ == poly_zero::<T>(),
            r.backing() == Seq::<T>::empty(),
    {
        Polynomial::new()
    }
}

impl<T: RingType> Clone for Polynomial<T> {
    /// A second polynomial on the same coefficient storage.
    fn clone(&self) -> (r: Self)
        ensures
            r == *self,
    {
        proof {
            use_type_invariant(self);
        }
        Polynomial { coeffs: share(&self.coeffs), deg: self.deg }
    }
}

impl<T: RingType> vstd::std_specs::convert::FromSpecImpl<Vec<T>> for Polynomial<T> {
    open spec fn obeys_from_spec() -> bool {
        true
    }

    /// The polynomial on the storage `v`, with the degree of its value.
    closed spec fn from_spec(v: Vec<T>) -> Self {
        Polynomial { coeffs: Rc::new(v), deg: degree(trim::<T>(values::<T>(v@))) as u64 }
    }
}

impl<T: RingType> From<Vec<T>> for Polynomial<T> {
    /// The polynomial with the given coefficients, index `i` holding that of
    /// `x^i`. The vector is kept as it is; its trailing zeros do not count.
    fn from(vec: Vec<T>) -> (r: Self)
        ensures
            r.backing() == vec@,
            r@ == trim::<T>(values::<T>(vec@)),
    {
        let zero = T::zero();
        let mut d: usize = vec.len();
        while d > 0
            invariant_except_break
                d <= vec.len(),
                zero.val() == T::zero_v(),
                forall|i: int| d <= i < vec.len() ==> vec[i].val() == T::zero_v(),
            ensures
                d <= vec.len(),
                forall|i: int| d <= i < vec.len() ==> vec[i].val() == T::zero_v(),
                d > 0 ==> vec[d - 1].val() != T::zero_v(),
            decreases d,
        {
            if !vec[d - 1].ring_eq(&zero) {
                break ;
            }
            d = d - 1;
        }
        proof {
            lemma_trim_at::<T>(values::<T>(vec@), d as int);
        }
        let deg: u64 = if d == 0 {
            0
        } else {
            (d - 1) as u64
        };
        Polynomial { coeffs: Rc::new(vec), deg }
    }
}

impl<T: RingType> vstd::std_specs::cmp::PartialEqSpecImpl for Polynomial<T> {
    open spec fn obeys_eq_spec() -> bool {
        true
    }

    /// Polynomials are equal when their values are: the same degree and the
    /// same coefficients up to it.
    open spec fn eq_spec(&self, other: &Self) -> bool {
        self@ == other@
    }
}

impl<T: RingType> PartialEq for Polynomial<T> {
    /// Whether the degrees are equal and the coefficients agree up to the
    /// degree.
    fn eq(&self, other: &Self) -> (r: bool) {
        proof {
            use_type_invariant(self);
            use_type_invariant(other);
            lemma_values_in_ring::<T>(self.backing());
            lemma_values_in_ring::<T>(other.backing());
            lemma_trim_shape::<T>(values::<T>(self.backing()));
        }
        if self.deg != other.deg {
            return false;
        }
        let stored = self.coeffs.len();
        assert(degree(self@) <= stored);
        let d: usize = self.deg as usize;
        let mut i: usize = 0;
        while i <= d
            invariant
                i <= d + 1,
                d == degree(self@),
                d == degree(other@),
                d < usize::MAX,
                forall|j: int| 0 <= j < i ==> coeff::<T>(self@, j) == coeff::<T>(other@, j),
            decreases d + 1 - i,
        {
            if !self.same_coeff(other, i) {
                return false;
            }
            i = i + 1;
        }
        proof {
            lemma_canonical_ext::<T>(self@, other@);
        }
        true
    }

    /// Whether the degrees differ or some coefficient up to the degree does.
    fn ne(&self, other: &Self) -> (r: bool) {
        !self.eq(other)
    }
}

impl<T: RingType> Eq for Polynomial<T> {

}

impl<T: RingType> Polynomial<T> {
    /// The zero polynomial, stored as the single coefficient zero.
    pub fn zero() -> (r: Self)
        ensures
            r@ == poly_zero::<T>(),
            values::<T>(r.backing()) == seq![T::zero_v()],
    {
        let r = Polynomial::from(vec![T::zero()]);
        proof {
            lemma_trim_at::<T>(values::<T>(r.backing()), 0);
            assert(values::<T>(r.backing()) =~= seq![T::zero_v()]);
        }
        r
    }

    /// Whether `self` is the zero polynomial.
    pub fn is_zero(&self) -> (r: bool)
        ensures
            r == (self@ == poly_zero::<T>()),
            r == (self@.len() == 0),
    {
        assert(self@.len() == 0 ==> self@ =~= poly_zero::<T>());
        *self == Self::zero()
    }

    /// The constant polynomial 1.
    pub fn one() -> (r: Self)
        ensures
            r@ == poly_one::<T>(),
            values::<T>(r.backing()) == seq![T::one_v()],
    {
        let r = Polynomial::from(vec![T::one()]);
        proof {
            assert(values::<T>(r.backing()) =~= seq![T::one_v()]);
        }
        r
    }

    /// Whether `self` is the constant polynomial 1.
    pub fn is_one(&self) -> (r: bool)
        ensures
            r == (self@ == poly_one::<T>()),
    {
        *self == Self::one()
    }
}

} // verus!
