//! Sum, negative, difference and product of polynomials.
use crate::lemmas::additive::{lemma_neg_of_trim, lemma_poly_add_commutes};
use crate::lemmas::multiplicative::{lemma_conv_starts, lemma_conv_stops};
use crate::lemmas::seqs::{lemma_trim_coeff, lemma_trim_shape, lemma_values_in_ring};
use crate::model::{
    coeff, conv, degree, poly_add, poly_mul, poly_neg, poly_sub, raw_add, raw_mul, raw_neg, values,
};
use crate::poly::Polynomial;
use crate::traits::RingType;
use std::ops::{Add, Mul, Neg, Sub};
use vstd::prelude::*;
use vstd::std_specs::ops::{AddSpecImpl, MulSpecImpl, NegSpecImpl, SubSpecImpl};

verus! {

impl<T: RingType> Polynomial<T> {
    /// The sum of the coefficients of `x^i` in `self` and in `rhs`, a
    /// coefficient that is not stored being zero.
    fn sum_at(&self, rhs: &Self, i: usize) -> (r: T)
        ensures
            r.val() == T::add_v(coeff::<T>(self@, i as int), coeff::<T>(rhs@, i as int)),
    {
        proof {
            lemma_trim_coeff::<T>(values::<T>(self.backing()), i as int);
            lemma_trim_coeff::<T>(values::<T>(rhs.backing()), i as int);
        }
        let a = self.stored();
        let b = rhs.stored();
        if i < a.len() && i < b.len() {
            a[i].ring_add(&b[i])
        } else if i < a.len() {
            a[i].ring_add(&T::zero())
        } else if i < b.len() {
            T::zero().ring_add(&b[i])
        } else {
            T::zero().ring_add(&T::zero())
        }
    }

    /// `self + rhs`, where the degree of `rhs` is at most that of `self`:
    /// the coefficients of `rhs` are taken as zero above its degree.
    fn add_pad_second(self, rhs: Self) -> (r: Self)
        requires
            degree(self@) >= degree(rhs@),
        ensures
            r@ == poly_add::<T>(self@, rhs@),
            values::<T>(r.backing()) == raw_add::<T>(self@, rhs@),
    {
        proof {
            lemma_trim_shape::<T>(values::<T>(self.backing()));
        }
        let stored = self.stored().len();
        let n: usize = self.deg() as usize;
        let mut out: Vec<T> = Vec::new();
        let mut i: usize = 0;
        while i <= n
            invariant
                i <= n + 1,
                n < usize::MAX,
                out@.len() == i,
                forall|j: int|
                    0 <= j < i ==> (#[trigger] out@[j]).val() == T::add_v(
                        coeff::<T>(self@, j),
                        coeff::<T>(rhs@, j),
                    ),
            decreases n + 1 - i,
        {
            let c = self.sum_at(&rhs, i);
            out.push(c);
            i = i + 1;
        }
        let r = Polynomial::from(out);
        assert(values::<T>(r.backing()) =~= raw_add::<T>(self@, rhs@));
        r
    }
}

impl<T: RingType> AddSpecImpl for Polynomial<T> {
    /// The sum is described by the `ensures` of `add`, over values.
    open spec fn obeys_add_spec() -> bool {
        false
    }

    open spec fn add_req(self, rhs: Self) -> bool {
        true
    }

    open spec fn add_spec(self, rhs: Self) -> Self {
        arbitrary()
    }
}

impl<T: RingType> Add for Polynomial<T> {
    type Output = Self;

    /// `self + rhs`: the coefficients are added pairwise up to the larger
    /// degree, the shorter operand continued by zeros.
    fn add(self, rhs: Self) -> (r: Self)
        ensures
            r@ == poly_add::<T>(self@, rhs@),
            values::<T>(r.backing()) == raw_add::<T>(self@, rhs@),
    {
        proof {
            lemma_values_in_ring::<T>(self.backing());
            lemma_values_in_ring::<T>(rhs.backing());
            lemma_poly_add_commutes::<T>(self@, rhs@);
        }
        if Self::compare_deg(&self, &rhs) {
            Self::add_pad_second(self, rhs)
        } else {
            Self::add_pad_second(rhs, self)
        }
    }
}

impl<T: RingType> NegSpecImpl for Polynomial<T> {
    /// The negative is described by the `ensures` of `neg`, over values.
    open spec fn obeys_neg_spec() -> bool {
        false
    }

    open spec fn neg_req(self) -> bool {
        true
    }

    open spec fn neg_spec(self) -> Self {
        arbitrary()
    }
}

impl<T: RingType> Neg for Polynomial<T> {
    type Output = Self;

    /// `-self`: every stored coefficient is negated.
    fn neg(self) -> (r: Self)
        ensures
            r@ == poly_neg::<T>(self@),
            values::<T>(r.backing()) == raw_neg::<T>(values::<T>(self.backing())),
    {
        let a = self.stored();
        let n = a.len();
        let mut out: Vec<T> = Vec::new();
        let mut i: usize = 0;
        while i < n
            invariant
                i <= n,
                n == a@.len(),
                out@.len() == i,
                forall|j: int| 0 <= j < i ==> (#[trigger] out@[j]).val() == T::neg_v(a@[j].val()),
            decreases n - i,
        {
            let c = a[i].ring_neg();
            out.push(c);
            i = i + 1;
        }
        let r = Polynomial::from(out);
        proof {
            assert(values::<T>(r.backing()) =~= raw_neg::<T>(values::<T>(self.backing())));
            lemma_neg_of_trim::<T>(values::<T>(self.backing()));
        }
        r
    }
}

impl<T: RingType> SubSpecImpl for Polynomial<T> {
    /// The difference is described by the `ensures` of `sub`, over values.
    open spec fn obeys_sub_spec() -> bool {
        false
    }

    open spec fn sub_req(self, rhs: Self) -> bool {
        true
    }

    open spec fn sub_spec(self, rhs: Self) -> Self {
        arbitrary()
    }
}

impl<T: RingType> Sub for Polynomial<T> {
    type Output = Self;

    /// `self - rhs`, computed as `self + (-rhs)`.
    fn sub(self, rhs: Self) -> (r: Self)
        ensures
            r@ == poly_sub::<T>(self@, rhs@),
            values::<T>(r.backing()) == raw_add::<T>(self@, poly_neg::<T>(rhs@)),
    {
        self + rhs.neg()
    }
}

impl<T: RingType> Polynomial<T> {
    /// The product of the coefficient of `x^i` in `self` and that of `x^j`
    /// in `rhs`, in this order, a coefficient that is not stored being zero.
    fn product_at(&self, rhs: &Self, i: usize, j: usize) -> (r: T)
        ensures
            r.val() == T::mul_v(coeff::<T>(self@, i as int), coeff::<T>(rhs@, j as int)),
    {
        proof {
            lemma_trim_coeff::<T>(values::<T>(self.backing()), i as int);
            lemma_trim_coeff::<T>(values::<T>(rhs.backing()), j as int);
        }
        let a = self.stored();
        let b = rhs.stored();
        if i < a.len() && j < b.len() {
            a[i].ring_mul(&b[j])
        } else if i < a.len() {
            a[i].ring_mul(&T::zero())
        } else if j < b.len() {
            T::zero().ring_mul(&b[j])
        } else {
            T::zero().ring_mul(&T::zero())
        }
    }

    /// The coefficient of `x^k` in `self * rhs`: the convolution sum, taken
    /// over the indices at which both factors have a coefficient within
    /// their degree.
    fn conv_at(&self, rhs: &Self, k: usize) -> (r: T)
        ensures
            r.val() == conv::<T>(self@, rhs@, k as int, (k + 1) as nat),
    {
        proof {
            lemma_trim_shape::<T>(values::<T>(self.backing()));
            lemma_trim_shape::<T>(values::<T>(rhs.backing()));
        }
        let stored_a = self.stored().len();
        let stored_b = rhs.stored().len();
        let n: usize = self.deg() as usize;
        let m: usize = rhs.deg() as usize;
        let hi: usize = if k < n {
            k
        } else {
            n
        };
        let lo: usize = if k > m {
            k - m
        } else {
            0
        };
        let mut acc = T::zero();
        let mut i: usize = lo;
        proof {
            if lo > 0 {
                lemma_conv_starts::<T>(self@, rhs@, k as int, lo as nat);
            }
        }
        if lo > hi {
            proof {
                lemma_conv_stops::<T>(self@, rhs@, k as int, lo as nat);
                lemma_conv_stops::<T>(self@, rhs@, k as int, (k + 1) as nat);
            }
            return acc;
        }
        while i <= hi
            invariant
                lo <= i <= hi + 1,
                hi < usize::MAX,
                hi <= k,
                hi <= n,
                n == degree(self@),
                m == degree(rhs@),
                lo == (if k > m {
                    k - m
                } else {
                    0
                }),
                acc.val() == conv::<T>(self@, rhs@, k as int, i as nat),
            decreases hi + 1 - i,
        {
            let t = self.product_at(rhs, i, k - i);
            acc = acc.ring_add(&t);
            i = i + 1;
        }
        proof {
            if hi == n {
                lemma_conv_stops::<T>(self@, rhs@, k as int, (k + 1) as nat);
            }
        }
        acc
    }
}

impl<T: RingType> MulSpecImpl for Polynomial<T> {
    /// The product is described by the `ensures` of `mul`, over values.
    open spec fn obeys_mul_spec() -> bool {
        false
    }

    open spec fn mul_req(self, rhs: Self) -> bool {
        true
    }

    open spec fn mul_spec(self, rhs: Self) -> Self {
        arbitrary()
    }
}

impl<T: RingType> Mul for Polynomial<T> {
    type Output = Self;

    /// `self * rhs`: the coefficient of `x^k`, for `k` up to the sum of the
    /// degrees, is the sum of the products `a_i * b_(k-i)`, in this order of
    /// the factors.
    fn mul(self, rhs: Self) -> (r: Self)
        ensures
            r@ == poly_mul::<T>(self@, rhs@),
            values::<T>(r.backing()) == raw_mul::<T>(self@, rhs@),
    {
        let n = self.deg();
        let m = rhs.deg();
        let top: u128 = n as u128 + m as u128;
        let mut out: Vec<T> = Vec::new();
        let mut k: usize = 0;
        while k as u128 <= top
            invariant
                k <= top + 1,
                top == degree(self@) + degree(rhs@),
                out@.len() == k,
                forall|j: int|
                    0 <= j < k ==> (#[trigger] out@[j]).val() == conv::<T>(
                        self@,
                        rhs@,
                        j,
                        (j + 1) as nat,
                    ),
            decreases top + 1 - k,
        {
            let c = self.conv_at(&rhs, k);
            out.push(c);
            k = out.len();
        }
        let r = Polynomial::from(out);
        assert(values::<T>(r.backing()) =~= raw_mul::<T>(self@, rhs@));
        r
    }
}

} // verus!
