//! Division with remainder.
use crate::lemmas::division::{
    lemma_division_start, lemma_division_step_keeps, lemma_division_step_shortens,
    lemma_long_division,
};
use crate::lemmas::seqs::{lemma_trim_shape, lemma_values_in_ring};
use crate::error::DivError;
use crate::model::{
    degree, division_step, leading, long_division, monomial, poly_add, poly_div_rem, poly_mul,
    poly_zero, raw_monomial, values,
};
use crate::poly::Polynomial;
use crate::traits::RingType;
use std::ops::{Div, Rem};
use vstd::prelude::*;
use vstd::std_specs::ops::{DivSpecImpl, RemSpecImpl};

verus! {

impl<T: RingType> Polynomial<T> {
    /// The polynomial `c * x^d`.
    pub fn monomial(c: T, d: usize) -> (r: Self)
        ensures
            r@ == monomial::<T>(c.val(), d as nat),
            values::<T>(r.backing()) == raw_monomial::<T>(c.val(), d as nat),
    {
        let mut out: Vec<T> = Vec::new();
        let mut i: usize = 0;
        while i < d
            invariant
                i <= d,
                out@.len() == i,
                forall|j: int| 0 <= j < i ==> (#[trigger] out@[j]).val() == T::zero_v(),
            decreases d - i,
        {
            out.push(T::zero());
            i = i + 1;
        }
        out.push(c);
        let r = Polynomial::from(out);
        assert(values::<T>(r.backing()) =~= raw_monomial::<T>(c.val(), d as nat));
        r
    }

    /// Quotient and remainder of `self` by `rhs`, by long division.
    ///
    /// Division by the zero polynomial is refused. Where `self` is zero or
    /// of lower degree than `rhs`, the quotient is zero and the remainder is
    /// `self`. Otherwise the leading coefficient of `rhs` has to offer an
    /// inverse; with it, the result `(q, r)` satisfies `self == q * rhs + r`,
    /// and `r` is zero or of lower degree than `rhs`.
    pub fn div_rem(&self, rhs: &Self) -> (res: Result<(Self, Self), DivError>)
        ensures
            match res {
                Ok((q, r)) => {
                    &&& poly_div_rem::<T>(self@, rhs@) == Ok::<_, DivError>((q@, r@))
                    &&& self@ == poly_add::<T>(poly_mul::<T>(q@, rhs@), r@)
                    &&& r@ == poly_zero::<T>() || degree(r@) < degree(rhs@)
                },
                Err(e) => poly_div_rem::<T>(self@, rhs@) == Err::<(Seq<T::V>, Seq<T::V>), _>(e),
            },
            rhs@ == poly_zero::<T>() <==> res == Err::<(Self, Self), _>(DivError::DivisionByZero),
    {
        proof {
            lemma_values_in_ring::<T>(self.backing());
            lemma_values_in_ring::<T>(rhs.backing());
            lemma_trim_shape::<T>(values::<T>(self.backing()));
            lemma_trim_shape::<T>(values::<T>(rhs.backing()));
            lemma_division_start::<T>(self@, rhs@);
        }
        if rhs.is_zero() {
            return Err(DivError::DivisionByZero);
        }
        let mut q = Polynomial::new();
        let mut r = self.clone();
        if r.is_zero() || r.deg() < rhs.deg() {
            return Ok((q, r));
        }
        let stored_b = rhs.stored().len();
        let m: usize = rhs.deg() as usize;
        let inv = match rhs.stored()[m].ring_inv() {
            None => {
                return Err(DivError::NotInvertible);
            },
            Some(inv) => inv,
        };
        proof {
            lemma_long_division::<T>(self@, q@, r@, rhs@, inv.val());
        }
        while !r.is_zero() && r.deg() >= rhs.deg()
            invariant
                rhs@.len() >= 1,
                m == degree(rhs@),
                T::inv_v(leading::<T>(rhs@)) == Some(inv.val()),
                self@ == poly_add::<T>(poly_mul::<T>(q@, rhs@), r@),
                long_division::<T>(q@, r@, rhs@, inv.val()) == long_division::<T>(
                    poly_zero::<T>(),
                    self@,
                    rhs@,
                    inv.val(),
                ),
            decreases r@.len(),
        {
            proof {
                lemma_values_in_ring::<T>(q.backing());
                lemma_values_in_ring::<T>(r.backing());
                lemma_values_in_ring::<T>(rhs.backing());
                lemma_trim_shape::<T>(values::<T>(r.backing()));
                lemma_division_step_shortens::<T>(r@, rhs@, inv.val());
                lemma_division_step_keeps::<T>(
                    self@,
                    q@,
                    r@,
                    rhs@,
                    division_step::<T>(r@, rhs@, inv.val()),
                );
            }
            let stored_r = r.stored().len();
            let n: usize = r.deg() as usize;
            let c = r.stored()[n].ring_mul(&inv);
            let t = Polynomial::monomial(c, n - m);
            let tb = t.clone() * rhs.clone();
            r = r - tb;
            q = q + t;
        }
        Ok((q, r))
    }
}

impl<T: RingType> DivSpecImpl for Polynomial<T> {
    /// The quotient is described by the `ensures` of `div`, over values.
    open spec fn obeys_div_spec() -> bool {
        false
    }

    open spec fn div_req(self, rhs: Self) -> bool {
        true
    }

    open spec fn div_spec(self, rhs: Self) -> Result<Self, DivError> {
        arbitrary()
    }
}

impl<T: RingType> Div for Polynomial<T> {
    type Output = Result<Polynomial<T>, DivError>;

    /// The quotient of `self` by `rhs`; see [`Polynomial::div_rem`].
    fn div(self, rhs: Self) -> (res: Result<Polynomial<T>, DivError>)
        ensures
            match res {
                Ok(q) => poly_div_rem::<T>(self@, rhs@).is_ok() && poly_div_rem::<T>(
                    self@,
                    rhs@,
                ).unwrap().0 == q@,
                Err(e) => poly_div_rem::<T>(self@, rhs@) == Err::<(Seq<T::V>, Seq<T::V>), _>(e),
            },
            rhs@ == poly_zero::<T>() <==> res == Err::<Self, _>(DivError::DivisionByZero),
    {
        match self.div_rem(&rhs) {
            Ok((q, _)) => Ok(q),
            Err(e) => Err(e),
        }
    }
}

impl<T: RingType> RemSpecImpl for Polynomial<T> {
    /// The remainder is described by the `ensures` of `rem`, over values.
    open spec fn obeys_rem_spec() -> bool {
        false
    }

    open spec fn rem_req(self, rhs: Self) -> bool {
        true
    }

    open spec fn rem_spec(self, rhs: Self) -> Result<Self, DivError> {
        arbitrary()
    }
}

impl<T: RingType> Rem for Polynomial<T> {
    type Output = Result<Polynomial<T>, DivError>;

    /// The remainder of `self` by `rhs`; see [`Polynomial::div_rem`].
    fn rem(self, rhs: Self) -> (res: Result<Polynomial<T>, DivError>)
        ensures
            match res {
                Ok(r) => poly_div_rem::<T>(self@, rhs@).is_ok() && poly_div_rem::<T>(
                    self@,
                    rhs@,
                ).unwrap().1 == r@ && (r@ == poly_zero::<T>() || degree(r@) < degree(rhs@)),
                Err(e) => poly_div_rem::<T>(self@, rhs@) == Err::<(Seq<T::V>, Seq<T::V>), _>(e),
            },
            rhs@ == poly_zero::<T>() <==> res == Err::<Self, _>(DivError::DivisionByZero),
    {
        match self.div_rem(&rhs) {
            Ok((_, r)) => Ok(r),
            Err(e) => Err(e),
        }
    }
}

} // verus!
