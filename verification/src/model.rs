//! The mathematical model of a polynomial: its sequence of coefficients.
//!
//! Index `i` of a sequence holds the coefficient of `x^i`. A polynomial's
//! value is the sequence without its trailing zeros, so the zero polynomial
//! is the empty sequence and every other polynomial ends in its leading
//! coefficient. The functions here say what each operation of the library
//! computes; the executable code is proved against them.
use crate::error::DivError;
use crate::traits::RingType;
use vstd::prelude::*;

verus! {

/// The ring elements that a sequence of coefficient values stands for.
pub open spec fn values<T: RingType>(s: Seq<T>) -> Seq<T::V> {
    Seq::new(s.len(), |i: int| s[i].val())
}

/// `s` without its trailing zeros.
pub open spec fn trim<T: RingType>(s: Seq<T::V>) -> Seq<T::V>
    decreases s.len(),
{
    if s.len() > 0 && s.last() == T::zero_v() {
        trim::<T>(s.drop_last())
    } else {
        s
    }
}

/// The degree of the polynomial with value `p`: the index of its leading
/// coefficient, and 0 for the zero polynomial.
pub open spec fn degree<A>(p: Seq<A>) -> nat {
    if p.len() == 0 {
        0
    } else {
        (p.len() - 1) as nat
    }
}

/// The coefficient of `x^i`, which is zero outside the sequence.
pub open spec fn coeff<T: RingType>(p: Seq<T::V>, i: int) -> T::V {
    if 0 <= i < p.len() {
        p[i]
    } else {
        T::zero_v()
    }
}

/// The coefficient of the highest power present, and zero for the zero
/// polynomial.
pub open spec fn leading<T: RingType>(p: Seq<T::V>) -> T::V {
    coeff::<T>(p, degree(p) as int)
}

/// Every entry is an element of the ring.
pub open spec fn all_in_ring<T: RingType>(s: Seq<T::V>) -> bool {
    forall|i: int| 0 <= i < s.len() ==> T::in_ring(#[trigger] s[i])
}

/// `p` is the value of a polynomial: ring elements, the last of them not
/// zero.
pub open spec fn canonical<T: RingType>(p: Seq<T::V>) -> bool {
    &&& all_in_ring::<T>(p)
    &&& p.len() > 0 ==> p.last() != T::zero_v()
}

/// The zero polynomial.
pub open spec fn poly_zero<T: RingType>() -> Seq<T::V> {
    Seq::empty()
}

/// The constant polynomial 1.
pub open spec fn poly_one<T: RingType>() -> Seq<T::V> {
    trim::<T>(seq![T::one_v()])
}

/// The coefficientwise sum up to the larger of the two degrees, before
/// trailing zeros are dropped.
pub open spec fn raw_add<T: RingType>(a: Seq<T::V>, b: Seq<T::V>) -> Seq<T::V> {
    Seq::new(
        (if degree(a) >= degree(b) {
            degree(a)
        } else {
            degree(b)
        }) + 1,
        |i: int| T::add_v(coeff::<T>(a, i), coeff::<T>(b, i)),
    )
}

/// `a + b`.
pub open spec fn poly_add<T: RingType>(a: Seq<T::V>, b: Seq<T::V>) -> Seq<T::V> {
    trim::<T>(raw_add::<T>(a, b))
}

/// Every coefficient negated.
pub open spec fn raw_neg<T: RingType>(a: Seq<T::V>) -> Seq<T::V> {
    Seq::new(a.len(), |i: int| T::neg_v(a[i]))
}

/// `-a`.
pub open spec fn poly_neg<T: RingType>(a: Seq<T::V>) -> Seq<T::V> {
    trim::<T>(raw_neg::<T>(a))
}

/// `a - b`, which is `a + (-b)`.
pub open spec fn poly_sub<T: RingType>(a: Seq<T::V>, b: Seq<T::V>) -> Seq<T::V> {
    poly_add::<T>(a, poly_neg::<T>(b))
}

/// The convolution sum for `x^k`, over the indices `i < n`:
/// `a_0 * b_k + a_1 * b_(k-1) + ...`, added up from zero in this order.
/// A term enters the sum only if `i` lies within the degree of `a` and
/// `k - i` within the degree of `b`.
pub open spec fn conv<T: RingType>(a: Seq<T::V>, b: Seq<T::V>, k: int, n: nat) -> T::V
    decreases n,
{
    if n == 0 {
        T::zero_v()
    } else {
        let i = n - 1;
        let before = conv::<T>(a, b, k, (n - 1) as nat);
        if i <= degree(a) && 0 <= k - i <= degree(b) {
            T::add_v(before, T::mul_v(coeff::<T>(a, i), coeff::<T>(b, k - i)))
        } else {
            before
        }
    }
}

/// The convolution sums for `x^0` to `x^(deg a + deg b)`, before trailing
/// zeros are dropped.
pub open spec fn raw_mul<T: RingType>(a: Seq<T::V>, b: Seq<T::V>) -> Seq<T::V> {
    Seq::new(degree(a) + degree(b) + 1, |k: int| conv::<T>(a, b, k, (k + 1) as nat))
}

/// `a * b`.
pub open spec fn poly_mul<T: RingType>(a: Seq<T::V>, b: Seq<T::V>) -> Seq<T::V> {
    trim::<T>(raw_mul::<T>(a, b))
}

/// The coefficients of `c * x^d`, before trailing zeros are dropped.
pub open spec fn raw_monomial<T: RingType>(c: T::V, d: nat) -> Seq<T::V> {
    Seq::new(
        d + 1,
        |i: int|
            if i == d {
                c
            } else {
                T::zero_v()
            },
    )
}

/// `c * x^d`.
pub open spec fn monomial<T: RingType>(c: T::V, d: nat) -> Seq<T::V> {
    trim::<T>(raw_monomial::<T>(c, d))
}

/// Long division from the state `(q, r)` on: while `r` is not zero and its
/// degree is at least that of `b`, the monomial `t` that cancels the leading
/// term of `r` against that of `b` is added to `q`, and `t * b` is taken off
/// `r`. `inv` is the inverse of the leading coefficient of `b`. The result
/// is the final quotient and remainder.
pub open spec fn long_division<T: RingType>(
    q: Seq<T::V>,
    r: Seq<T::V>,
    b: Seq<T::V>,
    inv: T::V,
) -> (Seq<T::V>, Seq<T::V>)
    decreases r.len(),
{
    if b.len() == 0 || r.len() < b.len() {
        (q, r)
    } else {
        let t = division_step::<T>(r, b, inv);
        let rest = poly_sub::<T>(r, poly_mul::<T>(t, b));
        if rest.len() < r.len() {
            long_division::<T>(poly_add::<T>(q, t), rest, b, inv)
        } else {
            (q, r)
        }
    }
}

/// The monomial that one step of long division adds to the quotient:
/// `(lead(r) * inv) * x^(deg r - deg b)`.
pub open spec fn division_step<T: RingType>(r: Seq<T::V>, b: Seq<T::V>, inv: T::V) -> Seq<T::V> {
    monomial::<T>(T::mul_v(leading::<T>(r), inv), (degree(r) - degree(b)) as nat)
}

/// Quotient and remainder of `a` by `b`, or the reason why there is none.
///
/// Division by the zero polynomial is refused. A dividend that is zero or
/// of lower degree than the divisor is its own remainder. Otherwise the
/// leading coefficient of `b` has to have an inverse, with which long
/// division is carried out.
pub open spec fn poly_div_rem<T: RingType>(a: Seq<T::V>, b: Seq<T::V>) -> Result<
    (Seq<T::V>, Seq<T::V>),
    DivError,
> {
    if b.len() == 0 {
        Err(DivError::DivisionByZero)
    } else if a.len() < b.len() {
        Ok((poly_zero::<T>(), a))
    } else {
        match T::inv_v(leading::<T>(b)) {
            None => Err(DivError::NotInvertible),
            Some(inv) => Ok(long_division::<T>(poly_zero::<T>(), a, b, inv)),
        }
    }
}

} // verus!
