//! The integers modulo a fixed number as a coefficient ring.
use crate::traits::RingType;
use vstd::arithmetic::div_mod::{
    lemma_add_mod_noop, lemma_fundamental_div_mod, lemma_mod_multiples_basic, lemma_mod_self_0,
    lemma_mul_mod_noop_general, lemma_small_mod, lemma_sub_mod_noop,
};
use vstd::prelude::*;

verus! {

/// An integer modulo `N`, kept as its residue in `0..N`.
///
/// `N == 0` stands for the modulus 2^64, the one modulus above every `u64`.
#[derive(Debug, Clone, Copy)]
pub struct IntegerMod<const N: u64> {
    value: u64,
}

/// The greatest common divisor, by Euclid's recursion.
pub open spec fn gcd(a: nat, b: nat) -> nat
    decreases b,
{
    if b == 0 {
        a
    } else {
        gcd(b, a % b)
    }
}

/// `i` is the residue modulo `m` with `i * b == 1` modulo `m`.
pub open spec fn is_inverse(i: int, b: int, m: int) -> bool {
    0 <= i < m && (i * b) % m == 1int % m
}

/// The inverse of `b` modulo `m`, if `b` has one.
pub open spec fn inverse_mod(b: int, m: int) -> Option<int> {
    if exists|i: int| is_inverse(i, b, m) {
        Some(choose|i: int| is_inverse(i, b, m))
    } else {
        None
    }
}

/// The greatest common divisor of numbers that are not both zero is
/// positive and divides both.
proof fn lemma_gcd_divides(a: nat, b: nat)
    requires
        a > 0 || b > 0,
    ensures
        gcd(a, b) > 0,
        a % gcd(a, b) == 0,
        b % gcd(a, b) == 0,
    decreases b,
{
    if b == 0 {
        lemma_mod_self_0(a as int);
    } else {
        let g = gcd(b, a % b);
        lemma_gcd_divides(b, a % b);
        let q = (a / b) as int;
        let r = (a % b) as int;
        lemma_fundamental_div_mod(a as int, b as int);
        lemma_fundamental_div_mod(b as int, g as int);
        lemma_fundamental_div_mod(r, g as int);
        let x = (b as int) / (g as int);
        let y = r / (g as int);
        assert(a == (x * q + y) * g) by (nonlinear_arith)
            requires
                a == b * q + r,
                b == g * x,
                r == g * y,
        ;
        lemma_mod_multiples_basic(x * q + y, g as int);
    }
}

/// A residue has at most one inverse.
proof fn lemma_inverse_unique(i: int, j: int, b: int, m: int)
    requires
        is_inverse(i, b, m),
        is_inverse(j, b, m),
    ensures
        i == j,
{
    if m > 1 {
        lemma_small_mod(1, m as nat);
        lemma_small_mod(i as nat, m as nat);
        lemma_small_mod(j as nat, m as nat);
        lemma_mul_mod_noop_general(i, j * b, m);
        lemma_mul_mod_noop_general(i * b, j, m);
        assert(i * (j * b) == (i * b) * j) by (nonlinear_arith);
        assert(i * 1 == i && 1 * j == j);
    }
}

/// A number that shares a divisor with the modulus has no inverse.
proof fn lemma_no_inverse(i: int, b: nat, m: nat)
    requires
        m > 0,
        gcd(m, b) != 1,
    ensures
        !is_inverse(i, b as int, m as int),
{
    let g = gcd(m, b) as int;
    lemma_gcd_divides(m, b);
    if is_inverse(i, b as int, m as int) {
        if m == 1 {
            // the divisor g of 1 is 1
            if g >= 2 {
                lemma_small_mod(1, g as nat);
            }
        } else {
            lemma_small_mod(1, m);
            lemma_fundamental_div_mod(i * b, m as int);
            lemma_fundamental_div_mod(b as int, g);
            lemma_fundamental_div_mod(m as int, g);
            let k = (i * b) / (m as int);
            let x = (b as int) / g;
            let y = (m as int) / g;
            assert(false) by (nonlinear_arith)
                requires
                    i * b == m * k + 1,
                    b == g * x,
                    m == g * y,
                    g >= 2,
            {
                assert(i * b == g * (i * x));
                assert(m * k == g * (y * k));
                assert(g * (i * x - y * k) == 1);
            }
        }
    }
}

/// One step of the extended Euclidean algorithm keeps the remainders
/// multiples of `b` modulo `m`.
proof fn lemma_euclid_step(m: int, b: int, r0: int, r1: int, t0: int, t1: int, q: int, t2: int)
    requires
        m > 0,
        (t0 * b) % m == r0 % m,
        (t1 * b) % m == r1 % m,
        t2 % m == (t0 - q * t1) % m,
    ensures
        (t2 * b) % m == (r0 - q * r1) % m,
{
    lemma_mul_mod_noop_general(t2, b, m);
    lemma_mul_mod_noop_general(t0 - q * t1, b, m);
    assert((t0 - q * t1) * b == t0 * b - q * (t1 * b)) by (nonlinear_arith);
    lemma_sub_mod_noop(t0 * b, q * (t1 * b), m);
    lemma_sub_mod_noop(r0, q * r1, m);
    lemma_mul_mod_noop_general(q, t1 * b, m);
    lemma_mul_mod_noop_general(q, r1, m);
}

impl<const N: u64> IntegerMod<N> {
    /// The modulus: `N`, or 2^64 where `N` is 0.
    pub open spec fn modulus() -> int {
        if N == 0 {
            0x1_0000_0000_0000_0000
        } else {
            N as int
        }
    }

    /// The residue that `self` holds.
    pub closed spec fn residue(&self) -> int {
        (self.value as int) % Self::modulus()
    }

    #[verifier::type_invariant]
    spec fn reduced(&self) -> bool {
        self.value < Self::modulus()
    }

    /// The modulus as a machine number.
    fn modulus_wide() -> (m: u128)
        ensures
            m == Self::modulus(),
            0 < m <= 0x1_0000_0000_0000_0000,
    {
        if N == 0 {
            0x1_0000_0000_0000_0000u128
        } else {
            N as u128
        }
    }

    /// The element with the given residue.
    fn from_residue(x: u128) -> (r: Self)
        requires
            x < Self::modulus(),
        ensures
            r.residue() == x,
    {
        proof {
            lemma_small_mod(x as nat, Self::modulus() as nat);
        }
        IntegerMod { value: x as u64 }
    }

    /// `v` modulo `N`.
    pub fn new(v: u64) -> (r: Self)
        ensures
            r.residue() == (v as int) % Self::modulus(),
    {
        let m = Self::modulus_wide();
        Self::from_residue((v as u128) % m)
    }

    /// The residue, in `0..N`.
    pub fn value(&self) -> (r: u64)
        ensures
            r == self.residue(),
    {
        proof {
            use_type_invariant(self);
            lemma_small_mod(self.value as nat, Self::modulus() as nat);
        }
        self.value
    }
}

impl<const N: u64> vstd::std_specs::cmp::PartialEqSpecImpl for IntegerMod<N> {
    open spec fn obeys_eq_spec() -> bool {
        true
    }

    open spec fn eq_spec(&self, other: &Self) -> bool {
        self.residue() == other.residue()
    }
}

impl<const N: u64> PartialEq for IntegerMod<N> {
    fn eq(&self, other: &Self) -> (r: bool) {
        self.value() == other.value()
    }
}

impl<const N: u64> Eq for IntegerMod<N> {

}

impl<const N: u64> RingType for IntegerMod<N> {
    type V = int;

    open spec fn val(&self) -> int {
        self.residue()
    }

    open spec fn in_ring(v: int) -> bool {
        0 <= v < Self::modulus()
    }

    open spec fn zero_v() -> int {
        0
    }

    open spec fn one_v() -> int {
        1int % Self::modulus()
    }

    open spec fn add_v(a: int, b: int) -> int {
        (a + b) % Self::modulus()
    }

    open spec fn neg_v(a: int) -> int {
        (-a) % Self::modulus()
    }

    open spec fn mul_v(a: int, b: int) -> int {
        (a * b) % Self::modulus()
    }

    /// The inverse modulo the modulus, for the residues that have one.
    open spec fn inv_v(a: int) -> Option<int> {
        inverse_mod(a, Self::modulus())
    }

    fn zero() -> (r: Self) {
        Self::from_residue(0)
    }

    fn one() -> (r: Self) {
        let m = Self::modulus_wide();
        Self::from_residue(1u128 % m)
    }

    fn ring_eq(&self, rhs: &Self) -> (r: bool) {
        self.value() == rhs.value()
    }

    fn ring_add(&self, rhs: &Self) -> (r: Self) {
        let m = Self::modulus_wide();
        Self::from_residue((self.value() as u128 + rhs.value() as u128) % m)
    }

    fn ring_neg(&self) -> (r: Self) {
        let m = Self::modulus_wide();
        let a = self.value() as u128;
        proof {
            // m - a is -a up to a multiple of m
            vstd::arithmetic::div_mod::lemma_mod_add_multiples_vanish(-a, m as int);
        }
        Self::from_residue((m - a) % m)
    }

    fn ring_sub(&self, rhs: &Self) -> (r: Self) {
        let m = Self::modulus_wide();
        let a = self.value() as u128;
        let b = rhs.value() as u128;
        proof {
            vstd::arithmetic::div_mod::lemma_mod_add_multiples_vanish(-b, m as int);
            lemma_add_mod_noop(a as int, m - b, m as int);
            lemma_add_mod_noop(a as int, -b, m as int);
            lemma_small_mod(a as nat, m as nat);
        }
        Self::from_residue((a + (m - b)) % m)
    }

    fn ring_mul(&self, rhs: &Self) -> (r: Self) {
        let m = Self::modulus_wide();
        let a = self.value() as u128;
        let b = rhs.value() as u128;
        assert(a * b <= 0xffff_ffff_ffff_ffff * 0xffff_ffff_ffff_ffff) by (nonlinear_arith)
            requires
                a <= 0xffff_ffff_ffff_ffff,
                b <= 0xffff_ffff_ffff_ffff,
        ;
        Self::from_residue((a * b) % m)
    }

    fn ring_inv(&self) -> (r: Option<Self>) {
        let m = Self::modulus_wide();
        let b = self.value() as u128;
        let mut r0: u128 = m;
        let mut r1: u128 = b;
        let mut t0: u128 = 0;
        let mut t1: u128 = 1 % m;
        proof {
            lemma_mul_mod_noop_general(1, b as int, m as int);
            assert(0 * b == 0 && 1 * b == b);
            lemma_mod_self_0(m as int);
            lemma_small_mod(0, m as nat);
        }
        while r1 != 0
            invariant
                0 < m <= 0x1_0000_0000_0000_0000,
                r0 <= m,
                r1 <= m,
                t0 < m,
                t1 < m,
                (t0 * b) % (m as int) == r0 % m,
                (t1 * b) % (m as int) == r1 % m,
                gcd(r0 as nat, r1 as nat) == gcd(m as nat, b as nat),
            decreases r1,
        {
            let q = r0 / r1;
            let r2 = r0 % r1;
            let qm = q % m;
            assert(qm * t1 <= 0xffff_ffff_ffff_ffff * 0xffff_ffff_ffff_ffff) by (nonlinear_arith)
                requires
                    qm <= 0xffff_ffff_ffff_ffff,
                    t1 <= 0xffff_ffff_ffff_ffff,
            ;
            let qt = (qm * t1) % m;
            let t2 = (t0 + (m - qt)) % m;
            proof {
                let mi = m as int;
                // t2 is t0 - q * t1 modulo m
                lemma_mul_mod_noop_general(q as int, t1 as int, mi);
                assert(qt as int == (q * t1) % mi);
                vstd::arithmetic::div_mod::lemma_sub_mod_noop_right(t0 as int, q * t1, mi);
                vstd::arithmetic::div_mod::lemma_mod_add_multiples_vanish(t0 - qt, mi);
                lemma_small_mod(t2 as nat, m as nat);
                assert(t2 as int % mi == (t0 - q * t1) % mi);
                lemma_euclid_step(
                    mi,
                    b as int,
                    r0 as int,
                    r1 as int,
                    t0 as int,
                    t1 as int,
                    q as int,
                    t2 as int,
                );
                lemma_fundamental_div_mod(r0 as int, r1 as int);
                assert(r1 * q == q * r1) by (nonlinear_arith);
            }
            r0 = r1;
            r1 = r2;
            t0 = t1;
            t1 = t2;
        }
        if r0 == 1 {
            proof {
                lemma_small_mod(b as nat, m as nat);
                assert(is_inverse(t0 as int, b as int, m as int));
                let chosen = choose|i: int| is_inverse(i, b as int, m as int);
                lemma_inverse_unique(t0 as int, chosen, b as int, m as int);
            }
            Some(Self::from_residue(t0))
        } else {
            proof {
                assert forall|i: int| !is_inverse(i, b as int, m as int) by {
                    lemma_no_inverse(i, b as nat, m as nat);
                }
            }
            None
        }
    }

    proof fn lemma_val_in_ring(x: &Self) {
    }

    proof fn lemma_closed(a: int, b: int) {
        let m = Self::modulus();
        if inverse_mod(a, m).is_some() {
            let i = choose|i: int| is_inverse(i, a, m);
            assert(is_inverse(i, a, m));
        }
    }

    proof fn lemma_add_commutes(a: int, b: int) {
    }

    proof fn lemma_add_associates(a: int, b: int, c: int) {
        let m = Self::modulus();
        lemma_add_mod_noop(a + b, c, m);
        lemma_add_mod_noop(a, b + c, m);
        lemma_small_mod(a as nat, m as nat);
        lemma_small_mod(c as nat, m as nat);
    }

    proof fn lemma_add_zero(a: int) {
        lemma_small_mod(a as nat, Self::modulus() as nat);
    }

    proof fn lemma_add_neg(a: int) {
        let m = Self::modulus();
        lemma_add_mod_noop(a, -a, m);
        lemma_small_mod(a as nat, m as nat);
        lemma_small_mod(0, m as nat);
    }

    proof fn lemma_mul_one(a: int) {
        let m = Self::modulus();
        lemma_mul_mod_noop_general(a, 1, m);
        lemma_mul_mod_noop_general(1, a, m);
        assert(a * 1 == a && 1 * a == a);
        lemma_small_mod(a as nat, m as nat);
    }

    proof fn lemma_mul_zero(a: int) {
        assert(a * 0 == 0 && 0 * a == 0);
        lemma_small_mod(0, Self::modulus() as nat);
    }

    proof fn lemma_mul_distributes(a: int, b: int, c: int) {
        let m = Self::modulus();
        lemma_mul_mod_noop_general(a, b + c, m);
        lemma_mul_mod_noop_general(a + b, c, m);
        assert(a * (b + c) == a * b + a * c) by (nonlinear_arith);
        assert((a + b) * c == a * c + b * c) by (nonlinear_arith);
        lemma_add_mod_noop(a * b, a * c, m);
        lemma_add_mod_noop(a * c, b * c, m);
    }

    proof fn lemma_inverse_cancels(a: int, b: int) {
        let m = Self::modulus();
        let i = choose|i: int| is_inverse(i, b, m);
        assert(is_inverse(i, b, m));
        lemma_mul_mod_noop_general(a * i, b, m);
        lemma_mul_mod_noop_general(a, i * b, m);
        assert((a * i) * b == a * (i * b)) by (nonlinear_arith);
        lemma_mul_mod_noop_general(a, 1, m);
        assert(a * 1 == a);
        lemma_small_mod(a as nat, m as nat);
    }
}

} // verus!
