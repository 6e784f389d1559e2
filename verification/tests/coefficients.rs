use bored_algebra::modular::IntegerMod;
use bored_algebra::poly::Polynomial;
use bored_algebra::traits::RingType;

#[test]
fn machine_integers_as_a_ring() {
    assert_eq!(<i64 as RingType>::zero(), 0);
    assert_eq!(<i64 as RingType>::one(), 1);
    assert_eq!(<i32 as RingType>::zero(), 0);
    assert_eq!(<i32 as RingType>::one(), 1);
    assert!(3i64.ring_eq(&3));
    assert!(!3i64.ring_eq(&4));
    assert_eq!(3i64.ring_add(&4), 7);
    assert_eq!(3i64.ring_sub(&4), -1);
    assert_eq!(3i64.ring_mul(&-4), -12);
    assert_eq!(3i64.ring_neg(), -3);
    assert_eq!(i64::MAX.ring_add(&1), i64::MIN);
    assert_eq!(i64::MIN.ring_neg(), i64::MIN);
    assert_eq!(i64::MIN.ring_sub(&1), i64::MAX);
    assert_eq!(i64::MAX.ring_mul(&2), -2);
    assert_eq!(i32::MAX.ring_add(&1), i32::MIN);
    assert_eq!(i32::MAX.ring_mul(&2), -2);
    assert_eq!(7i32.ring_sub(&9), -2);
    assert_eq!(7i32.ring_neg(), -7);
}

#[test]
fn only_the_units_of_the_integers_have_an_inverse() {
    assert_eq!(1i64.ring_inv(), Some(1));
    assert_eq!((-1i64).ring_inv(), Some(-1));
    assert_eq!(0i64.ring_inv(), None);
    assert_eq!(2i64.ring_inv(), None);
    assert_eq!(3i64.ring_inv(), None);
    assert_eq!(1i32.ring_inv(), Some(1));
    assert_eq!((-1i32).ring_inv(), Some(-1));
    assert_eq!(5i32.ring_inv(), None);
}

#[test]
fn residues_are_reduced() {
    assert_eq!(IntegerMod::<4>::new(9).value(), 1);
    assert_eq!(IntegerMod::<4>::new(4).value(), 0);
    assert_eq!(IntegerMod::<4>::new(3).value(), 3);
    assert_eq!(IntegerMod::<4>::new(9), IntegerMod::<4>::new(1));
    assert_ne!(IntegerMod::<4>::new(2), IntegerMod::<4>::new(1));
    assert_eq!(IntegerMod::<1>::new(12345).value(), 0);
    assert_eq!(IntegerMod::<{ u64::MAX }>::new(u64::MAX).value(), 0);
}

#[test]
fn arithmetic_modulo_n() {
    type M = IntegerMod<7>;
    assert_eq!(M::zero().value(), 0);
    assert_eq!(M::one().value(), 1);
    assert_eq!(M::new(5).ring_add(&M::new(4)).value(), 2);
    assert_eq!(M::new(5).ring_sub(&M::new(6)).value(), 6);
    assert_eq!(M::new(5).ring_mul(&M::new(4)).value(), 6);
    assert_eq!(M::new(5).ring_neg().value(), 2);
    assert_eq!(M::new(0).ring_neg().value(), 0);
    assert!(M::new(12).ring_eq(&M::new(5)));
    assert!(!M::new(12).ring_eq(&M::new(4)));
    assert_eq!(IntegerMod::<1>::one().value(), 0);
}

#[test]
fn arithmetic_with_a_large_modulus() {
    type M = IntegerMod<{ u64::MAX }>;
    let big = M::new(u64::MAX - 1);
    assert_eq!(big.ring_add(&big).value(), u64::MAX - 2);
    assert_eq!(big.ring_mul(&big).value(), 1);
    assert_eq!(big.ring_neg().value(), 1);
    assert_eq!(big.ring_inv().map(|i| i.value()), Some(u64::MAX - 1));
}

#[test]
fn modulus_zero_is_two_to_the_sixty_four() {
    type M = IntegerMod<0>;
    assert_eq!(M::new(u64::MAX).value(), u64::MAX);
    assert_eq!(M::new(u64::MAX).ring_add(&M::new(2)).value(), 1);
    assert_eq!(M::new(1 << 63).ring_mul(&M::new(2)).value(), 0);
    assert_eq!(M::new(1).ring_neg().value(), u64::MAX);
    assert_eq!(M::new(3).ring_inv().map(|i| i.value()), Some(0xaaaa_aaaa_aaaa_aaab));
    assert_eq!(M::new(2).ring_inv().map(|i| i.value()), None);
}

#[test]
fn inverses_modulo_n() {
    type M7 = IntegerMod<7>;
    assert_eq!(M7::new(3).ring_inv().map(|i| i.value()), Some(5));
    assert_eq!(M7::new(1).ring_inv().map(|i| i.value()), Some(1));
    assert_eq!(M7::new(6).ring_inv().map(|i| i.value()), Some(6));
    assert_eq!(M7::new(0).ring_inv().map(|i| i.value()), None);
    for v in 1..7 {
        let x = M7::new(v);
        let i = x.ring_inv().unwrap();
        assert_eq!(i.ring_mul(&x).value(), 1);
        assert_eq!(x.ring_mul(&i).value(), 1);
    }
    type M4 = IntegerMod<4>;
    assert_eq!(M4::new(2).ring_inv().map(|i| i.value()), None);
    assert_eq!(M4::new(3).ring_inv().map(|i| i.value()), Some(3));
    type M12 = IntegerMod<12>;
    for v in 0..12u64 {
        let has = M12::new(v).ring_inv().is_some();
        assert_eq!(has, [1, 5, 7, 11].contains(&v));
    }
    assert_eq!(IntegerMod::<1>::new(0).ring_inv().map(|i| i.value()), Some(0));
}

#[test]
fn polynomials_as_coefficients() {
    // in Z[x][y]
    let c = |v: &[i64]| Polynomial::<i64>::from(v.to_vec());
    let zero = Polynomial::<Polynomial<i64>>::from(vec![c(&[0])]);
    let one = Polynomial::<Polynomial<i64>>::from(vec![c(&[1])]);
    // R = -1 + x y,  L = 1 - x y
    let r = Polynomial::from(vec![c(&[-1]), c(&[0, 1])]);
    let l = Polynomial::from(vec![c(&[1]), c(&[0, -1])]);
    assert_eq!(r.clone() + l.clone(), zero);
    assert!((r.clone() + l.clone()).is_zero());
    assert_eq!(r.deg(), 1);
    assert_eq!(r.clone() * one.clone(), r);
    // R * L = -1 + 2 x y - x^2 y^2
    let product = r.clone() * l.clone();
    assert_eq!(
        product,
        Polynomial::from(vec![c(&[-1]), c(&[0, 2]), c(&[0, 0, -1])])
    );
    // (x + y)(x - y) = x^2 - y^2
    let s = Polynomial::from(vec![c(&[0, 1]), c(&[1])]);
    let d = Polynomial::from(vec![c(&[0, 1]), c(&[-1])]);
    assert_eq!(
        s * d,
        Polynomial::from(vec![c(&[0, 0, 1]), c(&[]), c(&[-1])])
    );
    // coefficients equal as polynomials count as equal coefficients
    assert_eq!(
        Polynomial::from(vec![c(&[1, 0, 0]), c(&[0, 0])]),
        Polynomial::from(vec![c(&[1])])
    );
}

#[test]
fn polynomial_ring_operations_by_reference() {
    let a = Polynomial::<i64>::from(vec![1, 2]);
    let b = Polynomial::<i64>::from(vec![3, -2]);
    assert_eq!(a.ring_add(&b), Polynomial::from(vec![4]));
    assert_eq!(a.ring_sub(&b), Polynomial::from(vec![-2, 4]));
    assert_eq!(a.ring_mul(&b), Polynomial::from(vec![3, 4, -4]));
    assert_eq!(a.ring_neg(), Polynomial::from(vec![-1, -2]));
    assert!(a.ring_eq(&Polynomial::from(vec![1, 2, 0])));
    assert_eq!(<Polynomial<i64> as RingType>::zero(), Polynomial::zero());
    assert_eq!(<Polynomial<i64> as RingType>::one(), Polynomial::one());
}

#[test]
fn constant_polynomials_with_invertible_constant_have_an_inverse() {
    let minus_one = Polynomial::<i64>::from(vec![-1, 0]);
    assert_eq!(minus_one.ring_inv(), Some(Polynomial::from(vec![-1])));
    assert_eq!(Polynomial::<i64>::from(vec![2]).ring_inv(), None);
    assert_eq!(Polynomial::<i64>::from(vec![1, 1]).ring_inv(), None);
    assert_eq!(Polynomial::<i64>::zero().ring_inv(), None);
    let three = Polynomial::from(vec![IntegerMod::<7>::new(3)]);
    assert_eq!(
        three.ring_inv(),
        Some(Polynomial::from(vec![IntegerMod::<7>::new(5)]))
    );
}

#[test]
fn division_with_polynomial_coefficients() {
    let c = |v: &[i64]| Polynomial::<i64>::from(v.to_vec());
    // (x^2 - y^2) / (x + y) in Z[y][x], the divisor monic in x
    let a = Polynomial::from(vec![c(&[0, 0, -1]), c(&[]), c(&[1])]);
    let b = Polynomial::from(vec![c(&[0, 1]), c(&[1])]);
    let (q, r) = a.div_rem(&b).unwrap();
    assert_eq!(q, Polynomial::from(vec![c(&[0, -1]), c(&[1])]));
    assert!(r.is_zero());
}

#[test]
fn zero_of_the_polynomial_ring_stores_one_zero_coefficient() {
    let zero = <Polynomial<i64> as RingType>::zero();
    assert_eq!(*zero.coeffs(), vec![0]);
    assert_eq!(zero.deg(), 0);
    assert!(zero.is_zero());
    let nested = <Polynomial<Polynomial<i64>> as RingType>::zero();
    assert_eq!(nested.coeffs().len(), 1);
    assert!(nested.coeffs()[0].is_zero());
}
