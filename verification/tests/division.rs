use bored_algebra::error::DivError;
use bored_algebra::modular::IntegerMod;
use bored_algebra::poly::Polynomial;

type Mod4 = IntegerMod<4>;
type Mod7 = IntegerMod<7>;

fn p(coeffs: &[i64]) -> Polynomial<i64> {
    Polynomial::from(coeffs.to_vec())
}

fn m7(coeffs: &[u64]) -> Polynomial<Mod7> {
    Polynomial::from(coeffs.iter().map(|c| Mod7::new(*c)).collect::<Vec<_>>())
}

fn m4(coeffs: &[u64]) -> Polynomial<Mod4> {
    Polynomial::from(coeffs.iter().map(|c| Mod4::new(*c)).collect::<Vec<_>>())
}

#[test]
fn division_by_zero_is_refused() {
    let a = p(&[1, 2, 3]);
    for zero in [Polynomial::zero(), Polynomial::new(), p(&[0, 0, 0])] {
        assert_eq!(a.div_rem(&zero), Err(DivError::DivisionByZero));
        assert_eq!(a.clone() / zero.clone(), Err(DivError::DivisionByZero));
        assert_eq!(a.clone() % zero.clone(), Err(DivError::DivisionByZero));
        assert_eq!(zero.clone() / zero.clone(), Err(DivError::DivisionByZero));
    }
}

#[test]
fn division_by_a_monic_divisor_over_the_integers() {
    // x^3 - 2x^2 - 4 = (x - 3)(x^2 + x + 3) + 5
    let a = p(&[-4, 0, -2, 1]);
    let b = p(&[-3, 1]);
    let (q, r) = a.div_rem(&b).unwrap();
    assert_eq!(q, p(&[3, 1, 1]));
    assert_eq!(r, p(&[5]));
    assert_eq!((a.clone() / b.clone()).unwrap(), p(&[3, 1, 1]));
    assert_eq!((a.clone() % b.clone()).unwrap(), p(&[5]));
    assert_eq!(q * b + r, a);
}

#[test]
fn division_by_minus_one_as_leading_coefficient() {
    // x^2 - 1 = (-x + 1)(-x - 1) + 0
    let a = p(&[-1, 0, 1]);
    let b = p(&[1, -1]);
    let (q, r) = a.div_rem(&b).unwrap();
    assert_eq!(q, p(&[-1, -1]));
    assert!(r.is_zero());
}

#[test]
fn leading_coefficient_without_inverse_fails() {
    // 4x / 2x would be exact, but 2 has no inverse among the integers
    let a = p(&[0, 4]);
    let b = p(&[0, 2]);
    assert_eq!(a.div_rem(&b), Err(DivError::NotInvertible));
    assert_eq!(a.clone() / b.clone(), Err(DivError::NotInvertible));
    assert_eq!(a % b, Err(DivError::NotInvertible));
    // 2 has no inverse modulo 4 either
    assert_eq!(m4(&[1, 1, 1]).div_rem(&m4(&[1, 2])), Err(DivError::NotInvertible));
    // but 3 has: 3 * 3 = 9 = 1
    let (q, r) = m4(&[1, 1, 1]).div_rem(&m4(&[1, 3])).unwrap();
    assert_eq!(q * m4(&[1, 3]) + r.clone(), m4(&[1, 1, 1]));
    assert_eq!(r.deg(), 0);
}

#[test]
fn lower_degree_dividend_is_its_own_remainder() {
    // no inverse is needed where nothing is divided
    let a = p(&[1, 2]);
    let b = p(&[0, 0, 2]);
    let (q, r) = a.div_rem(&b).unwrap();
    assert!(q.is_zero());
    assert_eq!(r, a);
    let zero = Polynomial::<i64>::zero();
    let (q, r) = zero.div_rem(&b).unwrap();
    assert!(q.is_zero());
    assert!(r.is_zero());
    let (q, r) = zero.div_rem(&p(&[2])).unwrap();
    assert!(q.is_zero());
    assert!(r.is_zero());
}

#[test]
fn division_by_a_constant() {
    let a = p(&[3, -6, 9]);
    let (q, r) = a.div_rem(&p(&[-1])).unwrap();
    assert_eq!(q, p(&[-3, 6, -9]));
    assert!(r.is_zero());
    assert_eq!(p(&[3]).div_rem(&p(&[2])), Err(DivError::NotInvertible));
}

#[test]
fn division_over_a_field() {
    // over the integers modulo 7
    // x^2 + 3x + 2 = (x + 1)(x + 2)
    let a = m7(&[2, 3, 1]);
    let b = m7(&[1, 1]);
    let (q, r) = a.div_rem(&b).unwrap();
    assert_eq!(q, m7(&[2, 1]));
    assert!(r.is_zero());
    // 3x^3 + x + 5 by 2x^2 + 6: quotient 5x, remainder 6x + 5
    let a = m7(&[5, 1, 0, 3]);
    let b = m7(&[6, 0, 2]);
    let (q, r) = a.div_rem(&b).unwrap();
    assert_eq!(q, m7(&[0, 5]));
    assert_eq!(r, m7(&[5, 6]));
    assert_eq!(q * b + r, a);
}

#[test]
fn division_is_correct() {
    let dividends = [
        m7(&[]),
        m7(&[3]),
        m7(&[1, 2, 3, 4, 5, 6]),
        m7(&[0, 0, 0, 1]),
        m7(&[6, 5, 0, 0, 2, 0, 0]),
    ];
    let divisors = [m7(&[3]), m7(&[1, 1]), m7(&[2, 0, 5]), m7(&[1, 2, 3, 4, 5, 6]), m7(&[0, 0, 0, 0, 0, 0, 1])];
    for a in dividends.iter() {
        for b in divisors.iter() {
            let (q, r) = a.div_rem(b).unwrap();
            assert_eq!(q.clone() * b.clone() + r.clone(), *a);
            assert!(r.is_zero() || r.deg() < b.deg());
            assert_eq!((a.clone() / b.clone()).unwrap(), q);
            assert_eq!((a.clone() % b.clone()).unwrap(), r);
        }
    }
}

#[test]
fn monomial_is_a_single_term() {
    let t = Polynomial::<i64>::monomial(5, 3);
    assert_eq!(*t.coeffs(), vec![0, 0, 0, 5]);
    assert_eq!(t.deg(), 3);
    let zero = Polynomial::<i64>::monomial(0, 2);
    assert!(zero.is_zero());
    assert_eq!(Polynomial::<i64>::monomial(4, 0), p(&[4]));
}
