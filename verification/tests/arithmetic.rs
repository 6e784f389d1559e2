use bored_algebra::modular::IntegerMod;
use bored_algebra::poly::Polynomial;

type Mod4 = IntegerMod<4>;

fn p(coeffs: &[i64]) -> Polynomial<i64> {
    Polynomial::from(coeffs.to_vec())
}

fn m4(coeffs: &[u64]) -> Polynomial<Mod4> {
    Polynomial::from(coeffs.iter().map(|c| Mod4::new(*c)).collect::<Vec<_>>())
}

#[test]
fn sum_and_difference_over_the_integers() {
    // x + 1
    let z1 = p(&[1, 1]);
    // 2x^2 - 1
    let z2 = p(&[-1, 0, 2]);
    // x + 1 + 2x^2 - 1 = 2x^2 + x
    assert_eq!(z1.clone() + z2.clone(), p(&[0, 1, 2]));
    // x + 1 - (2x^2 - 1) = -2x^2 + x + 2
    assert_eq!(z1.clone() - z2.clone(), p(&[2, 1, -2]));
    // the other way round, where the first operand is the shorter one
    assert_eq!(z2.clone() + z1.clone(), p(&[0, 1, 2]));
    assert_eq!(z2 - z1, p(&[-2, -1, 2]));
}

#[test]
fn sum_and_difference_modulo_four() {
    // 1 + 3x + 2x^3
    let mod1 = m4(&[1, 3, 0, 2]);
    // x + 3
    let mod2 = m4(&[3, 1]);
    // 1 + 3x + 2x^3 + x + 3 = 2x^3
    assert_eq!(mod1.clone() + mod2.clone(), m4(&[0, 0, 0, 2]));
    // 1 + 3x + 2x^3 - (x + 3) = 2 + 2x + 2x^3
    assert_eq!(mod1 - mod2, m4(&[2, 2, 0, 2]));
}

#[test]
fn product_modulo_four() {
    let mod1 = m4(&[1, 3, 0, 2]);
    let mod2 = m4(&[3, 1]);
    // (1 + 3x + 2x^3)(x + 3) = 3 + 10x + 3x^2 + 6x^3 + 2x^4
    assert_eq!(mod1 * mod2, m4(&[3, 2, 3, 2, 2]));
}

#[test]
fn sum_keeps_the_padded_storage_and_drops_the_degree() {
    let a = p(&[1, 2, 3]);
    let b = p(&[1, 2, -3]);
    let s = a + b;
    assert_eq!(s.deg(), 1);
    assert_eq!(*s.coeffs(), vec![2, 4, 0]);
    assert_eq!(s, p(&[2, 4]));
}

#[test]
fn leading_terms_that_cancel_modulo_four() {
    let a = m4(&[0, 2]);
    let b = m4(&[1, 2]);
    let s = a.clone() + b.clone();
    assert_eq!(s.deg(), 0);
    assert_eq!(s, m4(&[1]));
    // 2x * 2x = 4x^2 = 0
    let sq = a.clone() * a;
    assert!(sq.is_zero());
    assert_eq!(sq.deg(), 0);
    assert_eq!(sq.coeffs().len(), 3);
}

#[test]
fn additive_identity() {
    for c in [vec![], vec![0i64], vec![5], vec![1, -2, 3], vec![0, 0, 4, 0]] {
        let q = Polynomial::from(c);
        assert_eq!(q.clone() + Polynomial::zero(), q);
        assert_eq!(Polynomial::zero() + q.clone(), q);
        assert_eq!(q.clone() - Polynomial::zero(), q);
        assert_eq!(q.clone() + Polynomial::new(), q);
    }
}

#[test]
fn additive_inverse() {
    for c in [vec![], vec![0i64], vec![5], vec![1, -2, 3], vec![0, 0, 4, 0], vec![i64::MIN, 1]] {
        let q = Polynomial::from(c);
        assert_eq!(q.clone() + (-q.clone()), Polynomial::zero());
        assert_eq!(q.clone() - q.clone(), Polynomial::zero());
        assert!((q.clone() - q).is_zero());
    }
}

#[test]
fn difference_keeps_the_padded_storage() {
    let d = p(&[1, 2, 3]) - p(&[0, 2, 3, 0]);
    assert_eq!(*d.coeffs(), vec![1, 0, 0]);
    assert_eq!(d.deg(), 0);
    let e = p(&[1]) - p(&[0, 0, 5, 0]);
    assert_eq!(*e.coeffs(), vec![1, 0, -5]);
}

#[test]
fn negation_negates_every_coefficient() {
    let q = -p(&[1, -2, 0, 3, 0]);
    assert_eq!(*q.coeffs(), vec![-1, 2, 0, -3, 0]);
    assert_eq!(q.deg(), 3);
    assert_eq!(q, p(&[-1, 2, 0, -3]));
    assert!((-Polynomial::<i64>::new()).is_zero());
}

#[test]
fn addition_commutes_and_associates() {
    let a = p(&[1, 2, 3]);
    let b = p(&[-4, 5]);
    let c = p(&[0, 0, -3, 7]);
    assert_eq!(a.clone() + b.clone(), b.clone() + a.clone());
    assert_eq!(
        (a.clone() + b.clone()) + c.clone(),
        a.clone() + (b.clone() + c.clone())
    );
}

#[test]
fn multiplicative_identity() {
    for c in [vec![], vec![0i64], vec![5], vec![1, -2, 3], vec![0, 0, 4, 0]] {
        let q = Polynomial::from(c);
        assert_eq!(q.clone() * Polynomial::one(), q);
        assert_eq!(Polynomial::one() * q.clone(), q);
    }
}

#[test]
fn product_with_zero_is_zero() {
    let q = p(&[1, -2, 3]);
    assert!((q.clone() * Polynomial::zero()).is_zero());
    assert!((Polynomial::zero() * q.clone()).is_zero());
    assert!((q * Polynomial::new()).is_zero());
}

#[test]
fn product_over_the_integers() {
    // (1 + x)(1 - x) = 1 - x^2
    assert_eq!(p(&[1, 1]) * p(&[1, -1]), p(&[1, 0, -1]));
    // (2 + 3x + x^2)(-1 + 4x) = -2 + 5x + 11x^2 + 4x^3
    let prod = p(&[2, 3, 1]) * p(&[-1, 4]);
    assert_eq!(prod, p(&[-2, 5, 11, 4]));
    assert_eq!(*prod.coeffs(), vec![-2, 5, 11, 4]);
    assert_eq!(prod.deg(), 3);
    // trailing zeros of the operands do not enter the product
    let padded = p(&[2, 3, 1, 0, 0]) * p(&[-1, 4, 0]);
    assert_eq!(*padded.coeffs(), vec![-2, 5, 11, 4]);
    // a constant times a polynomial
    assert_eq!(p(&[3]) * p(&[1, 2, 3]), p(&[3, 6, 9]));
}

#[test]
fn distributivity() {
    let a = p(&[1, 2, 3]);
    let b = p(&[-4, 5]);
    let c = p(&[4, -5, 0, 7]);
    assert_eq!(
        a.clone() * (b.clone() + c.clone()),
        a.clone() * b.clone() + a.clone() * c.clone()
    );
    assert_eq!(
        (b.clone() + c.clone()) * a.clone(),
        b.clone() * a.clone() + c.clone() * a.clone()
    );
    // the sum of b and d has a lower degree than both
    let d = p(&[1, -5]);
    assert_eq!(
        a.clone() * (b.clone() + d.clone()),
        a.clone() * b.clone() + a.clone() * d.clone()
    );
    let x = m4(&[1, 2, 3]);
    let y = m4(&[2, 2]);
    let z = m4(&[3, 0, 2]);
    assert_eq!(
        x.clone() * (y.clone() + z.clone()),
        x.clone() * y.clone() + x.clone() * z.clone()
    );
}

#[test]
fn integer_coefficients_wrap_around() {
    let a = p(&[i64::MAX, 1]);
    let b = p(&[1, i64::MAX]);
    assert_eq!(a.clone() + b.clone(), p(&[i64::MIN, i64::MIN]));
    assert_eq!(p(&[i64::MIN]) * p(&[2]), Polynomial::zero());
    assert_eq!(-p(&[i64::MIN]), p(&[i64::MIN]));
    let narrow = Polynomial::<i32>::from(vec![i32::MAX]) + Polynomial::<i32>::from(vec![1]);
    assert_eq!(narrow, Polynomial::<i32>::from(vec![i32::MIN]));
}
