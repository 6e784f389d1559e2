use bored_algebra::poly::Polynomial;
use std::rc::Rc;

#[test]
fn test_from() {
    let vec1 = vec![1, 2, 3, 4, 0, 0, 0, 0, 0, 0];
    let vec2 = vec![1, 2, 3, 4];
    let vec3 = vec![1, 2, 3, 4, 0, 1];

    let poly1 = Polynomial::from(vec1);
    let poly2 = Polynomial::from(vec2);
    let poly3 = Polynomial::from(vec3);

    assert_eq!(poly1, poly2);
    assert_ne!(poly1, poly3);
    assert_ne!(poly2, poly3);
}

#[test]
fn test_compare_deg() {
    //x + x^2
    let a = Polynomial::<i64>::from(vec![0, 1, 1]);
    //1 + x, with a bunch of extra zeros
    let b = Polynomial::<i64>::from(vec![1, 1, 0, 0, 0, 0]);
    assert_eq!(Polynomial::compare_deg(&a, &b), true);
}

#[test]
fn compare_deg_is_false_for_the_lower_degree() {
    let a = Polynomial::<i64>::from(vec![0, 1, 1]);
    let b = Polynomial::<i64>::from(vec![1, 1, 0, 0, 0, 0]);
    assert_eq!(a.deg(), 2);
    assert_eq!(b.deg(), 1);
    assert_eq!(Polynomial::compare_deg(&b, &a), false);
    assert_eq!(Polynomial::compare_deg(&a, &a), true);
}

#[test]
fn degree_and_storage_of_a_plain_polynomial() {
    let vec = vec![0, 1, 2];
    // x + 2x^2
    let p: Polynomial<i64> = Polynomial::from(vec.clone());
    assert_eq!(p.deg(), 2_u64);
    assert_eq!(p.coeffs(), Rc::new(vec));
}

#[test]
fn storage_is_kept_with_its_trailing_zeros() {
    let vec = vec![5i64, 0, 7, 0, 0];
    let p = Polynomial::from(vec.clone());
    assert_eq!(p.deg(), 2);
    assert_eq!(*p.coeffs(), vec);
}

#[test]
fn coeffs_shares_the_storage() {
    let p = Polynomial::<i64>::from(vec![1, 2, 3]);
    let first = p.coeffs();
    let second = p.coeffs();
    assert!(Rc::ptr_eq(&first, &second));
    assert_eq!(Rc::strong_count(&first), 3);
    assert_eq!(*first, vec![1, 2, 3]);
}

#[test]
fn clone_shares_the_storage_and_is_equal() {
    let p = Polynomial::<i64>::from(vec![4, 0, -1, 0]);
    let q = p.clone();
    assert_eq!(p, q);
    assert_eq!(q.deg(), 2);
    assert!(Rc::ptr_eq(&p.coeffs(), &q.coeffs()));
}

#[test]
fn empty_sequence_is_the_zero_polynomial() {
    let empty = Polynomial::<i64>::from(Vec::new());
    assert_eq!(empty.deg(), 0);
    assert!(empty.coeffs().is_empty());
    assert!(empty.is_zero());
    assert_eq!(empty, Polynomial::<i64>::zero());
    assert_eq!(empty, Polynomial::<i64>::new());
    assert_eq!(empty, Polynomial::<i64>::default());
    assert_eq!(empty, Polynomial::<i64>::from(vec![0, 0, 0]));
}

#[test]
fn all_zero_sequence_has_degree_zero() {
    let p = Polynomial::<i64>::from(vec![0, 0, 0, 0]);
    assert_eq!(p.deg(), 0);
    assert!(p.is_zero());
    assert_eq!(p.coeffs().len(), 4);
}

#[test]
fn constant_has_degree_zero_and_is_not_zero() {
    let p = Polynomial::<i64>::from(vec![7, 0, 0]);
    assert_eq!(p.deg(), 0);
    assert!(!p.is_zero());
    assert_ne!(p, Polynomial::<i64>::zero());
}

#[test]
fn normalization_is_idempotent() {
    for s in [vec![], vec![0i64], vec![1, 2, 3, 4, 0, 0], vec![0, 0, 5], vec![-3]] {
        let p = Polynomial::from(s);
        let again = Polynomial::from((*p.coeffs()).clone());
        assert_eq!(p, again);
        assert_eq!(p.deg(), again.deg());
    }
}

#[test]
fn trailing_zeros_do_not_count() {
    assert_eq!(
        Polynomial::<i64>::from(vec![1, 2, 3, 4, 0, 0, 0, 0, 0, 0]),
        Polynomial::<i64>::from(vec![1, 2, 3, 4])
    );
    for k in 0..5 {
        let mut padded = vec![0i64, -2, 9];
        padded.extend(std::iter::repeat(0).take(k));
        let p = Polynomial::from(padded);
        assert_eq!(p, Polynomial::from(vec![0i64, -2, 9]));
        assert_eq!(p.deg(), 2);
    }
}

#[test]
fn equality_looks_at_degree_and_coefficients_only() {
    let a = Polynomial::<i64>::from(vec![1, 2, 3]);
    let b = Polynomial::<i64>::from(vec![1, 2, 3, 0]);
    let c = Polynomial::<i64>::from(vec![1, 2, 4]);
    let d = Polynomial::<i64>::from(vec![1, 2]);
    assert!(a == b);
    assert!(b == a);
    assert!(a == a);
    assert!(a != c);
    assert!(a != d);
    assert!(d != a);
}

#[test]
fn zero_and_one() {
    let zero = Polynomial::<i64>::zero();
    let one = Polynomial::<i64>::one();
    assert_eq!(zero, Polynomial::from(vec![0]));
    assert_eq!(one, Polynomial::from(vec![1]));
    assert_eq!(*zero.coeffs(), vec![0]);
    assert_eq!(*one.coeffs(), vec![1]);
    assert!(zero.is_zero());
    assert!(!zero.is_one());
    assert!(one.is_one());
    assert!(!one.is_zero());
    assert!(Polynomial::<i64>::from(vec![1, 0, 0]).is_one());
    assert!(Polynomial::<i64>::from(vec![0, 0]).is_zero());
    assert!(!Polynomial::<i64>::from(vec![1, 1]).is_one());
    assert!(!Polynomial::<i64>::from(vec![2]).is_one());
}
