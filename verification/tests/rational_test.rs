use svg_bot::rational::Scalar;

#[test]
fn addition_is_exact_and_reduced() {
    let a = Scalar::new(1, 3);
    let b = Scalar::new(1, 6);
    assert_eq!(a.checked_add(b), Some(Scalar::new(1, 2)));
}

#[test]
fn subtraction_is_exact_and_reduced() {
    let a = Scalar::new(1, 2);
    let b = Scalar::new(1, 3);
    assert_eq!(a.checked_sub(b), Some(Scalar::new(1, 6)));
}

#[test]
fn multiplication_is_exact_and_reduced() {
    let a = Scalar::new(2, 4);
    let b = Scalar::new(2, 3);
    assert_eq!(a.checked_mul(b), Some(Scalar::new(1, 3)));
}

#[test]
fn division_normalizes_the_sign() {
    let a = Scalar::new(1, 2);
    let b = Scalar::new(-2, 3);
    assert_eq!(a.checked_div(b), Some(Scalar::new(-3, 4)));
}

#[test]
fn results_are_reduced_to_lowest_terms() {
    let a = Scalar::new(2, 4);
    let b = Scalar::new(0, 1);
    assert_eq!(a.checked_add(b), Some(Scalar::new(1, 2)));
}

#[test]
fn addition_reports_overflow() {
    let a = Scalar::from_int(i64::MAX);
    let b = Scalar::from_int(1);
    assert_eq!(a.checked_add(b), None);
}

#[test]
fn accessors_return_the_stored_fraction() {
    let a = Scalar::new(-7, 9);
    assert_eq!(a.num(), -7);
    assert_eq!(a.den(), 9);
}
