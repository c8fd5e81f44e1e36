use fnb_costing::Ratio;

fn ratio_of(num: i64, den: i64) -> Ratio {
    Ratio::new(num, den).expect("a ratio that fits")
}

#[test]
fn new_reduces_to_lowest_terms() {
    let half = ratio_of(2, 4);
    assert_eq!(half.numer(), 1);
    assert_eq!(half.denom(), 2);
    assert_eq!(half, ratio_of(1, 2));
    assert_eq!(ratio_of(500_000, 1_000_000), ratio_of(1, 2));
}

#[test]
fn new_moves_the_sign_to_the_numerator() {
    let r = ratio_of(3, -6);
    assert_eq!(r.numer(), -1);
    assert_eq!(r.denom(), 2);
    let s = ratio_of(-3, -6);
    assert_eq!(s.numer(), 1);
    assert_eq!(s.denom(), 2);
}

#[test]
fn new_refuses_a_zero_denominator() {
    assert_eq!(Ratio::new(1, 0), None);
    assert_eq!(Ratio::new(0, 0), None);
}

#[test]
fn new_reduces_before_it_judges_the_range() {
    assert_eq!(Ratio::new(i64::MIN, i64::MIN), Some(Ratio::one()));
    assert_eq!(Ratio::new(i64::MIN, 2), Some(Ratio::from_int(i64::MIN / 2)));
    assert_eq!(Ratio::new(i64::MIN, -1), None);
    assert_eq!(Ratio::new(1, i64::MIN), None);
    assert_eq!(Ratio::new(2, i64::MIN), Some(ratio_of(-1, 1 << 62)));
}

#[test]
fn zero_is_zero_over_one() {
    let z = Ratio::zero();
    assert_eq!(z.numer(), 0);
    assert_eq!(z.denom(), 1);
    assert_eq!(ratio_of(0, 17), z);
    assert!(z.is_zero());
    assert!(!z.is_positive());
    assert!(!z.is_negative());
}

#[test]
fn signs_are_read_from_the_numerator() {
    assert!(ratio_of(1, 3).is_positive());
    assert!(!ratio_of(1, 3).is_negative());
    assert!(ratio_of(-1, 3).is_negative());
    assert!(!ratio_of(-1, 3).is_positive());
    assert!(!ratio_of(-1, 3).is_zero());
}

#[test]
fn from_int_has_denominator_one() {
    let r = Ratio::from_int(-42);
    assert_eq!(r.numer(), -42);
    assert_eq!(r.denom(), 1);
    assert_eq!(Ratio::from_int(i64::MIN).numer(), i64::MIN);
}

#[test]
fn sums_are_exact() {
    assert_eq!(ratio_of(1, 2).checked_add(&ratio_of(1, 3)), Some(ratio_of(5, 6)));
    assert_eq!(ratio_of(1, 6).checked_add(&ratio_of(1, 3)), Some(ratio_of(1, 2)));
    assert_eq!(ratio_of(1, 10).checked_add(&ratio_of(2, 10)), Some(ratio_of(3, 10)));
    assert_eq!(ratio_of(1, 2).checked_add(&ratio_of(-1, 2)), Some(Ratio::zero()));
}

#[test]
fn differences_are_exact() {
    assert_eq!(ratio_of(1, 2).checked_sub(&ratio_of(1, 3)), Some(ratio_of(1, 6)));
    assert_eq!(ratio_of(5, 1).checked_sub(&ratio_of(25, 2)), Some(ratio_of(-15, 2)));
    assert_eq!(Ratio::zero().checked_sub(&Ratio::from_int(i64::MAX)), Some(Ratio::from_int(-i64::MAX)));
}

#[test]
fn products_are_exact() {
    assert_eq!(ratio_of(2, 3).checked_mul(&ratio_of(3, 4)), Some(ratio_of(1, 2)));
    assert_eq!(ratio_of(-2, 3).checked_mul(&ratio_of(3, 2)), Some(Ratio::from_int(-1)));
    assert_eq!(ratio_of(7, 9).checked_mul(&Ratio::zero()), Some(Ratio::zero()));
}

#[test]
fn quotients_are_exact() {
    assert_eq!(ratio_of(1, 2).checked_div(&ratio_of(100, 1)), Some(ratio_of(1, 200)));
    assert_eq!(ratio_of(1, 2).checked_div(&ratio_of(-1, 4)), Some(Ratio::from_int(-2)));
    assert_eq!(Ratio::zero().checked_div(&ratio_of(3, 7)), Some(Ratio::zero()));
}

#[test]
fn division_by_zero_gives_nothing() {
    assert_eq!(ratio_of(1, 2).checked_div(&Ratio::zero()), None);
    assert_eq!(Ratio::zero().checked_div(&Ratio::zero()), None);
}

#[test]
fn what_does_not_fit_gives_nothing() {
    let big = Ratio::from_int(i64::MAX);
    assert_eq!(big.checked_add(&Ratio::one()), None);
    assert_eq!(big.checked_mul(&Ratio::from_int(2)), None);
    assert_eq!(Ratio::from_int(i64::MIN).checked_sub(&Ratio::one()), None);
    let tiny = ratio_of(1, i64::MAX);
    assert_eq!(tiny.checked_div(&Ratio::from_int(2)), None);
    assert_eq!(tiny.checked_mul(&ratio_of(1, 2)), None);
}

#[test]
fn a_result_that_reduces_into_range_is_kept() {
    let big = Ratio::from_int(i64::MAX);
    let third = ratio_of(1, 3);
    // i64::MAX is a multiple of 7 and of 73, not of 3.
    assert_eq!(big.checked_mul(&ratio_of(3, 7)), Some(Ratio::from_int(i64::MAX / 7 * 3)));
    assert_eq!(big.checked_mul(&third), Some(ratio_of(i64::MAX, 3)));
    assert_eq!(ratio_of(i64::MAX, 3).checked_add(&ratio_of(i64::MAX, 3)), None);
    assert_eq!(ratio_of(1, i64::MAX).checked_add(&ratio_of(-1, i64::MAX)), Some(Ratio::zero()));
}

#[test]
fn equal_numbers_are_equal_values() {
    let a = ratio_of(3, 4).checked_add(&ratio_of(1, 4)).unwrap();
    assert_eq!(a, Ratio::one());
    let b = ratio_of(10, 4).checked_mul(&ratio_of(2, 5)).unwrap();
    assert_eq!(b, Ratio::one());
    assert_ne!(ratio_of(1, 3), ratio_of(1, 4));
}
