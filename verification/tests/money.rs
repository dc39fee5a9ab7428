use cart_server::domain::money::sum;
use cart_server::domain::Money;

#[test]
fn amounts_are_built_from_mantissa_and_scale() {
    let amount = Money::new(1234, 2);
    assert_eq!(amount.mantissa(), 1234);
    assert_eq!(amount.scale(), 2);
    assert_eq!(Money::zero().mantissa(), 0);
    assert_eq!(Money::zero().scale(), 0);
    assert_eq!(Money::default(), Money::zero());
}

#[test]
fn parts_outside_the_range_of_a_decimal_are_refused() {
    assert_eq!(Money::try_from_parts(5, 28), Some(Money::new(5, 28)));
    assert_eq!(Money::try_from_parts(5, 29), None);
    let max: i128 = 0xFFFF_FFFF_FFFF_FFFF_FFFF_FFFF;
    assert!(Money::try_from_parts(max, 0).is_some());
    assert!(Money::try_from_parts(-max, 0).is_some());
    assert_eq!(Money::try_from_parts(max + 1, 0), None);
    assert_eq!(Money::try_from_parts(-max - 1, 0), None);
}

#[test]
fn sums_are_computed_at_the_greater_scale() {
    assert_eq!(Money::new(150, 2).checked_add(Money::new(25, 1)), Some(Money::new(400, 2)));
    assert_eq!(Money::new(1000, 2).checked_add(Money::new(1, 2)), Some(Money::new(1001, 2)));
    assert_eq!(Money::zero().checked_add(Money::new(1000, 2)), Some(Money::new(1000, 2)));
}

#[test]
fn differences_are_computed_at_the_greater_scale() {
    assert_eq!(Money::new(400, 2).checked_sub(Money::new(25, 1)), Some(Money::new(150, 2)));
    assert_eq!(Money::new(5, 0).checked_sub(Money::new(7, 0)), Some(Money::new(-2, 0)));
}

#[test]
fn a_sum_that_cannot_be_represented_is_none() {
    let max = Money::try_from_parts(0xFFFF_FFFF_FFFF_FFFF_FFFF_FFFF, 0).unwrap();
    assert_eq!(max.checked_add(Money::new(1, 0)), None);
    let min = Money::try_from_parts(-0xFFFF_FFFF_FFFF_FFFF_FFFF_FFFF, 0).unwrap();
    assert_eq!(min.checked_sub(Money::new(1, 0)), None);
    assert_eq!(sum(&vec![max, Money::new(1, 0)]), None);
}

#[test]
fn the_sum_of_a_list_starts_from_zero() {
    assert_eq!(sum(&vec![]), Some(Money::zero()));
    assert_eq!(sum(&vec![Money::new(1000, 2)]), Some(Money::new(1000, 2)));
    assert_eq!(
        sum(&vec![Money::new(150, 2), Money::new(25, 1), Money::new(3, 0)]),
        Some(Money::new(700, 2))
    );
}

#[test]
fn sums_agree_with_rust_decimal() {
    let a = rust_decimal::Decimal::new(123456, 3);
    let b = rust_decimal::Decimal::new(-99, 1);
    let expected = a + b;
    let got = Money::new(123456, 3).checked_add(Money::new(-99, 1)).unwrap();
    assert_eq!(got.mantissa(), expected.mantissa());
    assert_eq!(got.scale(), expected.scale());
}
