use momentum::fixed::Fixed;

#[test]
fn whole_numbers_count_thousandths() {
    assert_eq!(Fixed::from_int(10).raw, 10_000);
    assert_eq!(Fixed::from_int(-3).raw, -3_000);
    assert_eq!(Fixed::zero().raw, 0);
    assert_eq!(Fixed::one().raw, 1_000);
    assert_eq!(Fixed::from_raw(1_250).raw, 1_250);
}

#[test]
fn whole_numbers_saturate() {
    assert_eq!(Fixed::from_int(3_000_000).raw, i32::MAX);
    assert_eq!(Fixed::from_int(-3_000_000).raw, i32::MIN);
}

#[test]
fn sums_and_differences_are_exact_in_range() {
    let a = Fixed::from_raw(1_500);
    let b = Fixed::from_raw(-2_250);
    assert_eq!(a.add(b).raw, -750);
    assert_eq!(a.sub(b).raw, 3_750);
}

#[test]
fn sums_and_differences_saturate() {
    let max = Fixed::from_raw(i32::MAX);
    let min = Fixed::from_raw(i32::MIN);
    assert_eq!(max.add(Fixed::one()).raw, i32::MAX);
    assert_eq!(min.sub(Fixed::one()).raw, i32::MIN);
    assert_eq!(max.sub(min).raw, i32::MAX);
    assert_eq!(min.sub(max).raw, i32::MIN);
}

#[test]
fn products_round_toward_zero() {
    assert_eq!(Fixed::from_raw(1).mul(Fixed::from_raw(999)).raw, 0);
    assert_eq!(Fixed::from_raw(-1).mul(Fixed::from_raw(999)).raw, 0);
    assert_eq!(Fixed::from_raw(1_500).mul(Fixed::from_raw(1_500)).raw, 2_250);
    assert_eq!(Fixed::from_raw(-1_500).mul(Fixed::from_raw(1_500)).raw, -2_250);
    assert_eq!(Fixed::from_raw(333).mul(Fixed::from_raw(3_000)).raw, 999);
    assert_eq!(Fixed::from_raw(-2_001).mul(Fixed::from_raw(500)).raw, -1_000);
}

#[test]
fn products_saturate() {
    let big = Fixed::from_int(2_000_000);
    assert_eq!(big.mul(big).raw, i32::MAX);
    assert_eq!(big.mul(Fixed::from_int(-2)).raw, i32::MIN);
}

#[test]
fn multiplying_by_one_changes_nothing() {
    for raw in [i32::MIN, -1_001, -1, 0, 1, 999, 123_456, i32::MAX] {
        assert_eq!(Fixed::from_raw(raw).mul(Fixed::one()).raw, raw);
    }
}

#[test]
fn quotients_round_toward_zero() {
    assert_eq!(Fixed::from_int(1).div(Fixed::from_int(3)).raw, 333);
    assert_eq!(Fixed::from_int(-1).div(Fixed::from_int(3)).raw, -333);
    assert_eq!(Fixed::from_int(1).div(Fixed::from_int(-3)).raw, -333);
    assert_eq!(Fixed::from_int(-1).div(Fixed::from_int(-3)).raw, 333);
    assert_eq!(Fixed::from_int(50).div(Fixed::from_int(100)).raw, 500);
}

#[test]
fn quotients_saturate() {
    assert_eq!(Fixed::from_int(2_000_000).div(Fixed::from_raw(1)).raw, i32::MAX);
    assert_eq!(Fixed::from_int(-2_000_000).div(Fixed::from_raw(1)).raw, i32::MIN);
}

#[test]
fn halves_round_toward_zero() {
    assert_eq!(Fixed::from_raw(10_000).half().raw, 5_000);
    assert_eq!(Fixed::from_raw(3).half().raw, 1);
    assert_eq!(Fixed::from_raw(-3).half().raw, -1);
    assert_eq!(Fixed::from_raw(-1).half().raw, 0);
}

#[test]
fn absolute_value_saturates_at_the_least_number() {
    assert_eq!(Fixed::from_raw(-5).abs().raw, 5);
    assert_eq!(Fixed::from_raw(5).abs().raw, 5);
    assert_eq!(Fixed::from_raw(i32::MIN).abs().raw, i32::MAX);
}

#[test]
fn min_and_max_pick_an_argument() {
    let a = Fixed::from_raw(-7);
    let b = Fixed::from_raw(4);
    assert_eq!(a.min(b), a);
    assert_eq!(b.min(a), a);
    assert_eq!(a.max(b), b);
    assert_eq!(b.max(a), b);
    assert_eq!(a.max(a), a);
}
