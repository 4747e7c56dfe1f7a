use earf::arith::{floor_div, wrap};

#[test]
fn floor_div_rounds_towards_minus_infinity() {
    assert_eq!(floor_div(7, 2), 3);
    assert_eq!(floor_div(-7, 2), -4);
    assert_eq!(floor_div(-8, 2), -4);
    assert_eq!(floor_div(-1, 1 << 32), -1);
    assert_eq!(floor_div(0, 5), 0);
    assert_eq!(floor_div(i128::MIN, 1), i128::MIN);
    assert_eq!(floor_div(i128::MIN, 3), -56713727820156410577229101238628035243);
}

#[test]
fn floor_div_agrees_with_euclidean_division() {
    let mut n: i128 = -50;
    while n <= 50 {
        let mut d: i128 = 1;
        while d <= 9 {
            assert_eq!(floor_div(n, d), n.div_euclid(d));
            d += 1;
        }
        n += 1;
    }
}

#[test]
fn wrap_gives_the_non_negative_remainder() {
    assert_eq!(wrap(0, 5), 0);
    assert_eq!(wrap(7, 5), 2);
    assert_eq!(wrap(-1, 5), 4);
    assert_eq!(wrap(-5, 5), 0);
    assert_eq!(wrap(-6, 5), 4);
    assert_eq!(wrap(i128::MIN, 7), i128::MIN.rem_euclid(7) as u32);
    assert_eq!(wrap(i128::MAX, u32::MAX), i128::MAX.rem_euclid(u32::MAX as i128) as u32);
}
