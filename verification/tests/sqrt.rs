use reflector_subscriptions::sqrt::U128Extensions;

fn is_floor_root(n: u128, root: u128) -> bool {
    let below = root.checked_mul(root).map_or(false, |square| square <= n);
    let above = match (root + 1).checked_mul(root + 1) {
        Some(square) => n < square,
        None => true,
    };
    below && above
}

#[test]
fn sqrt_of_zero_is_zero() {
    assert_eq!(0u128.sqrt(), 0);
}

#[test]
fn sqrt_of_small_numbers() {
    assert_eq!(1u128.sqrt(), 1);
    assert_eq!(2u128.sqrt(), 1);
    assert_eq!(3u128.sqrt(), 1);
    assert_eq!(4u128.sqrt(), 2);
    assert_eq!(8u128.sqrt(), 2);
    assert_eq!(9u128.sqrt(), 3);
    assert_eq!(15u128.sqrt(), 3);
    assert_eq!(16u128.sqrt(), 4);
    assert_eq!(17u128.sqrt(), 4);
    assert_eq!(99u128.sqrt(), 9);
    assert_eq!(100u128.sqrt(), 10);
}

#[test]
fn sqrt_brackets_every_small_number() {
    for n in 0u128..20000 {
        assert!(is_floor_root(n, n.sqrt()), "sqrt({}) = {}", n, n.sqrt());
    }
}

#[test]
fn sqrt_around_perfect_squares() {
    let roots: [u128; 8] = [
        1,
        255,
        65535,
        100000000,
        4294967295,
        4294967296,
        9223372036854775807,
        18446744073709551615,
    ];
    for root in roots {
        let square = root * root;
        assert_eq!(square.sqrt(), root);
        assert_eq!((square - 1).sqrt(), root - 1);
        assert_eq!((square + 1).sqrt(), root);
        assert_eq!((square + 2 * root).sqrt(), root);
    }
}

#[test]
fn sqrt_of_powers_of_two() {
    for shift in 0u32..128 {
        let n = 1u128 << shift;
        let root = n.sqrt();
        assert!(is_floor_root(n, root), "sqrt(2^{}) = {}", shift, root);
        if shift % 2 == 0 {
            assert_eq!(root, 1u128 << (shift / 2));
        }
        assert!(is_floor_root(n - 1, (n - 1).sqrt()));
        assert!(is_floor_root(n + 1, (n + 1).sqrt()));
    }
}

#[test]
fn sqrt_of_the_largest_number() {
    assert_eq!(u128::MAX.sqrt(), 18446744073709551615);
    assert_eq!((u128::MAX - 1).sqrt(), 18446744073709551615);
    assert_eq!((1u128 << 127).sqrt(), 13043817825332782212);
}

#[test]
fn sqrt_of_the_fee_products() {
    // 120 * 100000000^2 / 5
    assert_eq!(240000000000000000u128.sqrt(), 489897948);
    // 120 * 500000000^2 / 10
    assert_eq!(3000000000000000000u128.sqrt(), 1732050807);
}
