use fib_stark::field::{fp_add, fp_sub, fp_mul, fp_pow, fp_inv, P};
use fib_stark::domain::{Domain, is_power_of_two, TWO_ADIC_ROOT_OF_UNITY};

#[test]
fn add_small() {
    assert_eq!(fp_add(0, 0), 0);
    assert_eq!(fp_add(1, 1), 2);
    assert_eq!(fp_add(1234567, 89), 1234656);
}

#[test]
fn add_wraps_at_modulus() {
    assert_eq!(fp_add(P - 1, 1), 0);
    assert_eq!(fp_add(P - 1, 5), 4);
    assert_eq!(fp_add(P - 1, P - 1), P - 2);
}

#[test]
fn sub_small_and_wrapping() {
    assert_eq!(fp_sub(5, 3), 2);
    assert_eq!(fp_sub(3, 5), P - 2);
    assert_eq!(fp_sub(0, 1), P - 1);
    assert_eq!(fp_sub(7, 7), 0);
}

#[test]
fn mul_exact_values() {
    assert_eq!(fp_mul(0, 12345), 0);
    assert_eq!(fp_mul(1, P - 1), P - 1);
    // 2^32 * 2^32 = 2^64 = 2^32 - 1 mod p
    assert_eq!(fp_mul(1u64 << 32, 1u64 << 32), 4294967295);
}

#[test]
fn pow_exact_values() {
    assert_eq!(fp_pow(2, 0), 1);
    assert_eq!(fp_pow(0, 5), 0);
    assert_eq!(fp_pow(2, 10), 1024);
    // 2^64 mod p = 2^32 - 1
    assert_eq!(fp_pow(2, 64), 4294967295);
}

#[test]
fn inv_is_multiplicative_inverse() {
    assert_eq!(fp_inv(5), 14757395255531667457);
    assert_eq!(fp_mul(fp_inv(5), 5), 1);
    assert_eq!(fp_mul(fp_inv(12345678), 12345678), 1);
    assert_eq!(fp_inv(1), 1);
}

#[test]
fn two_adic_root_has_order_two_to_the_32() {
    // the generator really has order 2^32: its 2^32th power is one and
    // its 2^31th power is -1, not one
    assert_eq!(fp_pow(TWO_ADIC_ROOT_OF_UNITY, 1u64 << 32), 1);
    assert_eq!(fp_pow(TWO_ADIC_ROOT_OF_UNITY, 1u64 << 31), P - 1);
}

#[test]
fn domain_elements_for_size_four() {
    let d = Domain::new(4);
    assert_eq!(d.size(), 4);
    assert_eq!(d.element(0), 1);
    assert_eq!(d.element(1), 281474976710656);
    assert_eq!(d.element(2), 18446744069414584320);
    assert_eq!(d.element(3), 18446462594437873665);
    // omega^4 wraps back to one
    assert_eq!(d.element(4), 1);
}

#[test]
fn powers_of_two_are_recognised() {
    assert!(!is_power_of_two(0));
    assert!(is_power_of_two(1));
    assert!(is_power_of_two(2));
    assert!(!is_power_of_two(3));
    assert!(is_power_of_two(4));
    assert!(!is_power_of_two(6));
    assert!(is_power_of_two(1 << 16));
    assert!(!is_power_of_two((1 << 16) + 1));
}

#[test]
fn domain_of_size_two_is_one_and_minus_one() {
    let d = Domain::new(2);
    assert_eq!(d.element(0), 1);
    assert_eq!(d.element(1), P - 1);
}
